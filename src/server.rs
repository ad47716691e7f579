//! Server records and the registry that maps aliases to them.
use vstd::prelude::*;

use crate::text::{str_less, str_lt, lemma_str_lt_irreflexive, lemma_str_lt_transitive, lemma_str_lt_total};

verus! {

/// The connection parameters of one remote host.
#[derive(Debug)]
pub struct Server {
    pub username: String,
    pub address: String,
    pub port: u16,
}

/// What a `Server` holds, as mathematical values.
pub struct ServerView {
    pub username: Seq<char>,
    pub address: Seq<char>,
    pub port: u16,
}

impl View for Server {
    type V = ServerView;

    open spec fn view(&self) -> ServerView {
        ServerView { username: self.username@, address: self.address@, port: self.port }
    }
}

impl Clone for Server {
    fn clone(&self) -> (r: Self)
        ensures
            r@ == self@,
    {
        Server { username: self.username.clone(), address: self.address.clone(), port: self.port }
    }
}

/// The registry: aliases, each unique, mapped to server records.
#[derive(Debug)]
pub struct ServerCollection {
    hosts: Vec<(String, Server)>,
}

impl ServerCollection {
    pub closed spec fn key(&self, i: int) -> Seq<char> {
        self.hosts@[i].0@
    }

    pub closed spec fn value(&self, i: int) -> ServerView {
        self.hosts@[i].1@
    }

    pub closed spec fn len(&self) -> nat {
        self.hosts@.len()
    }

    /// The aliases are held in strictly increasing order, hence unique.
    pub closed spec fn wf(&self) -> bool {
        forall|i: int, j: int| 0 <= i < j < self.hosts@.len() ==> str_lt(#[trigger] self.key(i), #[trigger] self.key(j))
    }

    /// The entries in the order of their aliases.
    pub closed spec fn entries_view(&self) -> Seq<(Seq<char>, ServerView)> {
        entries_of(self.hosts@)
    }
}

/// The mathematical values of a sequence of (alias, record) pairs.
pub open spec fn entries_of(v: Seq<(String, Server)>) -> Seq<(Seq<char>, ServerView)> {
    v.map_values(|e: (String, Server)| (e.0@, e.1@))
}

/// The aliases of `s` increase strictly from each entry to the next.
pub open spec fn aliases_increasing(s: Seq<(Seq<char>, ServerView)>) -> bool {
    forall|i: int, j: int| 0 <= i < j < s.len() ==> str_lt(#[trigger] s[i].0, #[trigger] s[j].0)
}

/// The map that storing each entry of `s` in turn builds: where an alias
/// repeats, its last entry wins.
pub open spec fn map_of_entries(s: Seq<(Seq<char>, ServerView)>) -> Map<Seq<char>, ServerView>
    decreases s.len(),
{
    if s.len() == 0 {
        Map::empty()
    } else {
        map_of_entries(s.drop_last()).insert(s.last().0, s.last().1)
    }
}

/// Over entries whose aliases are unique, `map_of_entries` maps each alias
/// to its entry's record, and nothing else.
pub proof fn lemma_map_of_unique_entries(s: Seq<(Seq<char>, ServerView)>)
    requires
        aliases_increasing(s),
    ensures
        forall|i: int| 0 <= i < s.len() ==> #[trigger] map_of_entries(s).contains_key(s[i].0)
            && map_of_entries(s)[s[i].0] == s[i].1,
        forall|k: Seq<char>| #[trigger] map_of_entries(s).contains_key(k) ==> exists|i: int| 0 <= i < s.len() && s[i].0 == k,
    decreases s.len(),
{
    if s.len() > 0 {
        let p = s.drop_last();
        assert(aliases_increasing(p)) by {
            assert forall|i: int, j: int| 0 <= i < j < p.len() implies str_lt(#[trigger] p[i].0, #[trigger] p[j].0) by {
                assert(str_lt(s[i].0, s[j].0));
            }
        }
        lemma_map_of_unique_entries(p);
        assert forall|i: int| 0 <= i < s.len() implies #[trigger] map_of_entries(s).contains_key(s[i].0)
            && map_of_entries(s)[s[i].0] == s[i].1 by {
            assert(map_of_entries(s) == map_of_entries(p).insert(s.last().0, s.last().1));
            if i < s.len() - 1 {
                assert(p[i] == s[i]);
                assert(map_of_entries(p).contains_key(p[i].0));
                assert(str_lt(s[i].0, s[s.len() - 1].0));
                lemma_str_lt_irreflexive(s[i].0);
            }
        }
        assert forall|k: Seq<char>| #[trigger] map_of_entries(s).contains_key(k) implies exists|i: int| 0 <= i < s.len() && s[i].0 == k by {
            assert(map_of_entries(s) == map_of_entries(p).insert(s.last().0, s.last().1));
            if k != s.last().0 {
                assert(map_of_entries(p).contains_key(k));
                let i = choose|i: int| 0 <= i < p.len() && p[i].0 == k;
                assert(s[i] == p[i]);
            }
        }
    }
}

impl View for ServerCollection {
    type V = Map<Seq<char>, ServerView>;

    closed spec fn view(&self) -> Map<Seq<char>, ServerView> {
        Map::new(
            |k: Seq<char>| exists|i: int| 0 <= i < self.hosts@.len() && self.key(i) == k,
            |k: Seq<char>| self.value(choose|i: int| 0 <= i < self.hosts@.len() && self.key(i) == k),
        )
    }
}

impl ServerCollection {
    proof fn lemma_index(&self, i: int)
        requires
            self.wf(),
            0 <= i < self.len(),
        ensures
            self@.contains_key(self.key(i)),
            self@[self.key(i)] == self.value(i),
    {
        let k = self.key(i);
        assert(self@.contains_key(k));
        let j = choose|j: int| 0 <= j < self.hosts@.len() && self.key(j) == k;
        if j < i {
            lemma_str_lt_irreflexive(k);
        } else if i < j {
            lemma_str_lt_irreflexive(k);
        }
    }

    proof fn lemma_view_is_map_of_entries(&self)
        requires
            self.wf(),
        ensures
            aliases_increasing(self.entries_view()),
            map_of_entries(self.entries_view()) == self@,
    {
        let s = self.entries_view();
        assert forall|i: int| 0 <= i < s.len() implies #[trigger] s[i] == (self.key(i), self.value(i)) by {}
        assert(aliases_increasing(s)) by {
            assert forall|i: int, j: int| 0 <= i < j < s.len() implies str_lt(#[trigger] s[i].0, #[trigger] s[j].0) by {
                assert(s[i].0 == self.key(i));
                assert(s[j].0 == self.key(j));
            }
        }
        lemma_map_of_unique_entries(s);
        let m = map_of_entries(s);
        assert forall|k: Seq<char>| #[trigger] m.contains_key(k) == self@.contains_key(k) by {
            if m.contains_key(k) {
                let i = choose|i: int| 0 <= i < s.len() && s[i].0 == k;
                self.lemma_index(i);
            }
            if self@.contains_key(k) {
                let i = choose|i: int| 0 <= i < self.hosts@.len() && self.key(i) == k;
                assert(s[i].0 == k);
            }
        }
        assert forall|k: Seq<char>| #[trigger] m.contains_key(k) implies m[k] == self@[k] by {
            let i = choose|i: int| 0 <= i < s.len() && s[i].0 == k;
            self.lemma_index(i);
        }
        assert(m =~= self@);
    }

    /// An empty registry.
    pub fn init() -> (r: Self)
        ensures
            r.wf(),
            r@ == Map::<Seq<char>, ServerView>::empty(),
    {
        let r = ServerCollection { hosts: Vec::new() };
        assert(r@ =~= Map::<Seq<char>, ServerView>::empty());
        r
    }

    /// Where `key` stands, or where it would be inserted.
    fn position(&self, key: &String) -> (r: (usize, bool))
        requires
            self.wf(),
        ensures
            r.0 <= self.len(),
            forall|i: int| 0 <= i < r.0 ==> str_lt(#[trigger] self.key(i), key@),
            r.1 ==> r.0 < self.len() && self.key(r.0 as int) == key@,
            !r.1 ==> forall|i: int| r.0 <= i < self.len() ==> str_lt(key@, #[trigger] self.key(i)),
    {
        let mut lo: usize = 0;
        let mut hi: usize = self.hosts.len();
        while lo < hi
            invariant
                self.wf(),
                lo <= hi <= self.len(),
                forall|j: int| 0 <= j < lo ==> str_lt(#[trigger] self.key(j), key@),
                forall|j: int| hi <= j < self.len() ==> str_lt(key@, #[trigger] self.key(j)),
            decreases hi - lo,
        {
            let mid = lo + (hi - lo) / 2;
            if str_less(&self.hosts[mid].0, key) {
                proof {
                    assert forall|j: int| 0 <= j <= mid implies str_lt(#[trigger] self.key(j), key@) by {
                        if j < mid {
                            lemma_str_lt_transitive(self.key(j), self.key(mid as int), key@);
                        }
                    }
                }
                lo = mid + 1;
            } else if self.hosts[mid].0 == *key {
                proof {
                    assert forall|j: int| 0 <= j < mid implies str_lt(#[trigger] self.key(j), key@) by {
                        assert(str_lt(self.key(j), self.key(mid as int)));
                    }
                }
                return (mid, true);
            } else {
                proof {
                    lemma_str_lt_total(self.key(mid as int), key@);
                    assert forall|j: int| mid <= j < self.len() implies str_lt(key@, #[trigger] self.key(j)) by {
                        if mid < j {
                            lemma_str_lt_transitive(key@, self.key(mid as int), self.key(j));
                        }
                    }
                }
                hi = mid;
            }
        }
        (lo, false)
    }

    /// The record stored under `key`, if any.
    pub fn get(&self, key: &String) -> (r: Option<&Server>)
        requires
            self.wf(),
        ensures
            r is Some <==> self@.contains_key(key@),
            r is Some ==> r->0@ == self@[key@],
    {
        let (i, found) = self.position(key);
        if found {
            proof {
                self.lemma_index(i as int);
            }
            Some(&self.hosts[i].1)
        } else {
            proof {
                if self@.contains_key(key@) {
                    let j = choose|j: int| 0 <= j < self.hosts@.len() && self.key(j) == key@;
                    lemma_str_lt_irreflexive(key@);
                }
            }
            None
        }
    }

    /// Stores `server` under `key`, replacing any record already there.
    pub fn insert(&mut self, key: &String, server: Server)
        requires
            old(self).wf(),
        ensures
            final(self).wf(),
            final(self)@ == old(self)@.insert(key@, server@),
    {
        let ghost before = *self;
        let (i, found) = self.position(key);
        let entry = (key.clone(), server);
        if found {
            self.hosts.set(i, entry);
            proof {
                assert forall|j: int| 0 <= j < self.len() implies #[trigger] self.key(j) == before.key(j) by {}
                assert forall|a: int, b: int| 0 <= a < b < self.hosts@.len() implies str_lt(#[trigger] self.key(a), #[trigger] self.key(b)) by {
                    assert(str_lt(before.key(a), before.key(b)));
                }
                assert(self.wf());
                self.lemma_index(i as int);
                assert forall|k: Seq<char>| #[trigger] self@.contains_key(k) == before@.insert(key@, server@).contains_key(k)
                    by {
                    if self@.contains_key(k) {
                        let j = choose|j: int| 0 <= j < self.hosts@.len() && self.key(j) == k;
                        before.lemma_index(j);
                    }
                    if before@.contains_key(k) {
                        let j = choose|j: int| 0 <= j < before.hosts@.len() && before.key(j) == k;
                        self.lemma_index(j);
                    }
                }
                assert forall|k: Seq<char>| #[trigger] self@.contains_key(k) implies self@[k] == before@.insert(key@, server@)[k]
                    by {
                    if k != key@ {
                        let j = choose|j: int| 0 <= j < self.hosts@.len() && self.key(j) == k;
                        before.lemma_index(j);
                        self.lemma_index(j);
                    }
                }
                assert(self@ =~= before@.insert(key@, server@));
            }
        } else {
            self.hosts.insert(i, entry);
            proof {
                let n = before.len();
                assert forall|j: int| 0 <= j < i implies #[trigger] self.key(j) == before.key(j) && self.value(j) == before.value(j) by {}
                assert forall|j: int| i < j <= n implies #[trigger] self.key(j) == before.key(j - 1) && self.value(j) == before.value(j - 1) by {}
                assert(self.key(i as int) == key@);
                assert(self.value(i as int) == server@);
                assert forall|a: int, b: int| 0 <= a < b < self.hosts@.len() implies str_lt(#[trigger] self.key(a), #[trigger] self.key(b)) by {
                    if b < i {
                    } else if b == i {
                    } else if a < i {
                        lemma_str_lt_transitive(self.key(a), key@, self.key(b));
                    } else if a == i {
                    } else {
                    }
                }
                assert(self.wf());
                self.lemma_index(i as int);
                assert forall|k: Seq<char>| #[trigger] self@.contains_key(k) == before@.insert(key@, server@).contains_key(k)
                    by {
                    if self@.contains_key(k) {
                        let j = choose|j: int| 0 <= j < self.hosts@.len() && self.key(j) == k;
                        if j < i {
                            before.lemma_index(j);
                        } else if j > i {
                            before.lemma_index(j - 1);
                        }
                    }
                    if before@.contains_key(k) {
                        let j = choose|j: int| 0 <= j < before.hosts@.len() && before.key(j) == k;
                        if j < i {
                            self.lemma_index(j);
                        } else {
                            self.lemma_index(j + 1);
                        }
                    }
                }
                assert forall|k: Seq<char>| #[trigger] self@.contains_key(k) implies self@[k] == before@.insert(key@, server@)[k]
                    by {
                    if k != key@ {
                        let j = choose|j: int| 0 <= j < self.hosts@.len() && self.key(j) == k;
                        self.lemma_index(j);
                        if j < i {
                            before.lemma_index(j);
                        } else if j > i {
                            before.lemma_index(j - 1);
                        }
                    }
                }
                assert(self@ =~= before@.insert(key@, server@));
            }
        }
    }

    /// Removes the record stored under `key`; nothing happens where there
    /// is none.
    pub fn remove(&mut self, key: &String)
        requires
            old(self).wf(),
        ensures
            final(self).wf(),
            final(self)@ == old(self)@.remove(key@),
            !old(self)@.contains_key(key@) ==> *final(self) == *old(self),
    {
        let ghost before = *self;
        let (i, found) = self.position(key);
        if found {
            let _ = self.hosts.remove(i);
            proof {
                let n = self.len();
                assert forall|j: int| 0 <= j < i implies #[trigger] self.key(j) == before.key(j) && self.value(j) == before.value(j) by {}
                assert forall|j: int| i <= j < n implies #[trigger] self.key(j) == before.key(j + 1) && self.value(j) == before.value(j + 1) by {}
                assert forall|a: int, b: int| 0 <= a < b < self.hosts@.len() implies str_lt(#[trigger] self.key(a), #[trigger] self.key(b)) by {
                    if b < i {
                        assert(str_lt(before.key(a), before.key(b)));
                    } else if a < i {
                        assert(str_lt(before.key(a), before.key(b + 1)));
                    } else {
                        assert(str_lt(before.key(a + 1), before.key(b + 1)));
                    }
                }
                assert(self.wf());
                assert forall|k: Seq<char>| #[trigger] self@.contains_key(k) == before@.remove(key@).contains_key(k)
                    by {
                    if self@.contains_key(k) {
                        let j = choose|j: int| 0 <= j < self.hosts@.len() && self.key(j) == k;
                        if j < i {
                            before.lemma_index(j);
                            assert(str_lt(before.key(j), before.key(i as int)));
                        } else {
                            before.lemma_index(j + 1);
                            assert(str_lt(before.key(i as int), before.key(j + 1)));
                        }
                        lemma_str_lt_irreflexive(key@);
                    }
                    if before@.remove(key@).contains_key(k) {
                        let j = choose|j: int| 0 <= j < before.hosts@.len() && before.key(j) == k;
                        if j < i {
                            self.lemma_index(j);
                        } else {
                            self.lemma_index(j - 1);
                        }
                    }
                }
                assert forall|k: Seq<char>| #[trigger] self@.contains_key(k) implies self@[k] == before@.remove(key@)[k]
                    by {
                    let j = choose|j: int| 0 <= j < self.hosts@.len() && self.key(j) == k;
                    self.lemma_index(j);
                    if j < i {
                        before.lemma_index(j);
                    } else {
                        before.lemma_index(j + 1);
                    }
                }
                assert(self@ =~= before@.remove(key@));
            }
        } else {
            proof {
                if before@.contains_key(key@) {
                    let j = choose|j: int| 0 <= j < self.hosts@.len() && self.key(j) == key@;
                    lemma_str_lt_irreflexive(key@);
                }
                assert(self@ =~= before@.remove(key@));
            }
        }
    }

    /// Whether the registry holds no alias.
    pub fn is_empty(&self) -> (r: bool)
        requires
            self.wf(),
        ensures
            r <==> self@ == Map::<Seq<char>, ServerView>::empty(),
    {
        proof {
            if self.len() == 0 {
                assert(self@ =~= Map::<Seq<char>, ServerView>::empty());
            } else {
                self.lemma_index(0);
                assert(self@.contains_key(self.key(0)));
            }
        }
        self.hosts.len() == 0
    }

    /// Moves the record under `from` to `to`, replacing any record stored
    /// there; returns false and changes nothing where `from` is absent.
    pub fn rename(&mut self, from: &String, to: &String) -> (r: bool)
        requires
            old(self).wf(),
        ensures
            final(self).wf(),
            r == old(self)@.contains_key(from@),
            r ==> final(self)@ == old(self)@.remove(from@).insert(to@, old(self)@[from@]),
            !r ==> *final(self) == *old(self),
    {
        match self.get(from) {
            None => false,
            Some(server) => {
                let new_value = server.clone();
                self.remove(from);
                self.insert(to, new_value);
                true
            },
        }
    }

    /// The entries, in increasing order of their aliases.
    pub fn entries(&self) -> (r: Vec<(String, Server)>)
        requires
            self.wf(),
        ensures
            aliases_increasing(entries_of(r@)),
            map_of_entries(entries_of(r@)) == self@,
    {
        let mut r: Vec<(String, Server)> = Vec::new();
        let mut i: usize = 0;
        while i < self.hosts.len()
            invariant
                i <= self.len(),
                r@.len() == i,
                forall|j: int| 0 <= j < i ==> #[trigger] entries_of(r@)[j] == self.entries_view()[j],
            decreases self.hosts.len() - i,
        {
            let e = &self.hosts[i];
            let ghost prev = r@;
            r.push((e.0.clone(), e.1.clone()));
            proof {
                assert forall|j: int| 0 <= j < i + 1 implies #[trigger] entries_of(r@)[j] == self.entries_view()[j] by {
                    if j < i {
                        assert(r@[j] == prev[j]);
                        assert(entries_of(prev)[j] == self.entries_view()[j]);
                    }
                }
            }
            i = i + 1;
        }
        proof {
            assert(entries_of(r@) =~= self.entries_view());
            self.lemma_view_is_map_of_entries();
        }
        r
    }

    /// The registry that storing each entry in turn builds: where an alias
    /// repeats, its last entry wins.
    pub fn from_entries(v: &Vec<(String, Server)>) -> (r: Self)
        ensures
            r.wf(),
            r@ == map_of_entries(entries_of(v@)),
    {
        let mut r = ServerCollection::init();
        let mut i: usize = 0;
        while i < v.len()
            invariant
                i <= v@.len(),
                r.wf(),
                r@ == map_of_entries(entries_of(v@).take(i as int)),
            decreases v.len() - i,
        {
            let e = &v[i];
            r.insert(&e.0, e.1.clone());
            proof {
                let t = entries_of(v@).take(i + 1);
                assert(t.drop_last() =~= entries_of(v@).take(i as int));
            }
            i = i + 1;
        }
        proof {
            assert(entries_of(v@).take(i as int) =~= entries_of(v@));
        }
        r
    }
}

/// Storing a record under an alias and then looking the alias up finds
/// that record.
pub proof fn lemma_insert_then_get(before: ServerCollection, after: ServerCollection, alias: Seq<char>, record: ServerView)
    requires
        before.wf(),
        after@ == before@.insert(alias, record),
    ensures
        after@.contains_key(alias),
        after@[alias] == record,
{
}

/// Removing a stored alias leaves it absent; removing an absent alias
/// leaves the registry as it was.
pub proof fn lemma_remove_then_get(before: ServerCollection, after: ServerCollection, alias: Seq<char>)
    requires
        before.wf(),
        after@ == before@.remove(alias),
        !before@.contains_key(alias) ==> after == before,
    ensures
        !after@.contains_key(alias),
        !before@.contains_key(alias) ==> after == before && after@ == before@,
{
}

/// Renaming a stored alias to another one succeeds, leaves the old alias
/// absent and the record under the new one, whether or not the new alias
/// held a record before; renaming an absent alias fails and leaves the
/// registry as it was.
pub proof fn lemma_rename(before: ServerCollection, after: ServerCollection, from: Seq<char>, to: Seq<char>, renamed: bool)
    requires
        before.wf(),
        renamed == before@.contains_key(from),
        renamed ==> after@ == before@.remove(from).insert(to, before@[from]),
        !renamed ==> after == before,
        from != to,
    ensures
        before@.contains_key(from) ==> renamed && !after@.contains_key(from) && after@.contains_key(to)
            && after@[to] == before@[from],
        before@.contains_key(from) ==> forall|k: Seq<char>| k != from && k != to ==> (#[trigger] after@.contains_key(k)
            == before@.contains_key(k) && (after@.contains_key(k) ==> after@[k] == before@[k])),
        !before@.contains_key(from) ==> !renamed && after == before,
{
}

/// Renaming onto an alias that already holds a record replaces that record
/// with the renamed one, and still succeeds; the registry then holds one
/// alias fewer.
pub proof fn lemma_rename_onto_existing(
    before: ServerCollection,
    after: ServerCollection,
    from: Seq<char>,
    to: Seq<char>,
    renamed: bool,
)
    requires
        before.wf(),
        before@.contains_key(from),
        before@.contains_key(to),
        renamed == before@.contains_key(from),
        renamed ==> after@ == before@.remove(from).insert(to, before@[from]),
    ensures
        renamed,
        after@.contains_key(to),
        after@[to] == before@[from],
        from != to ==> after@.dom() == before@.dom().remove(from),
{
    if from != to {
        assert(after@.dom() =~= before@.dom().remove(from));
    }
}

/// Writing a registry out as its entries and building a registry from
/// them again gives back the same aliases and records.
pub proof fn lemma_entries_round_trip(
    before: ServerCollection,
    written: Seq<(Seq<char>, ServerView)>,
    reread: ServerCollection,
)
    requires
        before.wf(),
        aliases_increasing(written),
        map_of_entries(written) == before@,
        reread@ == map_of_entries(written),
    ensures
        reread@ == before@,
        written == before.entries_view(),
{
    before.lemma_view_is_map_of_entries();
    lemma_sorted_entries_unique(written, before.entries_view());
}

proof fn lemma_increasing_prefix(s: Seq<(Seq<char>, ServerView)>)
    requires
        aliases_increasing(s),
        s.len() > 0,
    ensures
        aliases_increasing(s.drop_last()),
        forall|k: Seq<char>| #[trigger] map_of_entries(s).contains_key(k) ==> k == s.last().0 || str_lt(k, s.last().0),
        map_of_entries(s.drop_last()) == map_of_entries(s).remove(s.last().0),
{
    let p = s.drop_last();
    let last = s.last().0;
    assert(aliases_increasing(p)) by {
        assert forall|i: int, j: int| 0 <= i < j < p.len() implies str_lt(#[trigger] p[i].0, #[trigger] p[j].0) by {
            assert(str_lt(s[i].0, s[j].0));
        }
    }
    lemma_map_of_unique_entries(s);
    lemma_map_of_unique_entries(p);
    assert forall|k: Seq<char>| #[trigger] map_of_entries(s).contains_key(k) implies k == last || str_lt(k, last) by {
        let i = choose|i: int| 0 <= i < s.len() && s[i].0 == k;
        if i < s.len() - 1 {
            assert(str_lt(s[i].0, s[s.len() - 1].0));
        }
    }
    assert(!map_of_entries(p).contains_key(last)) by {
        if map_of_entries(p).contains_key(last) {
            let i = choose|i: int| 0 <= i < p.len() && p[i].0 == last;
            assert(str_lt(s[i].0, s[s.len() - 1].0));
            lemma_str_lt_irreflexive(last);
        }
    }
    assert(map_of_entries(s) == map_of_entries(p).insert(last, s.last().1));
    assert(map_of_entries(p) =~= map_of_entries(s).remove(last));
}

/// Two sequences of entries with increasing aliases that build the same map
/// are the same sequence.
pub proof fn lemma_sorted_entries_unique(a: Seq<(Seq<char>, ServerView)>, b: Seq<(Seq<char>, ServerView)>)
    requires
        aliases_increasing(a),
        aliases_increasing(b),
        map_of_entries(a) == map_of_entries(b),
    ensures
        a == b,
    decreases a.len() + b.len(),
{
    let m = map_of_entries(a);
    if a.len() == 0 && b.len() > 0 {
        lemma_map_of_unique_entries(b);
        assert(m.contains_key(b[0].0));
    } else if b.len() == 0 && a.len() > 0 {
        lemma_map_of_unique_entries(a);
        assert(m.contains_key(a[0].0));
    } else if a.len() > 0 && b.len() > 0 {
        let la = a.last().0;
        let lb = b.last().0;
        lemma_increasing_prefix(a);
        lemma_increasing_prefix(b);
        assert(m == map_of_entries(a.drop_last()).insert(la, a.last().1));
        assert(m == map_of_entries(b.drop_last()).insert(lb, b.last().1));
        assert(m.contains_key(la));
        assert(m.contains_key(lb));
        if la != lb {
            assert(str_lt(la, lb));
            assert(str_lt(lb, la));
            lemma_str_lt_transitive(la, lb, la);
            lemma_str_lt_irreflexive(la);
        }
        assert(la == lb);
        assert(a.last().1 == m[la]);
        assert(b.last().1 == m[lb]);
        assert(a.last() == b.last());
        assert(map_of_entries(a.drop_last()) == map_of_entries(b.drop_last()));
        lemma_sorted_entries_unique(a.drop_last(), b.drop_last());
        assert(a =~= a.drop_last().push(a.last()));
        assert(b =~= b.drop_last().push(b.last()));
    } else {
        assert(a =~= b);
    }
}

} // verus!
