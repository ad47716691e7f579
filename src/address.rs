//! The compact addressing syntax: `user@host[:port]` targets and
//! `alias:path` remote path references.
use vstd::prelude::*;

use crate::server::{Server, ServerView};
use crate::text::{decimal_value, digit_value, is_digit};

verus! {

/// The port a target gets when it names none, or none that fits 16 bits.
pub const DEFAULT_PORT: u16 = 22;

/// The errors of parsing and checking a command's arguments.
#[derive(Debug)]
pub enum UsageError {
    /// The text is not of the form `user@host[:port]`.
    MalformedAddress(String),
    /// The text is not of the form `alias:path`: it holds no colon.
    InvalidRemoteSpec(String),
    /// An upload names no local path.
    NoLocalPath,
    /// A download names a number of local paths other than one.
    LocalPathCount(usize),
}

/// The kinds of characters the grammar scans over.
#[derive(Debug, Clone, Copy, PartialEq, Eq, Structural)]
pub enum CharClass {
    /// ASCII letters, digits and `_`.
    User,
    /// ASCII letters, digits, `-`, `_` and `.`.
    Address,
    /// ASCII decimal digits.
    Digit,
    /// Anything but a colon.
    NotColon,
}

pub open spec fn is_alnum(c: char) -> bool {
    ('a' <= c && c <= 'z') || ('A' <= c && c <= 'Z') || is_digit(c)
}

pub open spec fn in_class(c: char, class: CharClass) -> bool {
    match class {
        CharClass::User => is_alnum(c) || c == '_',
        CharClass::Address => is_alnum(c) || c == '_' || c == '-' || c == '.',
        CharClass::Digit => is_digit(c),
        CharClass::NotColon => c != ':',
    }
}

/// The end of the longest run of characters of `class` that starts at `i`.
pub open spec fn span_end(s: Seq<char>, i: int, class: CharClass) -> int
    decreases s.len() - i,
{
    if 0 <= i < s.len() && in_class(s[i], class) {
        span_end(s, i + 1, class)
    } else {
        i
    }
}

/// Where the parts of a target end: the user name, the address, the one
/// optional colon and the port digits.
pub open spec fn target_bounds(s: Seq<char>) -> (int, int, int, int) {
    let u = span_end(s, 0, CharClass::User);
    let a = span_end(s, u + 1, CharClass::Address);
    let c = if 0 <= a < s.len() && s[a] == ':' {
        a + 1
    } else {
        a
    };
    (u, a, c, span_end(s, c, CharClass::Digit))
}

/// `s` is a non-empty user name, `@`, a non-empty address, then at most one
/// colon and any digits, and nothing more.
pub open spec fn is_target(s: Seq<char>) -> bool {
    let (u, a, c, d) = target_bounds(s);
    &&& 0 < u < s.len()
    &&& s[u] == '@'
    &&& u + 1 < a
    &&& d == s.len()
}

/// The port that the digits `s` give: their value where there is at least
/// one and it fits 16 bits, else the default port.
pub open spec fn port_of(s: Seq<char>) -> u16 {
    if 0 < s.len() && decimal_value(s) <= u16::MAX {
        decimal_value(s) as u16
    } else {
        DEFAULT_PORT
    }
}

/// The record that a target names.
pub open spec fn target_view(s: Seq<char>) -> ServerView {
    let (u, a, c, d) = target_bounds(s);
    ServerView { username: s.subrange(0, u), address: s.subrange(u + 1, a), port: port_of(s.subrange(c, d)) }
}

/// `s` holds a colon.
pub open spec fn is_remote_spec(s: Seq<char>) -> bool {
    span_end(s, 0, CharClass::NotColon) < s.len()
}

/// The alias and the path of a remote path reference: what stands before
/// its first colon, and what follows it.
pub open spec fn remote_parts(s: Seq<char>) -> (Seq<char>, Seq<char>) {
    let i = span_end(s, 0, CharClass::NotColon);
    (s.subrange(0, i), s.subrange(i + 1, s.len() as int))
}

proof fn lemma_span_end_bounds(s: Seq<char>, i: int, class: CharClass)
    requires
        0 <= i <= s.len(),
    ensures
        i <= span_end(s, i, class) <= s.len(),
        forall|j: int| i <= j < span_end(s, i, class) ==> in_class(#[trigger] s[j], class),
    decreases s.len() - i,
{
    if i < s.len() && in_class(s[i], class) {
        lemma_span_end_bounds(s, i + 1, class);
    }
}

fn char_in_class(c: char, class: &CharClass) -> (r: bool)
    ensures
        r == in_class(c, *class),
{
    let alnum = ('a' <= c && c <= 'z') || ('A' <= c && c <= 'Z') || ('0' <= c && c <= '9');
    match class {
        CharClass::User => alnum || c == '_',
        CharClass::Address => alnum || c == '_' || c == '-' || c == '.',
        CharClass::Digit => '0' <= c && c <= '9',
        CharClass::NotColon => c != ':',
    }
}

/// The end of the run of characters of `class` in `s` that starts at `i`.
pub(crate) fn scan(s: &str, len: usize, i: usize, class: CharClass) -> (r: usize)
    requires
        len == s@.len(),
        i <= len,
    ensures
        r == span_end(s@, i as int, class),
        i <= r <= len,
{
    proof {
        lemma_span_end_bounds(s@, i as int, class);
    }
    let mut j: usize = i;
    while j < len && char_in_class(s.get_char(j), &class)
        invariant
            len == s@.len(),
            i <= j <= len,
            span_end(s@, j as int, class) == span_end(s@, i as int, class),
        decreases len - j,
    {
        j = j + 1;
    }
    j
}

/// The port that a string of digits gives: its value where it is non-empty
/// and fits 16 bits, else the default port.
pub fn parse_port(s: &str) -> (r: u16)
    requires
        forall|i: int| 0 <= i < s@.len() ==> is_digit(#[trigger] s@[i]),
    ensures
        r == port_of(s@),
{
    let len = s.unicode_len();
    let mut acc: u32 = 0;
    let mut over = false;
    let mut i: usize = 0;
    assert(s@.take(0) =~= Seq::<char>::empty());
    while i < len
        invariant
            len == s@.len(),
            i <= len,
            forall|k: int| 0 <= k < s@.len() ==> is_digit(#[trigger] s@[k]),
            !over ==> acc == decimal_value(s@.take(i as int)) && acc <= u16::MAX,
            over ==> decimal_value(s@.take(i as int)) > u16::MAX,
        decreases len - i,
    {
        let c = s.get_char(i);
        let d = (c as u32) - ('0' as u32);
        proof {
            assert(s@.take(i + 1).drop_last() =~= s@.take(i as int));
            assert(s@.take(i + 1).last() == c);
            assert(d == digit_value(c));
        }
        if !over {
            let next = acc * 10 + d;
            if next > 65535 {
                over = true;
            } else {
                acc = next;
            }
        }
        i = i + 1;
    }
    assert(s@.take(len as int) =~= s@);
    if i > 0 && !over {
        acc as u16
    } else {
        DEFAULT_PORT
    }
}

impl Server {
    /// Parses a target of the form `user@host[:port]`; the port is the
    /// default one where none, or none that fits 16 bits, is given.
    pub fn from(host: &str) -> (r: Result<Server, UsageError>)
        ensures
            r is Ok <==> is_target(host@),
            r is Ok ==> r->Ok_0@ == target_view(host@),
            !is_target(host@) <==> (r matches Err(UsageError::MalformedAddress(input)) && input@ == host@),
    {
        let len = host.unicode_len();
        let u = scan(host, len, 0, CharClass::User);
        if u == 0 || u >= len || host.get_char(u) != '@' {
            return Err(UsageError::MalformedAddress(String::from_str(host)));
        }
        let a = scan(host, len, u + 1, CharClass::Address);
        if a <= u + 1 {
            return Err(UsageError::MalformedAddress(String::from_str(host)));
        }
        let c = if a < len && host.get_char(a) == ':' {
            a + 1
        } else {
            a
        };
        let d = scan(host, len, c, CharClass::Digit);
        if d != len {
            return Err(UsageError::MalformedAddress(String::from_str(host)));
        }
        proof {
            lemma_span_end_bounds(host@, c as int, CharClass::Digit);
        }
        let digits = host.substring_char(c, d);
        let port = parse_port(digits);
        let username = String::from_str(host.substring_char(0, u));
        let address = String::from_str(host.substring_char(u + 1, a));
        Ok(Server { username, address, port })
    }
}

} // verus!
