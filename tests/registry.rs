use psm::server::{Server, ServerCollection};

fn server(username: &str, address: &str, port: u16) -> Server {
    Server { username: username.to_string(), address: address.to_string(), port }
}

fn alias(s: &str) -> String {
    s.to_string()
}

fn same(a: &Server, b: &Server) -> bool {
    a.username == b.username && a.address == b.address && a.port == b.port
}

#[test]
fn insert_then_get_finds_record() {
    let mut c = ServerCollection::init();
    c.insert(&alias("prod"), server("bob", "host.example", 2200));
    let found = c.get(&alias("prod")).expect("stored alias");
    assert!(same(found, &server("bob", "host.example", 2200)));
    assert!(c.get(&alias("dev")).is_none());
}

#[test]
fn insert_overwrites_existing_alias() {
    let mut c = ServerCollection::init();
    c.insert(&alias("prod"), server("bob", "a.example", 22));
    c.insert(&alias("prod"), server("eve", "b.example", 2022));
    let found = c.get(&alias("prod")).unwrap();
    assert!(same(found, &server("eve", "b.example", 2022)));
    assert_eq!(c.entries().len(), 1);
}

#[test]
fn remove_then_get_is_absent() {
    let mut c = ServerCollection::init();
    c.insert(&alias("prod"), server("bob", "host", 22));
    c.insert(&alias("dev"), server("amy", "dev.host", 22));
    c.remove(&alias("prod"));
    assert!(c.get(&alias("prod")).is_none());
    assert!(c.get(&alias("dev")).is_some());
}

#[test]
fn remove_absent_leaves_registry_unchanged() {
    let mut c = ServerCollection::init();
    c.insert(&alias("prod"), server("bob", "host", 22));
    c.remove(&alias("nothing"));
    let e = c.entries();
    assert_eq!(e.len(), 1);
    assert_eq!(e[0].0, "prod");
    assert!(same(&e[0].1, &server("bob", "host", 22)));
}

#[test]
fn rename_present_moves_record() {
    let mut c = ServerCollection::init();
    c.insert(&alias("old"), server("bob", "host", 2200));
    assert!(c.rename(&alias("old"), &alias("new")));
    assert!(c.get(&alias("old")).is_none());
    assert!(same(c.get(&alias("new")).unwrap(), &server("bob", "host", 2200)));
}

#[test]
fn rename_absent_returns_false_and_changes_nothing() {
    let mut c = ServerCollection::init();
    c.insert(&alias("a"), server("bob", "host", 22));
    assert!(!c.rename(&alias("missing"), &alias("b")));
    let e = c.entries();
    assert_eq!(e.len(), 1);
    assert_eq!(e[0].0, "a");
    assert!(c.get(&alias("b")).is_none());
}

#[test]
fn rename_onto_existing_alias_overwrites_it() {
    let mut c = ServerCollection::init();
    c.insert(&alias("from"), server("bob", "one", 22));
    c.insert(&alias("to"), server("amy", "two", 23));
    assert!(c.rename(&alias("from"), &alias("to")));
    assert!(c.get(&alias("from")).is_none());
    assert!(same(c.get(&alias("to")).unwrap(), &server("bob", "one", 22)));
    assert_eq!(c.entries().len(), 1);
}

#[test]
fn rename_to_itself_keeps_record() {
    let mut c = ServerCollection::init();
    c.insert(&alias("a"), server("bob", "one", 22));
    assert!(c.rename(&alias("a"), &alias("a")));
    assert!(same(c.get(&alias("a")).unwrap(), &server("bob", "one", 22)));
}

#[test]
fn is_empty_tracks_contents() {
    let mut c = ServerCollection::init();
    assert!(c.is_empty());
    c.insert(&alias("a"), server("bob", "one", 22));
    assert!(!c.is_empty());
    c.remove(&alias("a"));
    assert!(c.is_empty());
}

#[test]
fn entries_are_sorted_by_alias() {
    let mut c = ServerCollection::init();
    for name in ["web", "db", "Zeta", "alpha", "web2", "a"] {
        c.insert(&alias(name), server("u", name, 22));
    }
    let names: Vec<String> = c.entries().into_iter().map(|e| e.0).collect();
    assert_eq!(names, vec!["Zeta", "a", "alpha", "db", "web", "web2"]);
}

#[test]
fn entries_round_trip_rebuilds_registry() {
    let mut c = ServerCollection::init();
    c.insert(&alias("prod"), server("bob", "host.example", 2200));
    c.insert(&alias("dev"), server("amy", "10.0.0.1", 22));
    c.insert(&alias("backup"), server("root", "b.example", 65535));
    let written = c.entries();
    let reread = ServerCollection::from_entries(&written);
    let again = reread.entries();
    assert_eq!(again.len(), 3);
    for (a, b) in written.iter().zip(again.iter()) {
        assert_eq!(a.0, b.0);
        assert!(same(&a.1, &b.1));
    }
}

#[test]
fn from_entries_last_duplicate_wins() {
    let v = vec![
        (alias("x"), server("first", "h", 1)),
        (alias("y"), server("other", "h", 2)),
        (alias("x"), server("second", "h", 3)),
    ];
    let c = ServerCollection::from_entries(&v);
    assert_eq!(c.entries().len(), 2);
    assert!(same(c.get(&alias("x")).unwrap(), &server("second", "h", 3)));
}

#[test]
fn empty_registry_round_trips() {
    let c = ServerCollection::init();
    let reread = ServerCollection::from_entries(&c.entries());
    assert!(reread.is_empty());
}

#[test]
fn cloned_server_keeps_fields() {
    let s = server("bob", "host", 2200);
    assert!(same(&s.clone(), &s));
}
