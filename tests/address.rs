use psm::address::{parse_port, UsageError, DEFAULT_PORT};
use psm::dispatch::App;
use psm::server::Server;

#[test]
fn parses_target_with_port() {
    let s = Server::from("bob@host.example:2200").unwrap();
    assert_eq!(s.username, "bob");
    assert_eq!(s.address, "host.example");
    assert_eq!(s.port, 2200);
}

#[test]
fn parses_target_without_port() {
    let s = Server::from("bob@host.example").unwrap();
    assert_eq!(s.username, "bob");
    assert_eq!(s.address, "host.example");
    assert_eq!(s.port, 22);
}

#[test]
fn rejects_target_without_at() {
    match Server::from("not-an-address") {
        Err(UsageError::MalformedAddress(input)) => assert_eq!(input, "not-an-address"),
        other => panic!("unexpected {:?}", other),
    }
}

#[test]
fn port_out_of_range_defaults() {
    let s = Server::from("bob@host:99999").unwrap();
    assert_eq!(s.address, "host");
    assert_eq!(s.port, 22);
}

#[test]
fn empty_port_defaults() {
    let s = Server::from("bob@host:").unwrap();
    assert_eq!(s.address, "host");
    assert_eq!(s.port, DEFAULT_PORT);
}

#[test]
fn repeated_colons_before_port() {
    for bad in ["bob@host::2200", "bob@host:::", "bob@host::"] {
        match Server::from(bad) {
            Err(UsageError::MalformedAddress(input)) => assert_eq!(input, bad),
            other => panic!("unexpected {:?}", other),
        }
    }
}

#[test]
fn largest_port_is_kept() {
    assert_eq!(Server::from("root@10.0.0.1:65535").unwrap().port, 65535);
    assert_eq!(Server::from("root@10.0.0.1:65536").unwrap().port, 22);
    assert_eq!(Server::from("root@10.0.0.1:0").unwrap().port, 0);
}

#[test]
fn address_with_dash_underscore_and_digits() {
    let s = Server::from("deploy_1@web-01_a.example.com:2022").unwrap();
    assert_eq!(s.username, "deploy_1");
    assert_eq!(s.address, "web-01_a.example.com");
    assert_eq!(s.port, 2022);
}

#[test]
fn rejects_malformed_targets() {
    for bad in ["", "@host", "bob@", "bob@host:22x", "bo b@host", "bob@ho/st", "bob@host:22:23", "bob@@host"] {
        assert!(matches!(Server::from(bad), Err(UsageError::MalformedAddress(_))), "{}", bad);
    }
}

#[test]
fn parse_port_values() {
    assert_eq!(parse_port("2200"), 2200);
    assert_eq!(parse_port("0022"), 22);
    assert_eq!(parse_port(""), 22);
    assert_eq!(parse_port("70000"), 22);
    assert_eq!(parse_port("8"), 8);
}

#[test]
fn parses_remote_path_reference() {
    let (alias, path) = App::parse_remote("prod:/var/www").unwrap();
    assert_eq!(alias, "prod");
    assert_eq!(path, "/var/www");
}

#[test]
fn rejects_remote_without_colon() {
    match App::parse_remote("prod") {
        Err(UsageError::InvalidRemoteSpec(input)) => assert_eq!(input, "prod"),
        other => panic!("unexpected {:?}", other),
    }
}

#[test]
fn remote_splits_at_first_colon() {
    let (alias, path) = App::parse_remote("prod:/a:b").unwrap();
    assert_eq!(alias, "prod");
    assert_eq!(path, "/a:b");
    let (alias, path) = App::parse_remote("a:b:c").unwrap();
    assert_eq!(alias, "a");
    assert_eq!(path, "b:c");
}

#[test]
fn rejects_empty_remote() {
    assert!(matches!(App::parse_remote(""), Err(UsageError::InvalidRemoteSpec(_))));
}

#[test]
fn remote_with_empty_parts() {
    let (alias, path) = App::parse_remote(":").unwrap();
    assert_eq!(alias, "");
    assert_eq!(path, "");
}
