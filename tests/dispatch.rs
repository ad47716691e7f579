use psm::address::UsageError;
use psm::config::Config;
use psm::dispatch::{strip_line_ends_of, App, InstallOutcome, ProcessResult};
use psm::server::Server;

fn config() -> Config {
    Config {
        pub_key_path: "/home/u/.ssh/id_rsa.pub".to_string(),
        server_file_path: "/home/u/.psm/server.json".to_string(),
        ssh_client_app_path: "/usr/bin/ssh".to_string(),
        scp_app_path: "/usr/bin/scp".to_string(),
    }
}

fn bob() -> Server {
    Server { username: "bob".to_string(), address: "host.example".to_string(), port: 2200 }
}

fn strings(v: &[&str]) -> Vec<String> {
    v.iter().map(|s| s.to_string()).collect()
}

#[test]
fn connect_builds_login_and_port_flag() {
    let app = App::init(config());
    let inv = app.connect(&bob());
    assert_eq!(inv.program, "/usr/bin/ssh");
    assert_eq!(inv.args, strings(&["bob@host.example", "-p2200"]));
}

#[test]
fn copy_id_builds_install_command() {
    let app = App::init(config());
    let inv = app.copy_id(&bob(), "ssh-rsa AAAA user@box\r\n");
    assert_eq!(inv.program, "/usr/bin/ssh");
    assert_eq!(
        inv.args,
        strings(&[
            "bob@host.example",
            "-p2200",
            "grep -cq 'ssh-rsa AAAA user@box' ~/.ssh/authorized_keys || echo ssh-rsa AAAA user@box >> ~/.ssh/authorized_keys ; exit 0;",
        ])
    );
}

#[test]
fn strip_line_ends_removes_newlines_everywhere() {
    assert_eq!(strip_line_ends_of("a\nb\r\nc\n"), "abc");
    assert_eq!(strip_line_ends_of(""), "");
}

#[test]
fn upload_places_flag_sources_then_destination() {
    let app = App::init(config());
    let inv = app.upload(&bob(), &strings(&["a.txt", "b.txt"]), "/var/www", false).unwrap();
    assert_eq!(inv.program, "/usr/bin/scp");
    assert_eq!(inv.args, strings(&["-P2200", "a.txt", "b.txt", "bob@host.example:/var/www"]));
}

#[test]
fn upload_recursive_flag() {
    let app = App::init(config());
    let inv = app.upload(&bob(), &strings(&["dir"]), "/tmp", true).unwrap();
    assert_eq!(inv.args, strings(&["-rP2200", "dir", "bob@host.example:/tmp"]));
}

#[test]
fn upload_with_no_local_path_is_rejected() {
    let app = App::init(config());
    assert!(matches!(app.upload(&bob(), &Vec::new(), "/tmp", false), Err(UsageError::NoLocalPath)));
}

#[test]
fn download_swaps_source_and_destination() {
    let app = App::init(config());
    let inv = app.download(&bob(), &strings(&["./out"]), "/var/log/syslog", true).unwrap();
    assert_eq!(inv.program, "/usr/bin/scp");
    assert_eq!(inv.args, strings(&["-rP2200", "bob@host.example:/var/log/syslog", "./out"]));
}

#[test]
fn download_with_two_local_paths_is_rejected() {
    let app = App::init(config());
    match app.download(&bob(), &strings(&["a", "b"]), "/x", false) {
        Err(UsageError::LocalPathCount(n)) => assert_eq!(n, 2),
        other => panic!("unexpected {:?}", other),
    }
    assert!(matches!(app.download(&bob(), &Vec::new(), "/x", false), Err(UsageError::LocalPathCount(0))));
}

#[test]
fn install_key_exit_zero_reports_success() {
    let outcome = App::install_outcome(&ProcessResult::Exited(0));
    assert_eq!(outcome, InstallOutcome::Installed);
    assert_eq!(outcome.message("host.example"), "Key has been install to host.example");
}

#[test]
fn install_key_exit_one_reports_failure() {
    let outcome = App::install_outcome(&ProcessResult::Exited(1));
    assert_eq!(outcome, InstallOutcome::Failed);
    assert_eq!(outcome.message("host.example"), "Cannot install key to host.example");
    assert_eq!(App::install_outcome(&ProcessResult::NoCode), InstallOutcome::Failed);
}

#[test]
fn install_key_launch_failure_is_distinct() {
    let outcome = App::install_outcome(&ProcessResult::LaunchFailed);
    assert_eq!(outcome, InstallOutcome::LaunchError);
    assert_eq!(outcome.message("host.example"), "Fatal error while install key");
}

#[test]
fn settings_returns_configuration() {
    let app = App::init(config());
    assert_eq!(app.settings().scp_app_path, "/usr/bin/scp");
}

#[test]
fn config_update_replaces_given_paths_only() {
    let c = config().updated(&None, &Some("/srv/s.json".to_string()), &None, &Some("/opt/scp".to_string()));
    assert_eq!(c.pub_key_path, "/home/u/.ssh/id_rsa.pub");
    assert_eq!(c.server_file_path, "/srv/s.json");
    assert_eq!(c.ssh_client_app_path, "/usr/bin/ssh");
    assert_eq!(c.scp_app_path, "/opt/scp");
}

#[test]
fn decimal_rendering() {
    assert_eq!(psm::text::u16_to_decimal(0), "0");
    assert_eq!(psm::text::u16_to_decimal(22), "22");
    assert_eq!(psm::text::u16_to_decimal(65535), "65535");
}

#[test]
fn string_order() {
    let s = |x: &str| x.to_string();
    assert!(psm::text::str_less(&s("a"), &s("b")));
    assert!(psm::text::str_less(&s("ab"), &s("abc")));
    assert!(!psm::text::str_less(&s("abc"), &s("abc")));
    assert!(psm::text::str_less(&s("Z"), &s("a")));
    assert!(!psm::text::str_less(&s("b"), &s("a")));
}
