use std::borrow::Cow;
use std::time::Duration;

use openssh::builder::{
    control_dir_prefix, default_control_dir, is_stale_control_dir, join_jump_hosts, KnownHosts,
    SessionBuilder,
};

#[test]
fn resolve() {
    let b = SessionBuilder::default();
    let (b, d) = b.resolve("ssh://test-user@127.0.0.1:2222");
    assert_eq!(b.get_port(), Some("2222"));
    assert_eq!(b.get_user(), Some("test-user"));
    assert_eq!(d, "127.0.0.1");

    let b = SessionBuilder::default();
    let (b, d) = b.resolve("ssh://test-user@opensshtest:2222");
    assert_eq!(b.get_port(), Some("2222"));
    assert_eq!(b.get_user(), Some("test-user"));
    assert_eq!(d, "opensshtest");

    let b = SessionBuilder::default();
    let (b, d) = b.resolve("ssh://opensshtest:2222");
    assert_eq!(b.get_port(), Some("2222"));
    assert_eq!(b.get_user(), None);
    assert_eq!(d, "opensshtest");

    let b = SessionBuilder::default();
    let (b, d) = b.resolve("ssh://test-user@opensshtest");
    assert_eq!(b.get_port(), None);
    assert_eq!(b.get_user(), Some("test-user"));
    assert_eq!(d, "opensshtest");

    let b = SessionBuilder::default();
    let (b, d) = b.resolve("ssh://opensshtest");
    assert_eq!(b.get_port(), None);
    assert_eq!(b.get_user(), None);
    assert_eq!(d, "opensshtest");

    let b = SessionBuilder::default();
    let (b, d) = b.resolve("opensshtest");
    assert_eq!(b.get_port(), None);
    assert_eq!(b.get_user(), None);
    assert_eq!(d, "opensshtest");
}

#[test]
fn resolve_borrows_when_nothing_overrides() {
    let b = SessionBuilder::default();
    let (r, d) = b.resolve("ssh://opensshtest");
    assert!(matches!(r, Cow::Borrowed(_)));
    assert_eq!(d, "opensshtest");
    let (r, _) = b.resolve("ssh://u@h");
    assert!(matches!(r, Cow::Owned(_)));
}

#[test]
fn resolve_keeps_a_port_that_is_not_a_number() {
    let b = SessionBuilder::default();
    let (b, d) = b.resolve("ssh://host:http");
    assert_eq!(b.get_port(), None);
    assert_eq!(d, "host:http");

    let b = SessionBuilder::default();
    let (b, d) = b.resolve("ssh://host:70000");
    assert_eq!(b.get_port(), None);
    assert_eq!(d, "host:70000");

    let b = SessionBuilder::default();
    let (b, d) = b.resolve("ssh://host:+22");
    assert_eq!(b.get_port(), Some("22"));
    assert_eq!(d, "host");
}

#[test]
fn resolve_takes_first_at_and_last_colon() {
    let b = SessionBuilder::default();
    let (b, d) = b.resolve("ssh://a@b@[::1]:2200");
    assert_eq!(b.get_user(), Some("a"));
    assert_eq!(b.get_port(), Some("2200"));
    assert_eq!(d, "b@[::1]");
}

#[test]
fn resolve_overrides_options_set_before() {
    let mut b = SessionBuilder::default();
    b.user("someone".to_string()).port(22).compression(true);
    let (r, d) = b.resolve("ssh://other@host:23");
    assert_eq!(r.get_user(), Some("other"));
    assert_eq!(r.get_port(), Some("23"));
    assert_eq!(d, "host");
    assert_eq!(b.get_user(), Some("someone"));
    assert_eq!(b.get_port(), Some("22"));
}

#[test]
fn default_options() {
    let b = SessionBuilder::default();
    assert_eq!(b.get_user(), None);
    assert_eq!(b.get_port(), None);
    assert_eq!(b.get_control_directory(), None);
    assert!(!b.get_clean_history_control_directory());
    assert_eq!(b.get_ssh_auth_sock(), None);
    assert_eq!(b.get_known_hosts_check(), KnownHosts::Add);
}

#[test]
fn known_hosts_options() {
    assert_eq!(KnownHosts::Strict.as_option(), "StrictHostKeyChecking=yes");
    assert_eq!(KnownHosts::Add.as_option(), "StrictHostKeyChecking=accept-new");
    assert_eq!(KnownHosts::Accept.as_option(), "StrictHostKeyChecking=no");
}

fn strs(v: &[String]) -> Vec<&str> {
    v.iter().map(|s| s.as_str()).collect()
}

#[test]
fn master_args_default() {
    let b = SessionBuilder::default();
    let args = b.master_args("/tmp/x/log", "/tmp/x/master", "host");
    assert_eq!(
        strs(&args),
        vec![
            "-E",
            "/tmp/x/log",
            "-S",
            "/tmp/x/master",
            "-M",
            "-f",
            "-N",
            "-o",
            "ControlPersist=yes",
            "-o",
            "BatchMode=yes",
            "-o",
            "StrictHostKeyChecking=accept-new",
            "host",
        ]
    );
}

#[test]
fn master_args_all_options() {
    let mut b = SessionBuilder::default();
    b.user("me".to_string())
        .port(2222)
        .keyfile("/k")
        .known_hosts_check(KnownHosts::Strict)
        .connect_timeout(Duration::from_millis(5900))
        .server_alive_interval(Duration::from_secs(30))
        .config_file("/cfg")
        .compression(false)
        .jump_hosts(&["j1", "u@j2:22"])
        .user_known_hosts_file("/kh")
        .ssh_auth_sock("/agent")
        .control_directory("/ctl")
        .clean_history_control_directory(true);
    assert_eq!(b.get_control_directory(), Some("/ctl"));
    assert!(b.get_clean_history_control_directory());
    assert_eq!(b.get_ssh_auth_sock(), Some("/agent"));
    let args = b.master_args("L", "M", "dest");
    assert_eq!(
        strs(&args),
        vec![
            "-E",
            "L",
            "-S",
            "M",
            "-M",
            "-f",
            "-N",
            "-o",
            "ControlPersist=yes",
            "-o",
            "BatchMode=yes",
            "-o",
            "StrictHostKeyChecking=yes",
            "-o",
            "ConnectTimeout=5",
            "-o",
            "ServerAliveInterval=30",
            "-p",
            "2222",
            "-l",
            "me",
            "-o",
            "IdentitiesOnly=yes",
            "-i",
            "/k",
            "-F",
            "/cfg",
            "-o",
            "Compression=no",
            "-J",
            "j1,u@j2:22",
            "-o",
            "UserKnownHostsFile=/kh",
            "dest",
        ]
    );
}

#[test]
fn master_args_compression_yes_and_one_jump_host() {
    let mut b = SessionBuilder::default();
    b.compression(true).jump_hosts(&["only"]);
    let args = b.master_args("L", "M", "d");
    let tail: Vec<&str> = strs(&args)[13..].to_vec();
    assert_eq!(tail, vec!["-o", "Compression=yes", "-J", "only", "d"]);
}

#[test]
fn jump_hosts_replace_earlier_ones() {
    let mut b = SessionBuilder::default();
    b.jump_hosts(&["a", "b"]).jump_hosts(&[]);
    let args = b.master_args("L", "M", "d");
    assert_eq!(args.len(), 14);
}

#[test]
fn duplicate_keeps_options() {
    let mut b = SessionBuilder::default();
    b.user("u".to_string()).port(1).keyfile("k").jump_hosts(&["j"]);
    let c = b.duplicate();
    assert_eq!(
        b.master_args("L", "M", "d"),
        c.master_args("L", "M", "d")
    );
}

#[test]
fn joins_jump_hosts() {
    assert_eq!(join_jump_hosts(&vec![]), "");
    assert_eq!(join_jump_hosts(&vec!["a".to_string()]), "a");
    assert_eq!(
        join_jump_hosts(&vec!["a".to_string(), "b".to_string(), "c".to_string()]),
        "a,b,c"
    );
}

#[test]
fn stale_control_dirs() {
    let p = control_dir_prefix();
    assert_eq!(p, ".ssh-connection");
    assert!(is_stale_control_dir(true, ".ssh-connectionAbc", p, false));
    assert!(!is_stale_control_dir(true, ".ssh-connectionAbc", p, true));
    assert!(!is_stale_control_dir(false, ".ssh-connectionAbc", p, false));
    assert!(!is_stale_control_dir(true, "other", p, false));
    assert!(!is_stale_control_dir(true, ".ssh-conn", p, false));
}

#[test]
fn default_control_directory() {
    assert_eq!(default_control_dir(), "./");
    let mut b = SessionBuilder::default();
    assert_eq!(b.socket_directory(), "./");
    b.control_directory("/run/ctl");
    assert_eq!(b.socket_directory(), "/run/ctl");
}
