use openssh::ssh_error::{interpret_ssh_error, is_disconnect, master_error_from_log, IoErrorKind};

#[test]
fn error_parse_error() {
    let err = "ssh: Warning: Permanently added \'login.csail.mit.edu,128.52.131.0\' (ECDSA) to the list of known hosts.\r\nopenssh-tester@login.csail.mit.edu: Permission denied (publickey,gssapi-keyex,gssapi-with-mic,password,keyboard-interactive).";
    let (kind, msg) = interpret_ssh_error(err);
    assert_eq!(kind, IoErrorKind::PermissionDenied);
    assert_eq!(
        msg,
        "openssh-tester@login.csail.mit.edu: Permission denied (publickey,gssapi-keyex,gssapi-with-mic,password,keyboard-interactive)."
    );
}

#[test]
fn kinds_of_connect_errors() {
    let cases = [
        (
            "ssh: Could not resolve hostname bad-host: Name or service not known\n",
            IoErrorKind::Other,
            "Could not resolve hostname bad-host: Name or service not known",
        ),
        (
            "ssh: connect to host 255.255.255.255 port 22: Network is unreachable",
            IoErrorKind::Other,
            "connect to host 255.255.255.255 port 22: Network is unreachable",
        ),
        (
            "ssh: connect to host 127.0.0.1 port 9: Connection refused\r\n",
            IoErrorKind::ConnectionRefused,
            "connect to host 127.0.0.1 port 9: Connection refused",
        ),
        (
            "ssh: connect to host 192.0.0.8 port 22: Connection timed out",
            IoErrorKind::TimedOut,
            "connect to host 192.0.0.8 port 22: Connection timed out",
        ),
        (
            "ssh: connect to host 192.0.0.8 port 22: Operation timed out",
            IoErrorKind::TimedOut,
            "connect to host 192.0.0.8 port 22: Operation timed out",
        ),
        (
            "ssh: connect to host 10.0.0.1 port 22: Permission denied",
            IoErrorKind::Other,
            "connect to host 10.0.0.1 port 22: Permission denied",
        ),
        (
            "kex_exchange_identification: Connection closed by remote host",
            IoErrorKind::ConnectionAborted,
            "kex_exchange_identification: Connection closed by remote host",
        ),
        ("something odd", IoErrorKind::ConnectionAborted, "something odd"),
        ("   ", IoErrorKind::ConnectionAborted, ""),
        (
            "other step: Connection timed out",
            IoErrorKind::ConnectionAborted,
            "other step: Connection timed out",
        ),
        (
            "Could not resolve hostname x",
            IoErrorKind::Other,
            "Could not resolve hostname x",
        ),
    ];
    for (stderr, kind, msg) in cases.iter() {
        let (k, m) = interpret_ssh_error(stderr);
        assert_eq!(k, *kind, "{}", stderr);
        assert_eq!(m, *msg);
    }
}

#[test]
fn added_host_notice_without_line_break_leaves_nothing() {
    let (k, m) = interpret_ssh_error("Warning: Permanently added 'h' (ED25519) to the list of known hosts.");
    assert_eq!(k, IoErrorKind::ConnectionAborted);
    assert_eq!(m, "");
}

#[test]
fn disconnect_kinds() {
    assert!(is_disconnect(IoErrorKind::NotFound));
    assert!(is_disconnect(IoErrorKind::ConnectionReset));
    assert!(is_disconnect(IoErrorKind::ConnectionRefused));
    assert!(is_disconnect(IoErrorKind::ConnectionAborted));
    assert!(is_disconnect(IoErrorKind::NotConnected));
    assert!(!is_disconnect(IoErrorKind::Other));
    assert!(!is_disconnect(IoErrorKind::TimedOut));
    assert!(!is_disconnect(IoErrorKind::PermissionDenied));
}

#[test]
fn master_log_errors() {
    assert_eq!(master_error_from_log(""), None);
    assert_eq!(master_error_from_log(" \n\t"), None);
    assert_eq!(
        master_error_from_log("ssh: Connection to example.com closed by remote host.\n"),
        Some((
            IoErrorKind::ConnectionAborted,
            "Connection to example.com closed by remote host.".to_string()
        ))
    );
    assert_eq!(
        master_error_from_log(
            "Warning: Permanently added 'h' (ED25519) to the list of known hosts.\n  client_loop: send disconnect: Broken pipe\n"
        ),
        Some((
            IoErrorKind::Other,
            "client_loop: send disconnect: Broken pipe".to_string()
        ))
    );
    assert_eq!(
        master_error_from_log("Warning: Permanently added 'h' to the list of known hosts."),
        None
    );
}
