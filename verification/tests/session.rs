use openssh::command::{CommandImp, OwnedCommand, StdioDefault, StdioPlan};
use openssh::session::{
    check_outcome, classify_exit_code, close_outcome, exited_session_status, over_ssh_command,
    port_forward_error, port_forward_needs_master_error, trimmed, ErrorReport, ForwardType,
    NativeSession, OverSshError, ProcessSession, SessionImp,
};
use openssh::ssh_error::IoErrorKind;

fn strs(v: &[String]) -> Vec<&str> {
    v.iter().map(|s| s.as_str()).collect()
}

fn process() -> SessionImp {
    SessionImp::ProcessImpl(ProcessSession::new(
        "/tmp/d/master".to_string(),
        "/tmp/d/log".to_string(),
        "host",
    ))
}

fn native() -> SessionImp {
    SessionImp::NativeMuxImpl(NativeSession::new("/tmp/d/master".to_string()))
}

fn process_args(c: &CommandImp) -> Vec<&str> {
    match c {
        CommandImp::ProcessImpl(v) => strs(v),
        CommandImp::NativeMuxImpl { .. } => panic!("not a process command"),
    }
}

fn native_cmd(c: &CommandImp) -> (&str, &str, bool) {
    match c {
        CommandImp::NativeMuxImpl { ctl, cmd, subsystem } => (ctl.as_str(), cmd.as_str(), *subsystem),
        CommandImp::ProcessImpl(_) => panic!("not a native command"),
    }
}

#[test]
fn process_session_accessors() {
    let s = ProcessSession::new("c".to_string(), "l".to_string(), "a");
    assert_eq!(s.ctl(), "c");
    assert_eq!(s.master_log(), Some("l"));
    let r = ProcessSession::resume("c2".to_string(), None);
    assert_eq!(r.ctl(), "c2");
    assert_eq!(r.master_log(), None);
    assert_eq!(strs(&r.check_args()), vec!["-S", "c2", "-o", "BatchMode=yes", "-O", "check", "none"]);
}

#[test]
fn control_args() {
    let s = ProcessSession::new("ctl".to_string(), "log".to_string(), "addr");
    assert_eq!(strs(&s.check_args()), vec!["-S", "ctl", "-o", "BatchMode=yes", "-O", "check", "addr"]);
    assert_eq!(strs(&s.exit_args()), vec!["-S", "ctl", "-o", "BatchMode=yes", "-O", "exit", "addr"]);
    assert_eq!(strs(&s.std_args(&[])), vec!["-S", "ctl", "-o", "BatchMode=yes", "addr"]);
    assert_eq!(
        strs(&s.port_forward_args(ForwardType::Local, "127.0.0.1:8080", "/run/sock")),
        vec!["-S", "ctl", "-o", "BatchMode=yes", "-fNT", "-L", "127.0.0.1:8080:/run/sock", "addr"]
    );
    assert_eq!(
        strs(&s.port_forward_args(ForwardType::Remote, "a", "b")),
        vec!["-S", "ctl", "-o", "BatchMode=yes", "-fNT", "-R", "a:b", "addr"]
    );
    assert_eq!(ForwardType::Local.flag(), "-L");
    assert_eq!(ForwardType::Remote.flag(), "-R");
}

#[test]
fn remote_args_of_commands() {
    let s = ProcessSession::new("ctl".to_string(), "log".to_string(), "addr");
    assert_eq!(
        strs(&s.remote_args("ls", false)),
        vec!["-S", "ctl", "-o", "BatchMode=yes", "-T", "-p", "9", "addr", "--", "ls"]
    );
    assert_eq!(
        strs(&s.remote_args("sftp", true)),
        vec!["-S", "ctl", "-o", "BatchMode=yes", "-T", "-p", "9", "-s", "addr", "--", "sftp"]
    );
}

#[test]
fn commands_over_a_process_session() {
    let s = process();
    assert_eq!(s.control_socket(), "/tmp/d/master");
    let c = s.command("echo hi");
    assert_eq!(
        process_args(&c),
        vec!["-S", "/tmp/d/master", "-o", "BatchMode=yes", "-T", "-p", "9", "host", "--", "'echo hi'"]
    );
    let c = s.raw_command("echo hi");
    assert_eq!(*process_args(&c).last().unwrap(), "echo hi");
    let c = s.subsystem("sftp");
    assert_eq!(process_args(&c)[7], "-s");
    let c = s.shell("echo $USER");
    let a = process_args(&c);
    assert_eq!(&a[a.len() - 3..], &["sh", "-c", "'echo $USER'"]);
}

#[test]
fn commands_over_a_native_session() {
    let s = native();
    assert_eq!(s.control_socket(), "/tmp/d/master");
    assert_eq!(native_cmd(&s.command("it's")), ("/tmp/d/master", r"'it'\''s'", false));
    assert_eq!(native_cmd(&s.raw_command("a b")), ("/tmp/d/master", "a b", false));
    assert_eq!(native_cmd(&s.subsystem("sftp")), ("/tmp/d/master", "sftp", true));
    assert_eq!(native_cmd(&s.shell("echo '\\$SHELL'")).1, r"sh -c 'echo '\''\$SHELL'\'''");
}

#[test]
fn owned_command_arguments() {
    let s = native();
    let mut c = OwnedCommand::new((), s.command("printf"));
    c.arg("%d %d").args(&["1", "two words"]).raw_arg("|").raw_args(&["wc", "-l"]);
    assert_eq!(native_cmd(c.imp()).1, "printf '%d %d' 1 'two words' | wc -l");

    let s = process();
    let mut c = OwnedCommand::new(7u8, s.command("printf"));
    c.arg("%d %d").args(&["1", "2"]);
    assert_eq!(*c.session(), 7u8);
    let a = process_args(c.imp());
    assert_eq!(&a[a.len() - 3..], &["'%d %d'", "1", "2"]);
}

#[test]
fn stdio_plans() {
    let mut c = OwnedCommand::new((), native().command("cat"));
    let all_output = StdioPlan {
        stdin: Some(StdioDefault::Null),
        stdout: Some(StdioDefault::Piped),
        stderr: Some(StdioDefault::Piped),
    };
    let all_inherit = StdioPlan {
        stdin: Some(StdioDefault::Inherit),
        stdout: Some(StdioDefault::Inherit),
        stderr: Some(StdioDefault::Inherit),
    };
    assert_eq!(c.plan_output(), all_output);
    // A command can be run again: planning records nothing.
    assert_eq!(c.plan_spawn(), all_inherit);
    assert_eq!(c.plan_output(), all_output);

    c.mark_stdin_set();
    assert_eq!(
        c.plan_spawn(),
        StdioPlan {
            stdin: None,
            stdout: Some(StdioDefault::Inherit),
            stderr: Some(StdioDefault::Inherit)
        }
    );

    let mut c = OwnedCommand::new((), native().command("cat"));
    c.mark_stdout_set();
    c.mark_stderr_set();
    assert_eq!(
        c.plan_output(),
        StdioPlan { stdin: Some(StdioDefault::Null), stdout: None, stderr: None }
    );
}

#[test]
fn over_ssh() {
    let s = native();
    assert!(matches!(
        over_ssh_command(&s, true, true, "ls", &[]),
        Err(OverSshError::CommandHasEnv)
    ));
    assert!(matches!(
        over_ssh_command(&s, false, true, "ls", &[]),
        Err(OverSshError::CommandHasCwd)
    ));
    let c = over_ssh_command(&s, false, false, "ls", &["-l", "my file"]).unwrap();
    assert_eq!(native_cmd(&c).1, "ls -l 'my file'");
    let c = over_ssh_command(&process(), false, false, "ls", &["a b"]).unwrap();
    let a = process_args(&c);
    assert_eq!(&a[a.len() - 3..], &["--", "ls", "'a b'"]);
}

fn master(k: IoErrorKind, m: &str) -> Option<(IoErrorKind, String)> {
    Some((k, m.to_string()))
}

#[test]
fn check_outcomes() {
    assert!(check_outcome(Some(0), None).is_ok());
    assert!(check_outcome(None, master(IoErrorKind::Other, "x")).is_ok());
    assert!(matches!(check_outcome(Some(255), None), Err(ErrorReport::Disconnected)));
    match check_outcome(Some(255), master(IoErrorKind::ConnectionAborted, "gone")) {
        Err(ErrorReport::Master(k, m)) => {
            assert_eq!(k, IoErrorKind::ConnectionAborted);
            assert_eq!(m, "gone");
        }
        other => panic!("{:?}", other),
    }
}

#[test]
fn port_forward_errors() {
    assert!(port_forward_needs_master_error(" \n"));
    assert!(!port_forward_needs_master_error("bind: Address in use"));
    match port_forward_error("  \n", master(IoErrorKind::Other, "m")) {
        ErrorReport::Master(k, m) => {
            assert_eq!(k, IoErrorKind::Other);
            assert_eq!(m, "m");
        }
        other => panic!("{:?}", other),
    }
    match port_forward_error(" bind failed\n", master(IoErrorKind::Other, "m")) {
        ErrorReport::Ssh(k, m) => {
            assert_eq!(k, IoErrorKind::Other);
            assert_eq!(m, "bind failed");
        }
        other => panic!("{:?}", other),
    }
    match port_forward_error("", None) {
        ErrorReport::Ssh(k, m) => {
            assert_eq!(k, IoErrorKind::Other);
            assert_eq!(m, "");
        }
        other => panic!("{:?}", other),
    }
}

#[test]
fn close_outcomes() {
    assert!(close_outcome(true, "", None).is_ok());
    match close_outcome(false, "  Exit request failed\n", None) {
        Err(ErrorReport::Ssh(k, m)) => {
            assert_eq!(k, IoErrorKind::ConnectionAborted);
            assert_eq!(m, "Exit request failed");
        }
        other => panic!("{:?}", other),
    }
    match close_outcome(true, "", master(IoErrorKind::Other, "died")) {
        Err(ErrorReport::Master(k, m)) => {
            assert_eq!(k, IoErrorKind::Other);
            assert_eq!(m, "died");
        }
        other => panic!("{:?}", other),
    }
}

#[test]
fn exit_codes() {
    assert!(classify_exit_code(Some(0)).is_ok());
    assert!(classify_exit_code(Some(1)).is_ok());
    assert!(classify_exit_code(None).is_ok());
    assert!(matches!(classify_exit_code(Some(255)), Err(ErrorReport::RemoteProcessTerminated)));
    match classify_exit_code(Some(127)) {
        Err(ErrorReport::Remote(k, m)) => {
            assert_eq!(k, IoErrorKind::NotFound);
            assert_eq!(m, "remote command not found");
        }
        other => panic!("{:?}", other),
    }
}

#[test]
fn session_exit_statuses() {
    assert!(matches!(exited_session_status(None), Err(ErrorReport::RemoteProcessTerminated)));
    assert!(matches!(exited_session_status(Some(127)), Err(ErrorReport::Remote(IoErrorKind::NotFound, _))));
    assert_eq!(exited_session_status(Some(0)).unwrap(), 0);
    assert_eq!(exited_session_status(Some(1)).unwrap(), 256);
    assert_eq!(exited_session_status(Some(42)).unwrap(), 42 * 256);
    assert_eq!(exited_session_status(Some(0x0100_0001)).unwrap(), 256);
    assert_eq!(exited_session_status(Some(0x0080_0000)).unwrap(), i32::MIN);
}

#[test]
fn trims_whitespace() {
    assert_eq!(trimmed("  a b \r\n"), "a b");
    assert_eq!(trimmed("\u{3000}x\u{a0}"), "x");
    assert_eq!(trimmed(""), "");
}

/// The words a POSIX shell reads from a command line made only of plain
/// characters, single quotes, backslashes outside quotes and spaces.
fn shell_words(line: &str) -> Vec<String> {
    let mut words = Vec::new();
    let mut cur = String::new();
    let mut in_word = false;
    let mut quoted = false;
    let mut chars = line.chars();
    while let Some(c) = chars.next() {
        if quoted {
            if c == '\'' {
                quoted = false;
            } else {
                cur.push(c);
            }
        } else if c == '\'' {
            quoted = true;
            in_word = true;
        } else if c == '\\' {
            if let Some(n) = chars.next() {
                cur.push(n);
            }
            in_word = true;
        } else if c == ' ' {
            if in_word {
                words.push(std::mem::take(&mut cur));
                in_word = false;
            }
        } else {
            cur.push(c);
            in_word = true;
        }
    }
    if in_word {
        words.push(cur);
    }
    words
}

#[test]
fn remote_shell_reads_back_the_words() {
    let args = ["", "it's", "a b", "!x", "$HOME", "plain", "'\\'"];
    let mut c = OwnedCommand::new((), native().command("my prog"));
    c.args(&args);
    let line = native_cmd(c.imp()).1;
    let mut expected = vec!["my prog".to_string()];
    expected.extend(args.iter().map(|a| a.to_string()));
    assert_eq!(shell_words(line), expected);

    let mut c = OwnedCommand::new((), process().command("my prog"));
    c.args(&args);
    let a = process_args(c.imp());
    let dash = a.iter().position(|w| *w == "--").unwrap();
    let joined = a[dash + 1..].join(" ");
    assert_eq!(shell_words(&joined), expected);
}
