//! Sessions over a master connection: the commands they build, the `ssh`
//! invocations that control the master, and how their outcomes are read.

use vstd::prelude::*;
use vstd::string::*;

use crate::command::{
    escaped_all, shell_escape_unix, with_raw_arg, with_raw_args, CommandImp, CommandImpView,
};
use crate::escape::{escape_str, escaped_chars, escaped_line, lemma_escaped_line, shell_words};
use crate::ssh_error::IoErrorKind;
use crate::strings::{push_str, strings_view};
use crate::text::{chars_of, string_of, sub_chars, trim, trim_bounds};

verus! {

/// A failure, as plain values: which step failed, the kind of I/O error and
/// its message where there is one.
#[derive(Debug)]
pub enum ErrorReport {
    /// The master connection failed.
    Master(IoErrorKind, String),
    /// The connection to the remote host could not be established.
    Connect(IoErrorKind, String),
    /// The local `ssh` command failed.
    Ssh(IoErrorKind, String),
    /// The remote process failed.
    Remote(IoErrorKind, String),
    /// The connection to the remote host was severed.
    Disconnected,
    /// The remote process was terminated.
    RemoteProcessTerminated,
}

/// Type of forwarding.
#[derive(Debug, Clone, Copy, PartialEq, Eq, Structural)]
pub enum ForwardType {
    /// Forward requests to a port on the local machine to the remote machine.
    Local,
    /// Forward requests to a port on the remote machine to the local machine.
    Remote,
}

/// The `ssh` flag that requests a forwarding of type `t`.
pub open spec fn forward_flag(t: ForwardType) -> Seq<char> {
    match t {
        ForwardType::Local => "-L"@,
        ForwardType::Remote => "-R"@,
    }
}

impl ForwardType {
    /// The `ssh` flag that requests this kind of forwarding.
    pub fn flag(&self) -> (r: &'static str)
        ensures
            r@ == forward_flag(*self),
    {
        match self {
            ForwardType::Local => "-L",
            ForwardType::Remote => "-R",
        }
    }
}

/// A session that runs each command in a local `ssh` process, through the
/// control socket `ctl` of the master connection to `addr`.
pub struct ProcessSession {
    ctl: String,
    addr: String,
    master_log: Option<String>,
}

/// A session that asks the multiplex master behind the control socket `ctl`
/// for a new session for each command.
pub struct NativeSession {
    ctl: String,
}

/// The two ways a session runs commands.
pub enum SessionImp {
    ProcessImpl(ProcessSession),
    NativeMuxImpl(NativeSession),
}

/// The options with which every `ssh` process of a session starts, before
/// `extra`, and the destination after them.
pub open spec fn std_args(ctl: Seq<char>, addr: Seq<char>, extra: Seq<Seq<char>>) -> Seq<
    Seq<char>,
> {
    seq!["-S"@, ctl, "-o"@, "BatchMode=yes"@] + extra + seq![addr]
}

/// The `ssh` arguments that run `program` through the master, without a
/// terminal, on the discard port so that no new connection can succeed;
/// `subsystem` asks for a subsystem rather than a command.
pub open spec fn remote_args(
    ctl: Seq<char>,
    addr: Seq<char>,
    program: Seq<char>,
    subsystem: bool,
) -> Seq<Seq<char>> {
    std_args(
        ctl,
        addr,
        if subsystem {
            seq!["-T"@, "-p"@, "9"@, "-s"@]
        } else {
            seq!["-T"@, "-p"@, "9"@]
        },
    ) + seq!["--"@, program]
}

/// The command that runs `program` as written.
pub open spec fn raw_command_view(
    imp_is_process: bool,
    ctl: Seq<char>,
    addr: Seq<char>,
    program: Seq<char>,
    subsystem: bool,
) -> CommandImpView {
    if imp_is_process {
        CommandImpView::ProcessImpl(remote_args(ctl, addr, program, subsystem))
    } else {
        CommandImpView::NativeMuxImpl { ctl, cmd: program, subsystem }
    }
}

impl ProcessSession {
    /// The control socket of the master connection.
    pub closed spec fn spec_ctl(&self) -> Seq<char> {
        self.ctl@
    }

    /// The destination that `ssh` is given.
    pub closed spec fn spec_addr(&self) -> Seq<char> {
        self.addr@
    }

    /// The log of the master connection, when known.
    pub closed spec fn spec_master_log(&self) -> Option<Seq<char>> {
        match self.master_log {
            Some(l) => Some(l@),
            None => None,
        }
    }

    /// A session whose master runs under the directory of control socket
    /// `ctl` and log `log`, connected to `addr`.
    pub fn new(ctl: String, log: String, addr: &str) -> (r: Self)
        ensures
            r.spec_ctl() == ctl@,
            r.spec_addr() == addr@,
            r.spec_master_log() == Some(log@),
    {
        ProcessSession { ctl, addr: String::from_str(addr), master_log: Some(log) }
    }

    /// A session over an existing master: `ssh` ignores the destination when
    /// a control socket is given, so `none` stands for it.
    pub fn resume(ctl: String, master_log: Option<String>) -> (r: Self)
        ensures
            r.spec_ctl() == ctl@,
            r.spec_addr() == "none"@,
            r.spec_master_log() == match master_log {
                Some(l) => Some(l@),
                None => None,
            },
    {
        ProcessSession { ctl, addr: String::from_str("none"), master_log }
    }

    /// The control socket.
    pub fn ctl(&self) -> (r: &str)
        ensures
            r@ == self.spec_ctl(),
    {
        self.ctl.as_str()
    }

    /// The log of the master connection, if known.
    pub fn master_log(&self) -> (r: Option<&str>)
        ensures
            match r {
                Some(l) => self.spec_master_log() == Some(l@),
                None => self.spec_master_log() is None,
            },
    {
        match &self.master_log {
            Some(l) => Some(l.as_str()),
            None => None,
        }
    }

    /// The arguments of an `ssh` process of this session with the options
    /// `extra`.
    pub fn std_args(&self, extra: &[&str]) -> (r: Vec<String>)
        ensures
            strings_view(r@) == std_args(
                self.spec_ctl(),
                self.spec_addr(),
                extra@.map_values(|a: &str| a@),
            ),
    {
        let ghost ex = extra@.map_values(|a: &str| a@);
        let mut v: Vec<String> = Vec::new();
        push_str(&mut v, "-S");
        push_str(&mut v, self.ctl.as_str());
        push_str(&mut v, "-o");
        push_str(&mut v, "BatchMode=yes");
        let ghost head = strings_view(v@);
        assert(head =~= seq!["-S"@, self.ctl@, "-o"@, "BatchMode=yes"@]);
        let mut i: usize = 0;
        while i < extra.len()
            invariant
                i <= extra@.len(),
                ex == extra@.map_values(|a: &str| a@),
                head == seq!["-S"@, self.ctl@, "-o"@, "BatchMode=yes"@],
                strings_view(v@) == head + ex.take(i as int),
            decreases extra@.len() - i,
        {
            push_str(&mut v, extra[i]);
            assert(ex.take(i + 1) =~= ex.take(i as int).push(ex[i as int]));
            assert(head + ex.take(i + 1) =~= (head + ex.take(i as int)).push(extra@[i as int]@));
            i = i + 1;
        }
        assert(ex.take(extra@.len() as int) =~= ex);
        push_str(&mut v, self.addr.as_str());
        assert(strings_view(v@) =~= std_args(self.ctl@, self.addr@, ex));
        v
    }

    /// The arguments that ask the master whether it is still running.
    pub fn check_args(&self) -> (r: Vec<String>)
        ensures
            strings_view(r@) == std_args(self.spec_ctl(), self.spec_addr(), seq!["-O"@, "check"@]),
    {
        let extra: [&str; 2] = ["-O", "check"];
        let r = self.std_args(&extra);
        assert(extra@.map_values(|a: &str| a@) =~= seq!["-O"@, "check"@]);
        r
    }

    /// The arguments that ask the master to exit.
    pub fn exit_args(&self) -> (r: Vec<String>)
        ensures
            strings_view(r@) == std_args(self.spec_ctl(), self.spec_addr(), seq!["-O"@, "exit"@]),
    {
        let extra: [&str; 2] = ["-O", "exit"];
        let r = self.std_args(&extra);
        assert(extra@.map_values(|a: &str| a@) =~= seq!["-O"@, "exit"@]);
        r
    }

    /// The arguments that ask the master for a forwarding of type `t` from
    /// the socket written `listen` to the socket written `connect`.
    pub fn port_forward_args(&self, t: ForwardType, listen: &str, connect: &str) -> (r: Vec<
        String,
    >)
        ensures
            strings_view(r@) == std_args(
                self.spec_ctl(),
                self.spec_addr(),
                seq!["-fNT"@, forward_flag(t), listen@ + seq![':'] + connect@],
            ),
    {
        let mut forwarding = String::from_str(listen);
        crate::decimal::push_char(&mut forwarding, ':');
        forwarding.append(connect);
        let extra: [&str; 3] = ["-fNT", t.flag(), forwarding.as_str()];
        let v = self.std_args(&extra);
        assert(listen@.push(':') + connect@ =~= listen@ + seq![':'] + connect@);
        assert(extra@.map_values(|a: &str| a@)
            =~= seq!["-fNT"@, forward_flag(t), listen@ + seq![':'] + connect@]);
        v
    }

    /// The `ssh` arguments that run `program` as written; `subsystem` asks
    /// for a subsystem.
    pub fn remote_args(&self, program: &str, subsystem: bool) -> (r: Vec<String>)
        ensures
            strings_view(r@) == remote_args(self.spec_ctl(), self.spec_addr(), program@, subsystem),
    {
        let mut v = if subsystem {
            let extra: [&str; 4] = ["-T", "-p", "9", "-s"];
            let r = self.std_args(&extra);
            assert(extra@.map_values(|a: &str| a@) =~= seq![
                "-T"@,
                "-p"@,
                "9"@,
                "-s"@,
            ]);
            r
        } else {
            let extra: [&str; 3] = ["-T", "-p", "9"];
            let r = self.std_args(&extra);
            assert(extra@.map_values(|a: &str| a@) =~= seq!["-T"@, "-p"@, "9"@]);
            r
        };
        let ghost before = strings_view(v@);
        push_str(&mut v, "--");
        push_str(&mut v, program);
        assert(strings_view(v@) =~= before + seq!["--"@, program@]);
        v
    }
}

impl NativeSession {
    /// The control socket of the multiplex master.
    pub closed spec fn spec_ctl(&self) -> Seq<char> {
        self.ctl@
    }

    /// A session over the multiplex master behind `ctl`.
    pub fn new(ctl: String) -> (r: Self)
        ensures
            r.spec_ctl() == ctl@,
    {
        NativeSession { ctl }
    }

    /// The control socket.
    pub fn ctl(&self) -> (r: &str)
        ensures
            r@ == self.spec_ctl(),
    {
        self.ctl.as_str()
    }
}

impl SessionImp {
    /// The control socket of the master.
    pub open spec fn spec_ctl(&self) -> Seq<char> {
        match self {
            SessionImp::ProcessImpl(s) => s.spec_ctl(),
            SessionImp::NativeMuxImpl(s) => s.spec_ctl(),
        }
    }

    /// The destination written on each `ssh` command line (unused by the
    /// multiplex master).
    pub open spec fn spec_addr(&self) -> Seq<char> {
        match self {
            SessionImp::ProcessImpl(s) => s.spec_addr(),
            SessionImp::NativeMuxImpl(s) => Seq::empty(),
        }
    }

    /// Whether commands run in local `ssh` processes.
    pub open spec fn is_process(&self) -> bool {
        self is ProcessImpl
    }

    /// The control socket of the master.
    pub fn control_socket(&self) -> (r: &str)
        ensures
            r@ == self.spec_ctl(),
    {
        match self {
            SessionImp::ProcessImpl(s) => s.ctl(),
            SessionImp::NativeMuxImpl(s) => s.ctl(),
        }
    }

    /// The command that runs `program` as written: the remote shell may
    /// interpret what it holds.
    pub fn raw_command(&self, program: &str) -> (r: CommandImp)
        ensures
            r@ == raw_command_view(
                self.is_process(),
                self.spec_ctl(),
                self.spec_addr(),
                program@,
                false,
            ),
    {
        match self {
            SessionImp::ProcessImpl(s) => CommandImp::ProcessImpl(s.remote_args(program, false)),
            SessionImp::NativeMuxImpl(s) => CommandImp::NativeMuxImpl {
                ctl: String::from_str(s.ctl()),
                cmd: String::from_str(program),
                subsystem: false,
            },
        }
    }

    /// The command that runs the subsystem `program`.
    pub fn subsystem(&self, program: &str) -> (r: CommandImp)
        ensures
            r@ == raw_command_view(
                self.is_process(),
                self.spec_ctl(),
                self.spec_addr(),
                program@,
                true,
            ),
    {
        match self {
            SessionImp::ProcessImpl(s) => CommandImp::ProcessImpl(s.remote_args(program, true)),
            SessionImp::NativeMuxImpl(s) => CommandImp::NativeMuxImpl {
                ctl: String::from_str(s.ctl()),
                cmd: String::from_str(program),
                subsystem: true,
            },
        }
    }

    /// The command that runs `program`, escaped so that the remote shell
    /// runs exactly that program.
    pub fn command(&self, program: &str) -> (r: CommandImp)
        ensures
            r@ == raw_command_view(
                self.is_process(),
                self.spec_ctl(),
                self.spec_addr(),
                escaped_chars(program@),
                false,
            ),
    {
        let escaped = shell_escape_unix(program);
        self.raw_command(escaped.as_str())
    }

    /// The command that has `sh -c` run `command`: the remote shell sees
    /// `sh`, `-c` and `command` as three words, whatever `command` holds.
    pub fn shell(&self, command: &str) -> (r: CommandImp)
        ensures
            r@ == with_raw_arg(
                with_raw_arg(
                    raw_command_view(
                        self.is_process(),
                        self.spec_ctl(),
                        self.spec_addr(),
                        escaped_chars("sh"@),
                        false,
                    ),
                    escaped_chars("-c"@),
                ),
                escaped_chars(command@),
            ),
    {
        let mut c = self.command("sh");
        let dash_c = shell_escape_unix("-c");
        c.raw_arg(dash_c.as_str());
        let escaped = shell_escape_unix(command);
        c.raw_arg(escaped.as_str());
        c
    }
}

/// The outcome of asking the master whether it runs: it has failed when `ssh`
/// exits with 255, and then the error from its log, if any, is reported, else
/// the connection is reported as severed.
pub fn check_outcome(code: Option<i32>, master_error: Option<(IoErrorKind, String)>) -> (r: Result<
    (),
    ErrorReport,
>)
    ensures
        code != Some(255i32) ==> r is Ok,
        code == Some(255i32) ==> match master_error {
            Some(e) => r matches Err(ErrorReport::Master(k, m)) && k == e.0 && m@ == e.1@,
            None => r matches Err(ErrorReport::Disconnected),
        },
{
    match code {
        Some(c) => {
            if c == 255 {
                match master_error {
                    Some((k, m)) => Err(ErrorReport::Master(k, m)),
                    None => Err(ErrorReport::Disconnected),
                }
            } else {
                Ok(())
            }
        },
        None => Ok(()),
    }
}

/// `s` without leading and trailing whitespace.
pub fn trimmed(s: &str) -> (r: String)
    ensures
        r@ == trim(s@),
{
    let all = chars_of(s);
    let (i, j) = trim_bounds(&all, 0, all.len());
    assert(all@.subrange(0, all@.len() as int) =~= all@);
    string_of(&sub_chars(&all, i, j))
}

/// Whether the error of a failed port forwarding must be looked for in the
/// master's log: when `ssh` printed nothing but whitespace.
pub fn port_forward_needs_master_error(stderr: &str) -> (r: bool)
    ensures
        r == (trim(stderr@).len() == 0),
{
    let t = trimmed(stderr);
    t.unicode_len() == 0
}

/// The error of a failed port forwarding: the master's error when `ssh`
/// printed nothing and the master logged one, else an `ssh` error with what
/// it printed, trimmed.
pub fn port_forward_error(stderr: &str, master_error: Option<(IoErrorKind, String)>) -> (r:
    ErrorReport)
    ensures
        match master_error {
            Some(e) => trim(stderr@).len() == 0 ==> (r matches ErrorReport::Master(k, m) && k == e.0
                && m@ == e.1@),
            None => true,
        },
        !(trim(stderr@).len() == 0 && master_error is Some) ==> (r matches ErrorReport::Ssh(
            k,
            m,
        ) && k == IoErrorKind::Other && m@ == trim(stderr@)),
{
    let t = trimmed(stderr);
    if t.unicode_len() == 0 {
        match master_error {
            Some((k, m)) => {
                return ErrorReport::Master(k, m);
            },
            None => {},
        }
    }
    ErrorReport::Ssh(IoErrorKind::Other, t)
}

/// The outcome of asking the master to exit: the master's logged error comes
/// first; else a failed `ssh -O exit` means that the connection was aborted,
/// with what `ssh` printed, trimmed.
pub fn close_outcome(
    success: bool,
    stderr: &str,
    master_error: Option<(IoErrorKind, String)>,
) -> (r: Result<(), ErrorReport>)
    ensures
        match master_error {
            Some(e) => r matches Err(ErrorReport::Master(k, m)) && k == e.0 && m@ == e.1@,
            None => if success {
                r is Ok
            } else {
                r matches Err(ErrorReport::Ssh(k, m)) && k == IoErrorKind::ConnectionAborted && m@
                    == trim(stderr@)
            },
        },
{
    match master_error {
        Some((k, m)) => Err(ErrorReport::Master(k, m)),
        None => {
            if success {
                Ok(())
            } else {
                Err(ErrorReport::Ssh(IoErrorKind::ConnectionAborted, trimmed(stderr)))
            }
        },
    }
}

/// How the exit code of the local `ssh` process that ran a remote command is
/// read: 255 means that the remote process was terminated (or the connection
/// severed), 127 that the remote command was not found; any other code, or
/// none, is the command's own exit.
pub fn classify_exit_code(code: Option<i32>) -> (r: Result<(), ErrorReport>)
    ensures
        code == Some(255i32) ==> r matches Err(ErrorReport::RemoteProcessTerminated),
        code == Some(127i32) ==> (r matches Err(ErrorReport::Remote(k, m)) && k
            == IoErrorKind::NotFound && m@ == "remote command not found"@),
        (code != Some(255i32) && code != Some(127i32)) ==> r is Ok,
{
    match code {
        Some(c) => {
            if c == 255 {
                Err(ErrorReport::RemoteProcessTerminated)
            } else if c == 127 {
                Err(
                    ErrorReport::Remote(
                        IoErrorKind::NotFound,
                        String::from_str("remote command not found"),
                    ),
                )
            } else {
                Ok(())
            }
        },
        None => Ok(()),
    }
}

/// The raw wait status of a process that exited with `code`: the code in
/// bits 8 to 15 and above, the low byte clear (the code's higher bits are
/// shifted out of the 32 bits).
pub open spec fn wait_status_of_code(code: u32) -> i32 {
    ((code as int * 256) % 0x1_0000_0000) as u32 as i32
}

/// How the exit value that the multiplex master reports for a session is
/// read: no value means the remote process was terminated, 127 that the
/// command was not found; any other value is the exit code, returned as a
/// raw wait status.
pub fn exited_session_status(exit_value: Option<u32>) -> (r: Result<i32, ErrorReport>)
    ensures
        exit_value is None ==> r matches Err(ErrorReport::RemoteProcessTerminated),
        exit_value == Some(127u32) ==> (r matches Err(ErrorReport::Remote(k, m)) && k
            == IoErrorKind::NotFound && m@ == "remote command not found"@),
        match exit_value {
            Some(v) => v != 127 ==> r == Ok::<i32, ErrorReport>(wait_status_of_code(v)),
            None => true,
        },
{
    match exit_value {
        Some(val) => {
            if val == 127 {
                Err(
                    ErrorReport::Remote(
                        IoErrorKind::NotFound,
                        String::from_str("remote command not found"),
                    ),
                )
            } else {
                let shifted: u32 = val.wrapping_mul(256);
                assert(shifted == ((val as int * 256) % 0x1_0000_0000) as u32);
                Ok(shifted as i32)
            }
        },
        None => Err(ErrorReport::RemoteProcessTerminated),
    }
}

/// Why a local command cannot be run over ssh.
#[derive(Debug, Clone, Copy, PartialEq, Eq, Structural)]
pub enum OverSshError {
    /// The command sets environment variables, which ssh cannot pass on.
    CommandHasEnv,
    /// The command sets a working directory, which ssh cannot set.
    CommandHasCwd,
}

/// The remote command for a local command with program `program` and
/// arguments `args`, each escaped for the remote shell; refused when the
/// local command sets environment variables (checked first) or a working
/// directory.
pub fn over_ssh_command(
    session: &SessionImp,
    has_env: bool,
    has_cwd: bool,
    program: &str,
    args: &[&str],
) -> (r: Result<CommandImp, OverSshError>)
    ensures
        has_env ==> r == Err::<CommandImp, OverSshError>(OverSshError::CommandHasEnv),
        !has_env && has_cwd ==> r == Err::<CommandImp, OverSshError>(OverSshError::CommandHasCwd),
        !has_env && !has_cwd ==> (r matches Ok(c) && c@ == crate::command::with_raw_args(
            raw_command_view(
                session.is_process(),
                session.spec_ctl(),
                session.spec_addr(),
                escaped_chars(program@),
                false,
            ),
            crate::command::escaped_all(args@.map_values(|a: &str| a@)),
        )),
{
    if has_env {
        return Err(OverSshError::CommandHasEnv);
    }
    if has_cwd {
        return Err(OverSshError::CommandHasCwd);
    }
    let escaped_program = escape_str(program);
    let mut c = session.raw_command(escaped_program.as_str());
    let ghost start = c@;
    let ghost all = crate::command::escaped_all(args@.map_values(|a: &str| a@));
    let mut i: usize = 0;
    while i < args.len()
        invariant
            i <= args@.len(),
            all == crate::command::escaped_all(args@.map_values(|a: &str| a@)),
            c@ == crate::command::with_raw_args(start, all.take(i as int)),
        decreases args@.len() - i,
    {
        let e = escape_str(args[i]);
        c.raw_arg(e.as_str());
        assert(all.take(i + 1).drop_last() =~= all.take(i as int));
        assert(all.take(i + 1).last() == escaped_chars(args@[i as int]@));
        i = i + 1;
    }
    assert(all.take(args@.len() as int) =~= all);
    Ok(c)
}

/// The words `ws` joined by single spaces, as `ssh` joins the words of a
/// remote command into the command line that the remote shell reads.
pub open spec fn join_spaces(ws: Seq<Seq<char>>) -> Seq<char>
    decreases ws.len(),
{
    if ws.len() <= 1 {
        if ws.len() == 0 {
            Seq::empty()
        } else {
            ws[0]
        }
    } else {
        join_spaces(ws.drop_last()) + seq![' '] + ws.last()
    }
}

proof fn lemma_line_is_joined(ws: Seq<Seq<char>>)
    ensures
        escaped_line(ws) == join_spaces(escaped_all(ws)),
    decreases ws.len(),
{
    if ws.len() > 1 {
        lemma_line_is_joined(ws.drop_last());
        assert(escaped_all(ws).drop_last() =~= escaped_all(ws.drop_last()));
        assert(escaped_all(ws).last() == escaped_chars(ws.last()));
    } else if ws.len() == 1 {
        assert(escaped_all(ws)[0] == escaped_chars(ws[0]));
    }
}

proof fn lemma_native_cmd(ctl: Seq<char>, p: Seq<char>, args: Seq<Seq<char>>)
    ensures
        with_raw_args(
            CommandImpView::NativeMuxImpl { ctl, cmd: escaped_chars(p), subsystem: false },
            escaped_all(args),
        ) == (CommandImpView::NativeMuxImpl {
            ctl,
            cmd: escaped_line(seq![p] + args),
            subsystem: false,
        }),
    decreases args.len(),
{
    let start = CommandImpView::NativeMuxImpl { ctl, cmd: escaped_chars(p), subsystem: false };
    if args.len() == 0 {
        assert(seq![p] + args =~= seq![p]);
    } else {
        lemma_native_cmd(ctl, p, args.drop_last());
        assert(escaped_all(args).drop_last() =~= escaped_all(args.drop_last()));
        assert(escaped_all(args).last() == escaped_chars(args.last()));
        let ws = seq![p] + args;
        assert(ws.drop_last() =~= seq![p] + args.drop_last());
        assert(ws.last() == args.last());
    }
}

/// A command that the multiplex master runs, built by `command(program)` and
/// then `args(args)`, is read by the remote shell as exactly the program and
/// its arguments, whatever they hold.
pub proof fn lemma_native_command_words(ctl: Seq<char>, program: Seq<char>, args: Seq<Seq<char>>)
    ensures
        with_raw_args(
            CommandImpView::NativeMuxImpl { ctl, cmd: escaped_chars(program), subsystem: false },
            escaped_all(args),
        ) matches CommandImpView::NativeMuxImpl { cmd, .. } && shell_words(cmd) == Some(
            seq![program] + args,
        ),
{
    lemma_native_cmd(ctl, program, args);
    lemma_escaped_line(seq![program] + args);
}

proof fn lemma_process_args(
    head: Seq<Seq<char>>,
    p: Seq<char>,
    args: Seq<Seq<char>>,
)
    ensures
        with_raw_args(CommandImpView::ProcessImpl(head + seq![escaped_chars(p)]), escaped_all(args))
            == CommandImpView::ProcessImpl(head + escaped_all(seq![p] + args)),
    decreases args.len(),
{
    if args.len() == 0 {
        assert(escaped_all(seq![p] + args) =~= seq![escaped_chars(p)]);
    } else {
        lemma_process_args(head, p, args.drop_last());
        assert(escaped_all(args).drop_last() =~= escaped_all(args.drop_last()));
        assert(escaped_all(args).last() == escaped_chars(args.last()));
        assert(escaped_all(seq![p] + args) =~= escaped_all(seq![p] + args.drop_last()).push(
            escaped_chars(args.last()),
        ));
        assert((head + escaped_all(seq![p] + args.drop_last())).push(escaped_chars(args.last()))
            =~= head + escaped_all(seq![p] + args));
    }
}

/// A command run by a local `ssh` process, built by `command(program)` and
/// then `args(args)`, ends its `ssh` arguments with `--` and the escaped
/// program and arguments; `ssh` joins these with spaces, and the remote shell
/// reads back exactly the program and its arguments.
pub proof fn lemma_process_command_words(
    ctl: Seq<char>,
    addr: Seq<char>,
    program: Seq<char>,
    args: Seq<Seq<char>>,
)
    ensures
        with_raw_args(
            CommandImpView::ProcessImpl(remote_args(ctl, addr, escaped_chars(program), false)),
            escaped_all(args),
        ) == CommandImpView::ProcessImpl(
            std_args(ctl, addr, seq!["-T"@, "-p"@, "9"@]) + seq!["--"@] + escaped_all(
                seq![program] + args,
            ),
        ),
        shell_words(join_spaces(escaped_all(seq![program] + args))) == Some(seq![program] + args),
{
    let head = std_args(ctl, addr, seq!["-T"@, "-p"@, "9"@]) + seq!["--"@];
    assert(remote_args(ctl, addr, escaped_chars(program), false) =~= head + seq![
        escaped_chars(program),
    ]);
    lemma_process_args(head, program, args);
    lemma_line_is_joined(seq![program] + args);
    lemma_escaped_line(seq![program] + args);
}

} // verus!
