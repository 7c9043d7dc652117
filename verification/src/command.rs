//! Remote commands as they are built: the program and its arguments, kept
//! either as the argument list of a local `ssh` process or as the command line
//! that the multiplex master runs, and which standard streams were set.

use std::borrow::Cow;

use vstd::prelude::*;
use vstd::string::*;

use crate::escape::escaped_chars;
use crate::strings::{push_str, strings_view};

verus! {

/// `shell_escape::unix::escape`: returns `s` itself when it is non-empty and
/// made only of `a-z A-Z 0-9 - _ = / , . +`, else `s` in single quotes with
/// each `'` and `!` written as `'\x'`; that is `escaped_chars`.
#[verifier::external_body]
pub(crate) fn shell_escape_unix(s: &str) -> (r: String)
    ensures
        r@ == escaped_chars(s@),
{
    shell_escape::unix::escape(Cow::Borrowed(s)).into_owned()
}

/// How a command is carried to the remote host.
pub enum CommandImp {
    /// The argument list of a local `ssh` process that runs the command
    /// through the master connection.
    ProcessImpl(Vec<String>),
    /// A command line that the multiplex master runs in a new session; the
    /// control socket, the command line, and whether it names a subsystem.
    NativeMuxImpl { ctl: String, cmd: String, subsystem: bool },
}

/// The contents of a `CommandImp`.
pub enum CommandImpView {
    ProcessImpl(Seq<Seq<char>>),
    NativeMuxImpl { ctl: Seq<char>, cmd: Seq<char>, subsystem: bool },
}

impl View for CommandImp {
    type V = CommandImpView;

    open spec fn view(&self) -> CommandImpView {
        match self {
            CommandImp::ProcessImpl(args) => CommandImpView::ProcessImpl(strings_view(args@)),
            CommandImp::NativeMuxImpl { ctl, cmd, subsystem } => CommandImpView::NativeMuxImpl {
                ctl: ctl@,
                cmd: cmd@,
                subsystem: *subsystem,
            },
        }
    }
}

/// The command after one more argument `a`, passed as written: a new element
/// of the `ssh` argument list, or `a` after a space on the command line.
pub open spec fn with_raw_arg(imp: CommandImpView, a: Seq<char>) -> CommandImpView {
    match imp {
        CommandImpView::ProcessImpl(args) => CommandImpView::ProcessImpl(args.push(a)),
        CommandImpView::NativeMuxImpl { ctl, cmd, subsystem } => CommandImpView::NativeMuxImpl {
            ctl,
            cmd: cmd + seq![' '] + a,
            subsystem,
        },
    }
}

/// The command after the arguments `args`, in order, passed as written.
pub open spec fn with_raw_args(imp: CommandImpView, args: Seq<Seq<char>>) -> CommandImpView
    decreases args.len(),
{
    if args.len() == 0 {
        imp
    } else {
        with_raw_arg(with_raw_args(imp, args.drop_last()), args.last())
    }
}

/// The arguments `args` each escaped for the remote shell.
pub open spec fn escaped_all(args: Seq<Seq<char>>) -> Seq<Seq<char>> {
    args.map_values(|a: Seq<char>| escaped_chars(a))
}

impl CommandImp {
    /// Adds the argument `arg`, passed as written.
    pub fn raw_arg(&mut self, arg: &str)
        ensures
            final(self)@ == with_raw_arg(old(self)@, arg@),
    {
        match self {
            CommandImp::ProcessImpl(args) => {
                push_str(args, arg);
            },
            CommandImp::NativeMuxImpl { ctl, cmd, subsystem } => {
                let ghost before = cmd@;
                crate::decimal::push_char(cmd, ' ');
                cmd.append(arg);
                assert(before.push(' ') + arg@ =~= before + seq![' '] + arg@);
            },
        }
    }
}

/// A remote process builder: the program and its arguments, how they reach
/// the remote host, and which of the standard streams were configured.
pub struct OwnedCommand<S> {
    session: S,
    imp: CommandImp,
    stdin_set: bool,
    stdout_set: bool,
    stderr_set: bool,
}

/// The state of a command, as plain values.
pub struct CommandView {
    pub imp: CommandImpView,
    pub stdin_set: bool,
    pub stdout_set: bool,
    pub stderr_set: bool,
}

/// What a stream that was not configured gets when the command is run.
#[derive(Debug, Clone, Copy, PartialEq, Eq, Structural)]
pub enum StdioDefault {
    Inherit,
    Null,
    Piped,
}

/// For each standard stream, the setting it gets when the command is run, or
/// `None` where the one configured is kept.
#[derive(Debug, Clone, Copy, PartialEq, Eq, Structural)]
pub struct StdioPlan {
    pub stdin: Option<StdioDefault>,
    pub stdout: Option<StdioDefault>,
    pub stderr: Option<StdioDefault>,
}

/// The settings that `spawn` (and `status`) give to the streams that were not
/// configured: all inherited.
pub open spec fn spawn_plan(c: CommandView) -> StdioPlan {
    StdioPlan {
        stdin: if c.stdin_set {
            None
        } else {
            Some(StdioDefault::Inherit)
        },
        stdout: if c.stdout_set {
            None
        } else {
            Some(StdioDefault::Inherit)
        },
        stderr: if c.stderr_set {
            None
        } else {
            Some(StdioDefault::Inherit)
        },
    }
}

/// The settings that `output` gives to the streams that were not configured:
/// stdin reads nothing, stdout and stderr are captured.
pub open spec fn output_plan(c: CommandView) -> StdioPlan {
    StdioPlan {
        stdin: if c.stdin_set {
            None
        } else {
            Some(StdioDefault::Null)
        },
        stdout: if c.stdout_set {
            None
        } else {
            Some(StdioDefault::Piped)
        },
        stderr: if c.stderr_set {
            None
        } else {
            Some(StdioDefault::Piped)
        },
    }
}

impl<S> View for OwnedCommand<S> {
    type V = CommandView;

    closed spec fn view(&self) -> CommandView {
        CommandView {
            imp: self.imp@,
            stdin_set: self.stdin_set,
            stdout_set: self.stdout_set,
            stderr_set: self.stderr_set,
        }
    }
}

impl<S> OwnedCommand<S> {
    /// The session that the command runs over.
    pub closed spec fn spec_session(&self) -> S {
        self.session
    }

    /// A command over `session` carried by `imp`, with no stream configured.
    pub fn new(session: S, imp: CommandImp) -> (r: Self)
        ensures
            r@ == (CommandView {
                imp: imp@,
                stdin_set: false,
                stdout_set: false,
                stderr_set: false,
            }),
            r.spec_session() == session,
    {
        OwnedCommand { session, imp, stdin_set: false, stdout_set: false, stderr_set: false }
    }

    /// The session that the command runs over.
    pub fn session(&self) -> (r: &S)
        ensures
            *r == self.spec_session(),
    {
        &self.session
    }

    /// How the command reaches the remote host.
    pub fn imp(&self) -> (r: &CommandImp)
        ensures
            r@ == self@.imp,
    {
        &self.imp
    }

    /// Adds an argument, escaped so that the remote shell passes it to the
    /// program as one argument, unchanged.
    pub fn arg(&mut self, arg: &str) -> (r: &mut Self)
        ensures
            r@ == (CommandView {
                imp: with_raw_arg(old(self)@.imp, escaped_chars(arg@)),
                ..old(self)@
            }),
            r.spec_session() == old(self).spec_session(),
            *final(self) == *final(r),
    {
        let escaped = shell_escape_unix(arg);
        self.imp.raw_arg(escaped.as_str());
        self
    }

    /// Adds an argument as written: the remote shell may split it or expand
    /// what it holds.
    pub fn raw_arg(&mut self, arg: &str) -> (r: &mut Self)
        ensures
            r@ == (CommandView { imp: with_raw_arg(old(self)@.imp, arg@), ..old(self)@ }),
            r.spec_session() == old(self).spec_session(),
            *final(self) == *final(r),
    {
        self.imp.raw_arg(arg);
        self
    }

    /// Adds the arguments `args`, in order, each escaped as `arg` does.
    pub fn args(&mut self, args: &[&str]) -> (r: &mut Self)
        ensures
            r@ == (CommandView {
                imp: with_raw_args(old(self)@.imp, escaped_all(args@.map_values(|a: &str| a@))),
                ..old(self)@
            }),
            r.spec_session() == old(self).spec_session(),
            *final(self) == *final(r),
    {
        let ghost all = escaped_all(args@.map_values(|a: &str| a@));
        let mut i: usize = 0;
        while i < args.len()
            invariant
                i <= args@.len(),
                all == escaped_all(args@.map_values(|a: &str| a@)),
                self@ == (CommandView {
                    imp: with_raw_args(old(self)@.imp, all.take(i as int)),
                    ..old(self)@
                }),
                self.spec_session() == old(self).spec_session(),
            decreases args@.len() - i,
        {
            self.arg(args[i]);
            assert(all.take(i + 1).drop_last() =~= all.take(i as int));
            assert(all.take(i + 1).last() == escaped_chars(args@[i as int]@));
            i = i + 1;
        }
        assert(all.take(args@.len() as int) =~= all);
        self
    }

    /// Adds the arguments `args`, in order, as written.
    pub fn raw_args(&mut self, args: &[&str]) -> (r: &mut Self)
        ensures
            r@ == (CommandView {
                imp: with_raw_args(old(self)@.imp, args@.map_values(|a: &str| a@)),
                ..old(self)@
            }),
            r.spec_session() == old(self).spec_session(),
            *final(self) == *final(r),
    {
        let ghost all = args@.map_values(|a: &str| a@);
        let mut i: usize = 0;
        while i < args.len()
            invariant
                i <= args@.len(),
                all == args@.map_values(|a: &str| a@),
                self@ == (CommandView {
                    imp: with_raw_args(old(self)@.imp, all.take(i as int)),
                    ..old(self)@
                }),
                self.spec_session() == old(self).spec_session(),
            decreases args@.len() - i,
        {
            self.raw_arg(args[i]);
            assert(all.take(i + 1).drop_last() =~= all.take(i as int));
            i = i + 1;
        }
        assert(all.take(args@.len() as int) =~= all);
        self
    }

    /// Records that the standard input was configured.
    pub fn mark_stdin_set(&mut self)
        ensures
            final(self)@ == (CommandView { stdin_set: true, ..old(self)@ }),
            final(self).spec_session() == old(self).spec_session(),
    {
        self.stdin_set = true;
    }

    /// Records that the standard output was configured.
    pub fn mark_stdout_set(&mut self)
        ensures
            final(self)@ == (CommandView { stdout_set: true, ..old(self)@ }),
            final(self).spec_session() == old(self).spec_session(),
    {
        self.stdout_set = true;
    }

    /// Records that the standard error was configured.
    pub fn mark_stderr_set(&mut self)
        ensures
            final(self)@ == (CommandView { stderr_set: true, ..old(self)@ }),
            final(self).spec_session() == old(self).spec_session(),
    {
        self.stderr_set = true;
    }

    /// The settings of the streams for `spawn`: the streams that the caller
    /// never configured are inherited. The command is left as it was, so it
    /// can be run again with the same defaults.
    pub fn plan_spawn(&self) -> (r: StdioPlan)
        ensures
            r == spawn_plan(self@),
    {
        let plan = StdioPlan {
            stdin: if self.stdin_set {
                None
            } else {
                Some(StdioDefault::Inherit)
            },
            stdout: if self.stdout_set {
                None
            } else {
                Some(StdioDefault::Inherit)
            },
            stderr: if self.stderr_set {
                None
            } else {
                Some(StdioDefault::Inherit)
            },
        };
        plan
    }

    /// The settings of the streams for `output`: of the streams that the
    /// caller never configured, stdin reads nothing and stdout and stderr are
    /// captured. The command is left as it was, so it can be run again with
    /// the same defaults.
    pub fn plan_output(&self) -> (r: StdioPlan)
        ensures
            r == output_plan(self@),
    {
        let plan = StdioPlan {
            stdin: if self.stdin_set {
                None
            } else {
                Some(StdioDefault::Null)
            },
            stdout: if self.stdout_set {
                None
            } else {
                Some(StdioDefault::Piped)
            },
            stderr: if self.stderr_set {
                None
            } else {
                Some(StdioDefault::Piped)
            },
        };
        plan
    }
}

/// A stream that the caller configured is never given a default, and one
/// that the caller left alone always gets one: `spawn` (and `status`)
/// inherit it, `output` gives stdin nothing to read and captures stdout and
/// stderr.
pub proof fn lemma_plans_keep_configured_streams(c: CommandView)
    ensures
        c.stdin_set ==> spawn_plan(c).stdin is None && output_plan(c).stdin is None,
        c.stdout_set ==> spawn_plan(c).stdout is None && output_plan(c).stdout is None,
        c.stderr_set ==> spawn_plan(c).stderr is None && output_plan(c).stderr is None,
        !c.stdin_set ==> spawn_plan(c).stdin == Some(StdioDefault::Inherit) && output_plan(c).stdin
            == Some(StdioDefault::Null),
        !c.stdout_set ==> spawn_plan(c).stdout == Some(StdioDefault::Inherit) && output_plan(
            c,
        ).stdout == Some(StdioDefault::Piped),
        !c.stderr_set ==> spawn_plan(c).stderr == Some(StdioDefault::Inherit) && output_plan(
            c,
        ).stderr == Some(StdioDefault::Piped),
{
}

} // verus!
