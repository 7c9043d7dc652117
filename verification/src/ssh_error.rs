//! Reading the errors that `ssh` prints: what kind of failure a message
//! reports, and which part of it is worth showing.

use vstd::prelude::*;

use crate::text::{
    lemma_find_sub_within,
    chars_of, contains, contains_chars, find_in, find_sub, has_prefix, same_chars,
    starts_with_chars, string_of, sub_chars, trim, trim_bounds,
};

verus! {

/// The kinds of I/O failure that the library reports, as in `std::io::ErrorKind`.
#[derive(Debug, Clone, Copy, PartialEq, Eq, Structural)]
pub enum IoErrorKind {
    Other,
    ConnectionAborted,
    ConnectionRefused,
    TimedOut,
    PermissionDenied,
    NotFound,
    ConnectionReset,
    NotConnected,
}

/// Whether an I/O error of kind `k` on the control socket of the multiplex
/// master means that the connection is gone: the socket is missing, refused
/// (its listener exited without removing it), reset, aborted or not connected.
pub open spec fn disconnects(k: IoErrorKind) -> bool {
    ||| k == IoErrorKind::NotFound
    ||| k == IoErrorKind::ConnectionReset
    ||| k == IoErrorKind::ConnectionRefused
    ||| k == IoErrorKind::ConnectionAborted
    ||| k == IoErrorKind::NotConnected
}

/// Whether an I/O error of kind `k` talking to the multiplex master is
/// reported as a severed connection.
pub fn is_disconnect(k: IoErrorKind) -> (r: bool)
    ensures
        r == disconnects(k),
{
    match k {
        IoErrorKind::NotFound | IoErrorKind::ConnectionReset | IoErrorKind::ConnectionRefused
        | IoErrorKind::ConnectionAborted | IoErrorKind::NotConnected => true,
        _ => false,
    }
}

/// `s` without a leading `ssh: `.
pub open spec fn strip_ssh_prefix(s: Seq<char>) -> Seq<char> {
    if has_prefix(s, "ssh: "@) {
        s.skip("ssh: "@.len() as int)
    } else {
        s
    }
}

/// `s` without the notice that a host was added to the known hosts file,
/// which ends at the first `sep`; nothing is left when no `sep` ends it.
pub open spec fn skip_added_host_notice(s: Seq<char>, sep: Seq<char>) -> Seq<char> {
    if has_prefix(s, "Warning: Permanently added "@) {
        match find_sub(s, sep) {
            Some(i) => s.skip(i + sep.len()),
            None => Seq::empty(),
        }
    } else {
        s
    }
}

/// The part of what `ssh` printed on a failed connection that is reported.
pub open spec fn ssh_error_message(stderr: Seq<char>) -> Seq<char> {
    skip_added_host_notice(strip_ssh_prefix(trim(stderr)), "\r\n"@)
}

/// The text before the first `: ` (all of `msg` if there is none).
pub open spec fn ssh_error_head(msg: Seq<char>) -> Seq<char> {
    match find_sub(msg, ": "@) {
        Some(i) => msg.take(i),
        None => msg,
    }
}

/// The kind of failure that the message `msg` (already cut down by
/// `ssh_error_message`) reports: the text before the first `: ` names the
/// ssh step, the text after it the I/O error.
pub open spec fn ssh_error_kind(msg: Seq<char>) -> IoErrorKind {
    let head = ssh_error_head(msg);
    let base = if has_prefix(head, "Could not resolve"@) {
        IoErrorKind::Other
    } else {
        IoErrorKind::ConnectionAborted
    };
    match find_sub(msg, ": "@) {
        None => base,
        Some(i) => {
            let e = msg.skip(i + ": "@.len());
            let to_host = has_prefix(head, "connect to host"@);
            if e == "Network is unreachable"@ {
                IoErrorKind::Other
            } else if e == "Connection refused"@ {
                IoErrorKind::ConnectionRefused
            } else if to_host && e == "Connection timed out"@ {
                IoErrorKind::TimedOut
            } else if to_host && e == "Operation timed out"@ {
                IoErrorKind::TimedOut
            } else if to_host && e == "Permission denied"@ {
                IoErrorKind::Other
            } else if contains(e, "Permission denied ("@) {
                IoErrorKind::PermissionDenied
            } else {
                base
            }
        },
    }
}

/// The kind of a failed connection is read only from the io error named
/// after the first `: `: an io error that is none of the ones recognised
/// leaves the kind at its base, `Other` when ssh could not resolve the host
/// and `ConnectionAborted` otherwise; and the kind is `ConnectionRefused`
/// exactly when that io error is `Connection refused`.
pub proof fn lemma_error_kind_recognised(msg: Seq<char>)
    ensures
        ssh_error_kind(msg) == IoErrorKind::ConnectionRefused <==> (match find_sub(msg, ": "@) {
            Some(i) => msg.skip(i + 2) == "Connection refused"@,
            None => false,
        }),
        ssh_error_kind(msg) == IoErrorKind::TimedOut ==> has_prefix(msg, "connect to host"@),
        ssh_error_kind(msg) == IoErrorKind::PermissionDenied ==> (match find_sub(msg, ": "@) {
            Some(i) => contains(msg.skip(i + 2), "Permission denied ("@),
            None => false,
        }),
        match find_sub(msg, ": "@) {
            None => ssh_error_kind(msg) == (if has_prefix(msg, "Could not resolve"@) {
                IoErrorKind::Other
            } else {
                IoErrorKind::ConnectionAborted
            }),
            Some(i) => {
                let e = msg.skip(i + 2);
                (e != "Network is unreachable"@ && e != "Connection refused"@ && e
                    != "Connection timed out"@ && e != "Operation timed out"@ && e
                    != "Permission denied"@ && !contains(e, "Permission denied ("@))
                    ==> ssh_error_kind(msg) == (if has_prefix(msg.take(i), "Could not resolve"@) {
                    IoErrorKind::Other
                } else {
                    IoErrorKind::ConnectionAborted
                })
            },
        },
{
    reveal_strlit(": ");
    reveal_strlit("Connection refused");
    reveal_strlit("Network is unreachable");
    match find_sub(msg, ": "@) {
        Some(i) => {
            lemma_find_sub_within(msg, ": "@);
            assert(": "@.len() == 2);
            assert("Network is unreachable"@ != "Connection refused"@) by {
                assert("Network is unreachable"@.len() != "Connection refused"@.len());
            }
            assert(ssh_error_head(msg) == msg.take(i));
            lemma_prefix_of_head(msg, i, "connect to host"@);
        },
        None => {
            assert(ssh_error_head(msg) == msg);
        },
    }
}

/// A prefix of the text before position `i` is a prefix of the whole text.
proof fn lemma_prefix_of_head(msg: Seq<char>, i: int, p: Seq<char>)
    requires
        0 <= i <= msg.len(),
    ensures
        has_prefix(msg.take(i), p) ==> has_prefix(msg, p),
{
    if has_prefix(msg.take(i), p) {
        assert(msg.take(p.len() as int) =~= msg.take(i).take(p.len() as int));
    }
}

fn strip_ssh_prefix_chars(s: Vec<char>) -> (r: Vec<char>)
    ensures
        r@ == strip_ssh_prefix(s@),
{
    let p = chars_of("ssh: ");
    if starts_with_chars(&s, &p) {
        sub_chars(&s, p.len(), s.len())
    } else {
        s
    }
}

fn skip_added_host_notice_chars(s: Vec<char>, sep: &Vec<char>) -> (r: Vec<char>)
    ensures
        r@ == skip_added_host_notice(s@, sep@),
{
    let w = chars_of("Warning: Permanently added ");
    if starts_with_chars(&s, &w) {
        match find_in(&s, sep) {
            Some(i) => {
                let n = s.len();
                sub_chars(&s, i + sep.len(), n)
            },
            None => Vec::new(),
        }
    } else {
        s
    }
}

fn equals_str(v: &Vec<char>, lit: &str) -> (r: bool)
    ensures
        r == (v@ == lit@),
{
    let l = chars_of(lit);
    same_chars(v, &l)
}

fn kind_of_message(msg: &Vec<char>) -> (r: IoErrorKind)
    ensures
        r == ssh_error_kind(msg@),
{
    let colon = chars_of(": ");
    let found = find_in(msg, &colon);
    let head = match found {
        Some(i) => sub_chars(msg, 0, i),
        None => sub_chars(msg, 0, msg.len()),
    };
    assert(msg@.subrange(0, msg@.len() as int) =~= msg@);
    assert(head@ == ssh_error_head(msg@));
    let base = if starts_with_chars(&head, &chars_of("Could not resolve")) {
        IoErrorKind::Other
    } else {
        IoErrorKind::ConnectionAborted
    };
    match found {
        None => base,
        Some(i) => {
            let n = msg.len();
            let e = sub_chars(msg, i + colon.len(), n);
            assert(e@ =~= msg@.skip(i + ": "@.len()));
            let to_host = starts_with_chars(&head, &chars_of("connect to host"));
            if equals_str(&e, "Network is unreachable") {
                IoErrorKind::Other
            } else if equals_str(&e, "Connection refused") {
                IoErrorKind::ConnectionRefused
            } else if to_host && equals_str(&e, "Connection timed out") {
                IoErrorKind::TimedOut
            } else if to_host && equals_str(&e, "Operation timed out") {
                IoErrorKind::TimedOut
            } else if to_host && equals_str(&e, "Permission denied") {
                IoErrorKind::Other
            } else if contains_chars(&e, &chars_of("Permission denied (")) {
                IoErrorKind::PermissionDenied
            } else {
                base
            }
        },
    }
}

/// What a failed connection reports, from what `ssh` printed on its error
/// stream: the kind of failure, and the message, which is the output trimmed,
/// without a leading `ssh: ` and without a leading notice that the host was
/// added to the known hosts file.
pub fn interpret_ssh_error(stderr: &str) -> (r: (IoErrorKind, String))
    ensures
        r.1@ == ssh_error_message(stderr@),
        r.0 == ssh_error_kind(ssh_error_message(stderr@)),
{
    let all = chars_of(stderr);
    let (i, j) = trim_bounds(&all, 0, all.len());
    assert(all@.subrange(0, all@.len() as int) =~= all@);
    let trimmed = sub_chars(&all, i, j);
    let stripped = strip_ssh_prefix_chars(trimmed);
    let msg = skip_added_host_notice_chars(stripped, &chars_of("\r\n"));
    let kind = kind_of_message(&msg);
    (kind, string_of(&msg))
}

/// The error that the master connection wrote to its log `log`, cut down as
/// for a failed connection except that the notice of an added host ends at
/// the first line break and what follows it is trimmed again.
pub open spec fn master_log_message(log: Seq<char>) -> Seq<char> {
    let s = strip_ssh_prefix(trim(log));
    if has_prefix(s, "Warning: Permanently added "@) {
        match find_sub(s, "\n"@) {
            Some(i) => trim(s.skip(i + 1)),
            None => Seq::empty(),
        }
    } else {
        s
    }
}

/// The kind of failure that a master log message reports.
pub open spec fn master_error_kind(msg: Seq<char>) -> IoErrorKind {
    if contains(msg, "Connection to"@) && contains(msg, "closed by remote host"@) {
        IoErrorKind::ConnectionAborted
    } else {
        IoErrorKind::Other
    }
}

/// The error of the master connection, from the contents of its log: `None`
/// when the log, cut down by `master_log_message`, is empty.
pub fn master_error_from_log(log: &str) -> (r: Option<(IoErrorKind, String)>)
    ensures
        match r {
            Some(e) => master_log_message(log@).len() > 0 && e.1@ == master_log_message(log@)
                && e.0 == master_error_kind(master_log_message(log@)),
            None => master_log_message(log@).len() == 0,
        },
{
    let all = chars_of(log);
    let (i, j) = trim_bounds(&all, 0, all.len());
    assert(all@.subrange(0, all@.len() as int) =~= all@);
    let trimmed = sub_chars(&all, i, j);
    let s = strip_ssh_prefix_chars(trimmed);
    let w = chars_of("Warning: Permanently added ");
    let msg = if starts_with_chars(&s, &w) {
        let nl = chars_of("\n");
        match find_in(&s, &nl) {
            Some(k) => {
                proof {
                    reveal_strlit("\n");
                }
                let (a, b) = trim_bounds(&s, k + 1, s.len());
                assert(s@.subrange(k + 1, s@.len() as int) =~= s@.skip(k + 1));
                sub_chars(&s, a, b)
            },
            None => Vec::new(),
        }
    } else {
        s
    };
    assert(msg@ == master_log_message(log@));
    if msg.len() == 0 {
        return None;
    }
    let kind = if contains_chars(&msg, &chars_of("Connection to")) && contains_chars(
        &msg,
        &chars_of("closed by remote host"),
    ) {
        IoErrorKind::ConnectionAborted
    } else {
        IoErrorKind::Other
    };
    Some((kind, string_of(&msg)))
}

} // verus!
