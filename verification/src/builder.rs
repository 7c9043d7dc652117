//! Options of a session, and the `ssh` command line that starts its master
//! connection.

use std::borrow::Cow;
use std::time::Duration;

use vstd::prelude::*;
use vstd::string::*;

use crate::decimal::{
    decimal, decimal_string, is_digit, lemma_decimal_round_trip, lemma_decimal_value, parse_u16,
    parse_u16_spec,
};
use crate::strings::{
    copy_opt_string, copy_strings, find_first, find_last, first_char_index, last_char_index,
    lemma_find_first, lemma_find_last, opt_view, push_str, push_string, starts_with, strings_view,
};

verus! {

/// Specifies how the host's key fingerprint should be handled.
#[derive(Debug, Clone, Copy, PartialEq, Eq, Structural)]
pub enum KnownHosts {
    /// The host's fingerprint must match what is in the known hosts file
    /// (`ssh -o StrictHostKeyChecking=yes`).
    Strict,
    /// Strict, but a host that is not yet in the known hosts file is added
    /// (`ssh -o StrictHostKeyChecking=accept-new`).
    Add,
    /// Accept whatever key the server provides and add it to the known hosts
    /// file (`ssh -o StrictHostKeyChecking=no`).
    Accept,
}

/// The `-o` option that asks `ssh` for the policy `k`.
pub open spec fn known_hosts_option(k: KnownHosts) -> Seq<char> {
    match k {
        KnownHosts::Strict => "StrictHostKeyChecking=yes"@,
        KnownHosts::Add => "StrictHostKeyChecking=accept-new"@,
        KnownHosts::Accept => "StrictHostKeyChecking=no"@,
    }
}

impl KnownHosts {
    /// The `-o` option that asks `ssh` for this policy.
    pub fn as_option(&self) -> (r: &'static str)
        ensures
            r@ == known_hosts_option(*self),
    {
        match *self {
            KnownHosts::Strict => "StrictHostKeyChecking=yes",
            KnownHosts::Add => "StrictHostKeyChecking=accept-new",
            KnownHosts::Accept => "StrictHostKeyChecking=no",
        }
    }
}

/// The seconds of `d`, without the fraction.
pub uninterp spec fn duration_secs(d: Duration) -> u64;

/// `Duration::as_secs`: the whole seconds of `d`, which depend on `d` alone.
#[verifier::external_body]
fn duration_as_secs(d: &Duration) -> (r: u64)
    ensures
        r == duration_secs(*d),
{
    d.as_secs()
}

/// The options of a session builder, as plain values.
pub struct BuilderView {
    pub user: Option<Seq<char>>,
    pub port: Option<Seq<char>>,
    pub keyfile: Option<Seq<char>>,
    pub connect_timeout: Option<Seq<char>>,
    pub server_alive_interval: Option<u64>,
    pub known_hosts_check: KnownHosts,
    pub control_dir: Option<Seq<char>>,
    pub clean_history_control_dir: bool,
    pub config_file: Option<Seq<char>>,
    pub compression: Option<bool>,
    pub jump_hosts: Seq<Seq<char>>,
    pub user_known_hosts_file: Option<Seq<char>>,
    pub ssh_auth_sock: Option<Seq<char>>,
}

/// The options of a builder that nobody has set.
pub open spec fn default_view() -> BuilderView {
    BuilderView {
        user: None,
        port: None,
        keyfile: None,
        connect_timeout: None,
        server_alive_interval: None,
        known_hosts_check: KnownHosts::Add,
        control_dir: None,
        clean_history_control_dir: false,
        config_file: None,
        compression: None,
        jump_hosts: Seq::empty(),
        user_known_hosts_file: None,
        ssh_auth_sock: None,
    }
}

/// Build a session with options.
#[derive(Debug, Clone)]
pub struct SessionBuilder {
    user: Option<String>,
    port: Option<String>,
    keyfile: Option<String>,
    connect_timeout: Option<String>,
    server_alive_interval: Option<u64>,
    known_hosts_check: KnownHosts,
    control_dir: Option<String>,
    clean_history_control_dir: bool,
    config_file: Option<String>,
    compression: Option<bool>,
    jump_hosts: Vec<String>,
    user_known_hosts_file: Option<String>,
    ssh_auth_sock: Option<String>,
}

impl View for SessionBuilder {
    type V = BuilderView;

    closed spec fn view(&self) -> BuilderView {
        BuilderView {
            user: opt_view(self.user),
            port: opt_view(self.port),
            keyfile: opt_view(self.keyfile),
            connect_timeout: opt_view(self.connect_timeout),
            server_alive_interval: self.server_alive_interval,
            known_hosts_check: self.known_hosts_check,
            control_dir: opt_view(self.control_dir),
            clean_history_control_dir: self.clean_history_control_dir,
            config_file: opt_view(self.config_file),
            compression: self.compression,
            jump_hosts: strings_view(self.jump_hosts@),
            user_known_hosts_file: opt_view(self.user_known_hosts_file),
            ssh_auth_sock: opt_view(self.ssh_auth_sock),
        }
    }
}

impl Default for SessionBuilder {
    fn default() -> (r: Self)
        ensures
            r@ == default_view(),
    {
        let r = SessionBuilder {
            user: None,
            port: None,
            keyfile: None,
            connect_timeout: None,
            server_alive_interval: None,
            known_hosts_check: KnownHosts::Add,
            control_dir: None,
            clean_history_control_dir: false,
            config_file: None,
            compression: None,
            jump_hosts: Vec::new(),
            user_known_hosts_file: None,
            ssh_auth_sock: None,
        };
        assert(strings_view(r.jump_hosts@) =~= Seq::<Seq<char>>::empty());
        r
    }
}

impl SessionBuilder {
    /// Set the ssh user (`ssh -l`).
    pub fn user(&mut self, user: String) -> (r: &mut Self)
        ensures
            r@ == (BuilderView { user: Some(user@), ..old(self)@ }),
            *final(self) == *final(r),
    {
        self.user = Some(user);
        self
    }

    /// Set the port to connect on (`ssh -p`), kept as its decimal numeral.
    pub fn port(&mut self, port: u16) -> (r: &mut Self)
        ensures
            r@ == (BuilderView { port: Some(decimal(port as nat)), ..old(self)@ }),
            *final(self) == *final(r),
    {
        self.port = Some(decimal_string(port as u64));
        self
    }

    /// Set the keyfile to use (`ssh -i`).
    pub fn keyfile(&mut self, p: &str) -> (r: &mut Self)
        ensures
            r@ == (BuilderView { keyfile: Some(p@), ..old(self)@ }),
            *final(self) == *final(r),
    {
        self.keyfile = Some(String::from_str(p));
        self
    }

    /// Set how the host's key is checked.
    pub fn known_hosts_check(&mut self, k: KnownHosts) -> (r: &mut Self)
        ensures
            r@ == (BuilderView { known_hosts_check: k, ..old(self)@ }),
            *final(self) == *final(r),
    {
        self.known_hosts_check = k;
        self
    }

    /// Set the connection timeout (`ssh -o ConnectTimeout`), in whole seconds:
    /// any fraction of a second is dropped.
    pub fn connect_timeout(&mut self, d: Duration) -> (r: &mut Self)
        ensures
            r@ == (BuilderView {
                connect_timeout: Some(decimal(duration_secs(d) as nat)),
                ..old(self)@
            }),
            *final(self) == *final(r),
    {
        let secs = duration_as_secs(&d);
        self.connect_timeout = Some(decimal_string(secs));
        self
    }

    /// Set the interval after which, with no data received from the server,
    /// ssh asks the server for a response (`ssh -o ServerAliveInterval`), in
    /// whole seconds.
    pub fn server_alive_interval(&mut self, d: Duration) -> (r: &mut Self)
        ensures
            r@ == (BuilderView { server_alive_interval: Some(duration_secs(d)), ..old(self)@ }),
            *final(self) == *final(r),
    {
        self.server_alive_interval = Some(duration_as_secs(&d));
        self
    }

    /// Set the directory in which the temporary directory holding the control
    /// socket is created. If not set, `./` (the current directory) is used.
    pub fn control_directory(&mut self, p: &str) -> (r: &mut Self)
        ensures
            r@ == (BuilderView { control_dir: Some(p@), ..old(self)@ }),
            *final(self) == *final(r),
    {
        self.control_dir = Some(String::from_str(p));
        self
    }

    /// Whether to remove the control directories that earlier sessions left
    /// behind in the control directory.
    pub fn clean_history_control_directory(&mut self, clean: bool) -> (r: &mut Self)
        ensures
            r@ == (BuilderView { clean_history_control_dir: clean, ..old(self)@ }),
            *final(self) == *final(r),
    {
        self.clean_history_control_dir = clean;
        self
    }

    /// Set an alternative per-user configuration file (`ssh -F`).
    pub fn config_file(&mut self, p: &str) -> (r: &mut Self)
        ensures
            r@ == (BuilderView { config_file: Some(p@), ..old(self)@ }),
            *final(self) == *final(r),
    {
        self.config_file = Some(String::from_str(p));
        self
    }

    /// Enable or disable compression (`ssh -o Compression`).
    pub fn compression(&mut self, compression: bool) -> (r: &mut Self)
        ensures
            r@ == (BuilderView { compression: Some(compression), ..old(self)@ }),
            *final(self) == *final(r),
    {
        self.compression = Some(compression);
        self
    }

    /// Specify the jump hosts (`ssh -J`), in order; they replace any set before.
    pub fn jump_hosts(&mut self, hosts: &[&str]) -> (r: &mut Self)
        ensures
            r@ == (BuilderView {
                jump_hosts: hosts@.map_values(|h: &str| h@),
                ..old(self)@
            }),
            *final(self) == *final(r),
    {
        let mut v: Vec<String> = Vec::new();
        let mut i: usize = 0;
        while i < hosts.len()
            invariant
                i <= hosts@.len(),
                strings_view(v@) =~= hosts@.map_values(|h: &str| h@).take(i as int),
            decreases hosts@.len() - i,
        {
            push_str(&mut v, hosts[i]);
            assert(hosts@.map_values(|h: &str| h@).take(i + 1) =~= hosts@.map_values(
                |h: &str| h@,
            ).take(i as int).push(hosts@[i as int]@));
            i = i + 1;
        }
        assert(hosts@.map_values(|h: &str| h@).take(hosts@.len() as int) =~= hosts@.map_values(
            |h: &str| h@,
        ));
        self.jump_hosts = v;
        self
    }

    /// Specify the `known_hosts` file (`ssh -o UserKnownHostsFile`).
    pub fn user_known_hosts_file(&mut self, p: &str) -> (r: &mut Self)
        ensures
            r@ == (BuilderView { user_known_hosts_file: Some(p@), ..old(self)@ }),
            *final(self) == *final(r),
    {
        self.user_known_hosts_file = Some(String::from_str(p));
        self
    }

    /// Specify the path to the ssh agent's socket (`SSH_AUTH_SOCK`).
    pub fn ssh_auth_sock(&mut self, p: &str) -> (r: &mut Self)
        ensures
            r@ == (BuilderView { ssh_auth_sock: Some(p@), ..old(self)@ }),
            *final(self) == *final(r),
    {
        self.ssh_auth_sock = Some(String::from_str(p));
        self
    }
}

/// The parts that `resolve` takes out of a destination: the user, the port,
/// and what is left of the destination.
pub open spec fn resolve_parts(d: Seq<char>) -> (Option<Seq<char>>, Option<u16>, Seq<char>) {
    if "ssh://"@.len() <= d.len() && d.take("ssh://"@.len() as int) == "ssh://"@ {
        let d1 = d.skip("ssh://"@.len() as int);
        let user = match find_first(d1, '@') {
            Some(at) => Some(d1.take(at)),
            None => None,
        };
        let d2 = match find_first(d1, '@') {
            Some(at) => d1.skip(at + 1),
            None => d1,
        };
        match find_last(d2, ':') {
            Some(colon) => match parse_u16_spec(d2.skip(colon + 1)) {
                Some(p) => (user, Some(p), d2.take(colon)),
                None => (user, None, d2),
            },
            None => (user, None, d2),
        }
    } else {
        (None, None, d)
    }
}

/// The options of `b` once the user and port written in the destination `d`
/// override its own.
pub open spec fn resolve_view(b: BuilderView, d: Seq<char>) -> BuilderView {
    let parts = resolve_parts(d);
    BuilderView {
        user: if parts.0 is Some {
            parts.0
        } else {
            b.user
        },
        port: match parts.1 {
            Some(p) => Some(decimal(p as nat)),
            None => b.port,
        },
        ..b
    }
}

/// Comma-separated list of the jump hosts, as `ssh -J` reads it.
pub open spec fn join_hosts(hs: Seq<Seq<char>>) -> Seq<char>
    decreases hs.len(),
{
    if hs.len() <= 1 {
        if hs.len() == 0 {
            Seq::empty()
        } else {
            hs[0]
        }
    } else {
        join_hosts(hs.drop_last()) + seq![','] + hs.last()
    }
}

/// The flag `flag` and the value `v`, when there is one.
pub open spec fn opt_arg_pair(flag: Seq<char>, v: Option<Seq<char>>) -> Seq<Seq<char>> {
    match v {
        Some(x) => seq![flag, x],
        None => Seq::empty(),
    }
}

/// The option `-o name=v`, when there is a value `v`.
pub open spec fn opt_option(name: Seq<char>, v: Option<Seq<char>>) -> Seq<Seq<char>> {
    match v {
        Some(x) => seq!["-o"@, name + x],
        None => Seq::empty(),
    }
}

/// The fixed head of the master command line: where errors go, the control
/// socket, a persistent backgrounded master in batch mode, and the host key
/// policy.
pub open spec fn master_head(b: BuilderView, log: Seq<char>, master: Seq<char>) -> Seq<Seq<char>> {
    seq![
        "-E"@,
        log,
        "-S"@,
        master,
        "-M"@,
        "-f"@,
        "-N"@,
        "-o"@,
        "ControlPersist=yes"@,
        "-o"@,
        "BatchMode=yes"@,
        "-o"@,
        known_hosts_option(b.known_hosts_check),
    ]
}

/// Timeouts, port and user.
pub open spec fn master_connection_opts(b: BuilderView) -> Seq<Seq<char>> {
    opt_option("ConnectTimeout="@, b.connect_timeout) + opt_option(
        "ServerAliveInterval="@,
        match b.server_alive_interval {
            Some(i) => Some(decimal(i as nat)),
            None => None,
        },
    ) + opt_arg_pair("-p"@, b.port) + opt_arg_pair("-l"@, b.user)
}

/// Key file, configuration file and compression.
pub open spec fn master_identity_opts(b: BuilderView) -> Seq<Seq<char>> {
    (match b.keyfile {
        Some(k) => seq!["-o"@, "IdentitiesOnly=yes"@, "-i"@, k],
        None => Seq::empty(),
    }) + opt_arg_pair("-F"@, b.config_file) + opt_option(
        "Compression="@,
        match b.compression {
            Some(c) => Some(
                if c {
                    "yes"@
                } else {
                    "no"@
                },
            ),
            None => None,
        },
    )
}

/// Jump hosts, known hosts file, and the destination last.
pub open spec fn master_tail(b: BuilderView, dest: Seq<char>) -> Seq<Seq<char>> {
    (if b.jump_hosts.len() > 0 {
        seq!["-J"@, join_hosts(b.jump_hosts)]
    } else {
        Seq::empty()
    }) + opt_option("UserKnownHostsFile="@, b.user_known_hosts_file) + seq![dest]
}

/// The arguments of `ssh` that start the master connection of a session
/// built with options `b`: `log` is the file that receives its errors,
/// `master` its control socket, `dest` the destination.
pub open spec fn master_args_spec(
    b: BuilderView,
    log: Seq<char>,
    master: Seq<char>,
    dest: Seq<char>,
) -> Seq<Seq<char>> {
    master_head(b, log, master) + master_connection_opts(b) + master_identity_opts(b)
        + master_tail(b, dest)
}

fn push_opt_pair(v: &mut Vec<String>, flag: &str, x: &Option<String>)
    ensures
        strings_view(final(v)@) == strings_view(old(v)@) + opt_arg_pair(flag@, opt_view(*x)),
{
    match x {
        Some(s) => {
            push_str(v, flag);
            push_str(v, s.as_str());
        },
        None => {},
    }
    assert(strings_view(v@) =~= strings_view(old(v)@) + opt_arg_pair(flag@, opt_view(*x)));
}

fn push_opt_option(v: &mut Vec<String>, name: &str, x: Option<&str>)
    ensures
        strings_view(final(v)@) == strings_view(old(v)@) + opt_option(
            name@,
            match x {
                Some(s) => Some(s@),
                None => None,
            },
        ),
{
    match x {
        Some(s) => {
            push_str(v, "-o");
            let mut o = String::from_str(name);
            o.append(s);
            push_string(v, o);
        },
        None => {},
    }
    assert(strings_view(v@) =~= strings_view(old(v)@) + opt_option(
        name@,
        match x {
            Some(s) => Some(s@),
            None => None,
        },
    ));
}

fn opt_as_str(x: &Option<String>) -> (r: Option<&str>)
    ensures
        match r {
            Some(s) => opt_view(*x) == Some(s@),
            None => opt_view(*x) is None,
        },
{
    match x {
        Some(s) => Some(s.as_str()),
        None => None,
    }
}

/// The jump hosts joined by commas.
pub fn join_jump_hosts(hosts: &Vec<String>) -> (r: String)
    ensures
        r@ == join_hosts(strings_view(hosts@)),
{
    let ghost hs = strings_view(hosts@);
    let n = hosts.len();
    if n == 0 {
        return String::new();
    }
    let mut s = hosts[0].clone();
    assert(hs.take(1).len() == 1);
    assert(hs.take(1)[0] == hs[0]);
    let mut i: usize = 1;
    while i < n
        invariant
            n == hosts@.len(),
            hs == strings_view(hosts@),
            1 <= i <= n,
            s@ == join_hosts(hs.take(i as int)),
        decreases n - i,
    {
        push_char_comma(&mut s);
        s.append(hosts[i].as_str());
        assert(hs.take(i + 1).drop_last() =~= hs.take(i as int));
        assert(hs.take(i + 1).last() == hosts@[i as int]@);
        i = i + 1;
    }
    assert(hs.take(n as int) =~= hs);
    s
}

fn push_char_comma(s: &mut String)
    ensures
        final(s)@ == old(s)@ + seq![','],
{
    crate::decimal::push_char(s, ',');
    assert(old(s)@.push(',') =~= old(s)@ + seq![',']);
}

impl SessionBuilder {
    /// The user set, if any.
    pub fn get_user(&self) -> (r: Option<&str>)
        ensures
            match r {
                Some(s) => self@.user == Some(s@),
                None => self@.user is None,
            },
    {
        opt_as_str(&self.user)
    }

    /// The port set, if any, as its decimal numeral.
    pub fn get_port(&self) -> (r: Option<&str>)
        ensures
            match r {
                Some(s) => self@.port == Some(s@),
                None => self@.port is None,
            },
    {
        opt_as_str(&self.port)
    }

    /// The directory that receives the control directories, if set.
    pub fn get_control_directory(&self) -> (r: Option<&str>)
        ensures
            match r {
                Some(s) => self@.control_dir == Some(s@),
                None => self@.control_dir is None,
            },
    {
        opt_as_str(&self.control_dir)
    }

    /// The directory in which the temporary directory holding the control
    /// socket is created: the one set, else `./`.
    pub fn socket_directory(&self) -> (r: &str)
        ensures
            r@ == match self@.control_dir {
                Some(d) => d,
                None => "./"@,
            },
    {
        match opt_as_str(&self.control_dir) {
            Some(d) => d,
            None => default_control_dir(),
        }
    }

    /// Whether directories left by earlier sessions are to be removed.
    pub fn get_clean_history_control_directory(&self) -> (r: bool)
        ensures
            r == self@.clean_history_control_dir,
    {
        self.clean_history_control_dir
    }

    /// The path of the ssh agent's socket, if set.
    pub fn get_ssh_auth_sock(&self) -> (r: Option<&str>)
        ensures
            match r {
                Some(s) => self@.ssh_auth_sock == Some(s@),
                None => self@.ssh_auth_sock is None,
            },
    {
        opt_as_str(&self.ssh_auth_sock)
    }

    /// How the host's key is checked.
    pub fn get_known_hosts_check(&self) -> (r: KnownHosts)
        ensures
            r == self@.known_hosts_check,
    {
        self.known_hosts_check
    }

    /// A builder with the same options.
    pub fn duplicate(&self) -> (r: Self)
        ensures
            r@ == self@,
    {
        SessionBuilder {
            user: copy_opt_string(&self.user),
            port: copy_opt_string(&self.port),
            keyfile: copy_opt_string(&self.keyfile),
            connect_timeout: copy_opt_string(&self.connect_timeout),
            server_alive_interval: self.server_alive_interval,
            known_hosts_check: self.known_hosts_check,
            control_dir: copy_opt_string(&self.control_dir),
            clean_history_control_dir: self.clean_history_control_dir,
            config_file: copy_opt_string(&self.config_file),
            compression: self.compression,
            jump_hosts: copy_strings(&self.jump_hosts),
            user_known_hosts_file: copy_opt_string(&self.user_known_hosts_file),
            ssh_auth_sock: copy_opt_string(&self.ssh_auth_sock),
        }
    }

    /// Takes the user and port out of a destination of the form
    /// `ssh://[user@]host[:port]`: they override the options of this builder
    /// in the builder returned, which is this one, borrowed, when the
    /// destination names neither. A port that is not a number stays part of
    /// the host. Any other destination is returned as it is.
    pub fn resolve<'a, 'b>(&'a self, destination: &'b str) -> (r: (Cow<'a, Self>, &'b str))
        ensures
            r.0@ == resolve_view(self@, destination@),
            r.1@ == resolve_parts(destination@).2,
            (resolve_parts(destination@).0 is None && resolve_parts(destination@).1 is None)
                ==> r.0 matches Cow::Borrowed(_),
            (resolve_parts(destination@).0 is Some || resolve_parts(destination@).1 is Some)
                ==> r.0 matches Cow::Owned(_),
    {
        let mut dest: &'b str = destination;
        let mut user: Option<&'b str> = None;
        let mut port: Option<u16> = None;
        proof {
            reveal_strlit("ssh://");
        }
        if starts_with(destination, "ssh://") {
            let n = destination.unicode_len();
            dest = destination.substring_char(6, n);
            let ghost d1 = dest@;
            match first_char_index(dest, '@') {
                Some(at) => {
                    let len1 = dest.unicode_len();
                    user = Some(dest.substring_char(0, at));
                    dest = dest.substring_char(at + 1, len1);
                },
                None => {},
            }
            let ghost d2 = dest@;
            match last_char_index(dest, ':') {
                Some(colon) => {
                    let len2 = dest.unicode_len();
                    let p = dest.substring_char(colon + 1, len2);
                    match parse_u16(p) {
                        Some(v) => {
                            port = Some(v);
                            dest = dest.substring_char(0, colon);
                        },
                        None => {},
                    }
                },
                None => {},
            }
        }
        if user.is_none() && port.is_none() {
            assert(self@ == resolve_view(self@, destination@));
            return (Cow::Borrowed(self), dest);
        }
        let mut with_overrides = self.duplicate();
        match user {
            Some(u) => {
                with_overrides.user(String::from_str(u));
            },
            None => {},
        }
        match port {
            Some(p) => {
                with_overrides.port(p);
            },
            None => {},
        }
        (Cow::Owned(with_overrides), dest)
    }

    fn push_master_head(&self, v: &mut Vec<String>, log: &str, master: &str)
        ensures
            strings_view(final(v)@) == strings_view(old(v)@) + master_head(self@, log@, master@),
    {
        push_str(v, "-E");
        push_str(v, log);
        push_str(v, "-S");
        push_str(v, master);
        push_str(v, "-M");
        push_str(v, "-f");
        push_str(v, "-N");
        push_str(v, "-o");
        push_str(v, "ControlPersist=yes");
        push_str(v, "-o");
        push_str(v, "BatchMode=yes");
        push_str(v, "-o");
        push_str(v, self.known_hosts_check.as_option());
        assert(strings_view(v@) =~= strings_view(old(v)@) + master_head(self@, log@, master@));
    }

    fn push_connection_opts(&self, v: &mut Vec<String>)
        ensures
            strings_view(final(v)@) == strings_view(old(v)@) + master_connection_opts(self@),
    {
        let ghost s0 = strings_view(v@);
        push_opt_option(v, "ConnectTimeout=", opt_as_str(&self.connect_timeout));
        let ghost s1 = strings_view(v@);
        let interval = match self.server_alive_interval {
            Some(i) => Some(decimal_string(i)),
            None => None,
        };
        push_opt_option(v, "ServerAliveInterval=", opt_as_str(&interval));
        let ghost s2 = strings_view(v@);
        push_opt_pair(v, "-p", &self.port);
        let ghost s3 = strings_view(v@);
        push_opt_pair(v, "-l", &self.user);
        assert(strings_view(v@) =~= s0 + master_connection_opts(self@));
    }

    fn push_identity_opts(&self, v: &mut Vec<String>)
        ensures
            strings_view(final(v)@) == strings_view(old(v)@) + master_identity_opts(self@),
    {
        let ghost s0 = strings_view(v@);
        match &self.keyfile {
            Some(k) => {
                push_str(v, "-o");
                push_str(v, "IdentitiesOnly=yes");
                push_str(v, "-i");
                push_str(v, k.as_str());
            },
            None => {},
        }
        let ghost s1 = strings_view(v@);
        push_opt_pair(v, "-F", &self.config_file);
        let compression = match self.compression {
            Some(c) => Some(
                if c {
                    "yes"
                } else {
                    "no"
                },
            ),
            None => None,
        };
        push_opt_option(v, "Compression=", compression);
        assert(strings_view(v@) =~= s0 + master_identity_opts(self@));
    }

    fn push_tail(&self, v: &mut Vec<String>, destination: &str)
        ensures
            strings_view(final(v)@) == strings_view(old(v)@) + master_tail(self@, destination@),
    {
        let ghost s0 = strings_view(v@);
        if self.jump_hosts.len() > 0 {
            push_str(v, "-J");
            let joined = join_jump_hosts(&self.jump_hosts);
            push_string(v, joined);
        }
        let ghost s1 = strings_view(v@);
        push_opt_option(v, "UserKnownHostsFile=", opt_as_str(&self.user_known_hosts_file));
        push_str(v, destination);
        assert(strings_view(v@) =~= s0 + master_tail(self@, destination@));
    }

    /// The arguments of `ssh` that start the master connection with these
    /// options: `log` receives its errors, `master` is its control socket.
    pub fn master_args(&self, log: &str, master: &str, destination: &str) -> (r: Vec<String>)
        ensures
            strings_view(r@) == master_args_spec(self@, log@, master@, destination@),
    {
        let mut v: Vec<String> = Vec::new();
        assert(strings_view(v@) =~= Seq::<Seq<char>>::empty());
        self.push_master_head(&mut v, log, master);
        self.push_connection_opts(&mut v);
        self.push_identity_opts(&mut v);
        self.push_tail(&mut v, destination);
        assert(strings_view(v@) =~= master_args_spec(self@, log@, master@, destination@));
        v
    }
}

/// A destination written `ssh://user@host:port` gives back its parts: the
/// user (which holds no `@`), the port, and the host, whatever the host
/// holds.
pub proof fn lemma_resolve_uri(user: Seq<char>, host: Seq<char>, port: u16)
    requires
        !user.contains('@'),
    ensures
        resolve_parts(
            "ssh://"@ + user + seq!['@'] + host + seq![':'] + decimal(port as nat),
        ) == (Some(user), Some(port), host),
{
    let p = "ssh://"@;
    let dp = decimal(port as nat);
    let d = p + user + seq!['@'] + host + seq![':'] + dp;
    assert(d.take(p.len() as int) =~= p);
    let d1 = d.skip(p.len() as int);
    assert(d1 =~= user + seq!['@'] + host + seq![':'] + dp);
    assert forall|k: int| 0 <= k < user.len() implies d1[k] != '@' by {
        assert(d1[k] == user[k]);
        if user[k] == '@' {
            assert(user.contains('@'));
        }
    }
    assert(d1[user.len() as int] == '@');
    lemma_find_first(d1, '@', user.len() as int);
    assert(d1.take(user.len() as int) =~= user);
    let d2 = d1.skip(user.len() as int + 1);
    assert(d2 =~= host + seq![':'] + dp);
    lemma_decimal_value(port as nat);
    assert forall|k: int| host.len() < k < d2.len() implies d2[k] != ':' by {
        assert(d2[k] == dp[k - host.len() - 1]);
        assert(is_digit(dp[k - host.len() - 1]));
    }
    assert(d2[host.len() as int] == ':');
    lemma_find_last(d2, ':', host.len() as int);
    assert(d2.skip(host.len() as int + 1) =~= dp);
    assert(d2.take(host.len() as int) =~= host);
    lemma_decimal_round_trip(port);
}

/// A destination that does not start with `ssh://` is left as it is, and
/// overrides nothing.
pub proof fn lemma_resolve_plain(d: Seq<char>)
    requires
        !(d.len() >= "ssh://"@.len() && d.take("ssh://"@.len() as int) == "ssh://"@),
    ensures
        resolve_parts(d) == (None::<Seq<char>>, None::<u16>, d),
{
}

/// The master connection is started with the host key policy of the
/// builder: its 12th and 13th arguments are `-o` and the policy's option
/// (`yes` for `Strict`, `accept-new` for `Add`, `no` for `Accept`), whatever
/// the other options are.
pub proof fn lemma_master_args_host_key_policy(
    b: BuilderView,
    log: Seq<char>,
    master: Seq<char>,
    dest: Seq<char>,
)
    ensures
        master_args_spec(b, log, master, dest).len() > 13,
        master_args_spec(b, log, master, dest)[11] == "-o"@,
        master_args_spec(b, log, master, dest)[12] == known_hosts_option(b.known_hosts_check),
        b.known_hosts_check == KnownHosts::Strict ==> master_args_spec(b, log, master, dest)[12]
            == "StrictHostKeyChecking=yes"@,
        b.known_hosts_check == KnownHosts::Add ==> master_args_spec(b, log, master, dest)[12]
            == "StrictHostKeyChecking=accept-new"@,
        b.known_hosts_check == KnownHosts::Accept ==> master_args_spec(b, log, master, dest)[12]
            == "StrictHostKeyChecking=no"@,
{
    let head = master_head(b, log, master);
    let rest = master_connection_opts(b) + master_identity_opts(b) + master_tail(b, dest);
    assert(head.len() == 13);
    assert(master_tail(b, dest).len() >= 1);
    assert(master_args_spec(b, log, master, dest) =~= head + rest);
    assert((head + rest)[11] == head[11]);
    assert((head + rest)[12] == head[12]);
}

/// `resolve` only replaces the options that the destination writes: with no
/// user in the destination the builder's own user stays, with no port its
/// own port stays, and every other option is kept as it was.
pub proof fn lemma_resolve_keeps_unwritten(b: BuilderView, d: Seq<char>)
    ensures
        resolve_parts(d).0 is None ==> resolve_view(b, d).user == b.user,
        resolve_parts(d).1 is None ==> resolve_view(b, d).port == b.port,
        resolve_parts(d).0 matches Some(u) ==> resolve_view(b, d).user == Some(u),
        resolve_parts(d).1 matches Some(p) ==> resolve_view(b, d).port == Some(decimal(p as nat)),
        resolve_view(b, d).keyfile == b.keyfile,
        resolve_view(b, d).connect_timeout == b.connect_timeout,
        resolve_view(b, d).server_alive_interval == b.server_alive_interval,
        resolve_view(b, d).known_hosts_check == b.known_hosts_check,
        resolve_view(b, d).control_dir == b.control_dir,
        resolve_view(b, d).clean_history_control_dir == b.clean_history_control_dir,
        resolve_view(b, d).config_file == b.config_file,
        resolve_view(b, d).compression == b.compression,
        resolve_view(b, d).jump_hosts == b.jump_hosts,
        resolve_view(b, d).user_known_hosts_file == b.user_known_hosts_file,
        resolve_view(b, d).ssh_auth_sock == b.ssh_auth_sock,
{
}

/// The prefix of the names of the temporary directories that hold a
/// session's control socket and log.
pub fn control_dir_prefix() -> (r: &'static str)
    ensures
        r@ == ".ssh-connection"@,
{
    ".ssh-connection"
}

/// Whether an entry of the control directory was left by an earlier session
/// and is to be removed: a directory whose name starts with `prefix`, other
/// than the current session's own.
pub fn is_stale_control_dir(is_dir: bool, name: &str, prefix: &str, is_current: bool) -> (r: bool)
    ensures
        r == (is_dir && prefix@.len() <= name@.len() && name@.take(prefix@.len() as int)
            == prefix@ && !is_current),
{
    is_dir && starts_with(name, prefix) && !is_current
}

/// The directory that receives control directories when none is set: the
/// current directory.
pub fn default_control_dir() -> (r: &'static str)
    ensures
        r@ == "./"@,
{
    "./"
}

} // verus!
