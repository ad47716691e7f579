//! The dispatcher: the program and arguments that each operation hands to
//! the secure-shell or secure-copy client, and how an install is reported.
use vstd::prelude::*;

use crate::address::{is_remote_spec, remote_parts, scan, CharClass, UsageError};
use crate::config::{Config, ConfigView};
use crate::server::{Server, ServerView};
use crate::text::{decimal, u16_to_decimal};

verus! {

/// A program to run and its arguments.
#[derive(Debug)]
pub struct Invocation {
    pub program: String,
    pub args: Vec<String>,
}

/// What an `Invocation` holds, as mathematical values.
pub struct InvocationView {
    pub program: Seq<char>,
    pub args: Seq<Seq<char>>,
}

/// The views of a sequence of strings.
pub open spec fn strings_view(v: Seq<String>) -> Seq<Seq<char>> {
    v.map_values(|s: String| s@)
}

impl View for Invocation {
    type V = InvocationView;

    open spec fn view(&self) -> InvocationView {
        InvocationView { program: self.program@, args: strings_view(self.args@) }
    }
}

/// `user@address`.
pub open spec fn login_of(s: ServerView) -> Seq<char> {
    s.username + "@"@ + s.address
}

/// The secure-shell client's port flag.
pub open spec fn ssh_port_flag(port: u16) -> Seq<char> {
    "-p"@ + decimal(port as nat)
}

/// The secure-copy client's flag: the port, and recursion where asked.
pub open spec fn scp_flag(port: u16, recursive: bool) -> Seq<char> {
    if recursive {
        "-rP"@ + decimal(port as nat)
    } else {
        "-P"@ + decimal(port as nat)
    }
}

/// `user@address:path`.
pub open spec fn remote_of(s: ServerView, path: Seq<char>) -> Seq<char> {
    login_of(s) + ":"@ + path
}

/// `s` without its carriage returns and line feeds.
pub open spec fn strip_line_ends(s: Seq<char>) -> Seq<char>
    decreases s.len(),
{
    if s.len() == 0 {
        s
    } else if s.last() == '\n' || s.last() == '\r' {
        strip_line_ends(s.drop_last())
    } else {
        strip_line_ends(s.drop_last()).push(s.last())
    }
}

/// The remote command that appends `key` to the authorized keys unless it
/// is there already.
pub open spec fn install_command(key: Seq<char>) -> Seq<char> {
    "grep -cq '"@ + key + "' ~/.ssh/authorized_keys || echo "@ + key
        + " >> ~/.ssh/authorized_keys ; exit 0;"@
}

/// The session that `connect` opens.
pub open spec fn connect_view(cfg: ConfigView, s: ServerView) -> InvocationView {
    InvocationView { program: cfg.ssh_client_app_path, args: seq![login_of(s), ssh_port_flag(s.port)] }
}

/// The copy that `upload` makes.
pub open spec fn upload_view(cfg: ConfigView, s: ServerView, local: Seq<Seq<char>>, path: Seq<char>, recursive: bool) -> InvocationView {
    InvocationView {
        program: cfg.scp_app_path,
        args: seq![scp_flag(s.port, recursive)] + local + seq![remote_of(s, path)],
    }
}

/// The copy that `download` makes.
pub open spec fn download_view(cfg: ConfigView, s: ServerView, local: Seq<char>, path: Seq<char>, recursive: bool) -> InvocationView {
    InvocationView {
        program: cfg.scp_app_path,
        args: seq![scp_flag(s.port, recursive), remote_of(s, path), local],
    }
}

/// How a launched client ended.
#[derive(Debug, Clone, Copy, PartialEq, Eq, Structural)]
pub enum ProcessResult {
    /// It exited with this code.
    Exited(i32),
    /// It ended without an exit code (by a signal).
    NoCode,
    /// It could not be launched.
    LaunchFailed,
}

/// The three outcomes of installing a key.
#[derive(Debug, Clone, Copy, PartialEq, Eq, Structural)]
pub enum InstallOutcome {
    Installed,
    Failed,
    LaunchError,
}

impl InstallOutcome {
    /// The line that reports this outcome for a server at `address`.
    pub fn message(&self, address: &str) -> (r: String)
        ensures
            r@ == match self {
                InstallOutcome::Installed => "Key has been install to "@ + address@,
                InstallOutcome::Failed => "Cannot install key to "@ + address@,
                InstallOutcome::LaunchError => "Fatal error while install key"@,
            },
    {
        match self {
            InstallOutcome::Installed => {
                let mut r = String::from_str("Key has been install to ");
                r.append(address);
                r
            },
            InstallOutcome::Failed => {
                let mut r = String::from_str("Cannot install key to ");
                r.append(address);
                r
            },
            InstallOutcome::LaunchError => String::from_str("Fatal error while install key"),
        }
    }
}

/// The structure that dispatches operations with a configuration.
#[derive(Debug)]
pub struct App {
    config: Config,
}

fn login(server: &Server) -> (r: String)
    ensures
        r@ == login_of(server@),
{
    let mut r = server.username.clone();
    r.append("@");
    r.append(server.address.as_str());
    r
}

fn flag_with_port(prefix: &str, port: u16) -> (r: String)
    ensures
        r@ == prefix@ + decimal(port as nat),
{
    let mut r = String::from_str(prefix);
    let digits = u16_to_decimal(port);
    r.append(digits.as_str());
    r
}

fn scp_flag_of(port: u16, recursive: bool) -> (r: String)
    ensures
        r@ == scp_flag(port, recursive),
{
    if recursive {
        flag_with_port("-rP", port)
    } else {
        flag_with_port("-P", port)
    }
}

fn remote_location(server: &Server, path: &str) -> (r: String)
    ensures
        r@ == remote_of(server@, path@),
{
    let mut r = login(server);
    r.append(":");
    r.append(path);
    r
}

/// `s` without its carriage returns and line feeds.
pub fn strip_line_ends_of(s: &str) -> (r: String)
    ensures
        r@ == strip_line_ends(s@),
{
    let len = s.unicode_len();
    let mut r = String::new();
    let mut i: usize = 0;
    assert(s@.take(0) =~= Seq::<char>::empty());
    while i < len
        invariant
            len == s@.len(),
            i <= len,
            r@ == strip_line_ends(s@.take(i as int)),
        decreases len - i,
    {
        let c = s.get_char(i);
        proof {
            assert(s@.take(i + 1).drop_last() =~= s@.take(i as int));
            assert(s@.take(i + 1).last() == c);
        }
        if c != '\n' && c != '\r' {
            let one = s.substring_char(i, i + 1);
            assert(one@ =~= seq![c]);
            r.append(one);
        }
        i = i + 1;
    }
    assert(s@.take(len as int) =~= s@);
    r
}

impl App {
    pub closed spec fn config(&self) -> ConfigView {
        self.config@
    }

    /// The dispatcher for `config`.
    pub fn init(config: Config) -> (r: Self)
        ensures
            r.config() == config@,
    {
        App { config }
    }

    /// The configuration this dispatcher works with.
    pub fn settings(&self) -> (r: &Config)
        ensures
            r@ == self.config(),
    {
        &self.config
    }

    /// Opens a terminal session: the secure-shell client with the login and
    /// the port flag.
    pub fn connect(&self, server: &Server) -> (r: Invocation)
        ensures
            r@ == connect_view(self.config(), server@),
    {
        let args = vec![login(server), flag_with_port("-p", server.port)];
        let r = Invocation { program: self.config.ssh_client_app_path.clone(), args };
        assert(r@.args =~= seq![login_of(server@), ssh_port_flag(server.port)]);
        r
    }

    /// Installs the public key `key_text`: the secure-shell client with the
    /// login, the port flag and the command that appends the key, stripped
    /// of line ends, unless it is there already.
    pub fn copy_id(&self, server: &Server, key_text: &str) -> (r: Invocation)
        ensures
            r@ == (InvocationView {
                program: self.config().ssh_client_app_path,
                args: seq![
                    login_of(server@),
                    ssh_port_flag(server.port),
                    install_command(strip_line_ends(key_text@)),
                ],
            }),
    {
        let key = strip_line_ends_of(key_text);
        let mut command = String::from_str("grep -cq '");
        command.append(key.as_str());
        command.append("' ~/.ssh/authorized_keys || echo ");
        command.append(key.as_str());
        command.append(" >> ~/.ssh/authorized_keys ; exit 0;");
        let args = vec![login(server), flag_with_port("-p", server.port), command];
        let r = Invocation { program: self.config.ssh_client_app_path.clone(), args };
        assert(r@.args =~= seq![
            login_of(server@),
            ssh_port_flag(server.port),
            install_command(strip_line_ends(key_text@)),
        ]);
        r
    }

    /// Copies the local paths to `remote` on the server: the secure-copy
    /// client with the flag, every local path, then the destination. An
    /// upload needs at least one local path.
    pub fn upload(&self, server: &Server, local: &Vec<String>, remote: &str, recursive: bool) -> (r: Result<Invocation, UsageError>)
        ensures
            local@.len() == 0 <==> r matches Err(UsageError::NoLocalPath),
            local@.len() > 0 <==> r is Ok,
            r matches Ok(inv) ==> inv@ == upload_view(self.config(), server@, strings_view(local@), remote@, recursive),
    {
        if local.len() == 0 {
            return Err(UsageError::NoLocalPath);
        }
        let mut args: Vec<String> = vec![scp_flag_of(server.port, recursive)];
        let mut i: usize = 0;
        while i < local.len()
            invariant
                i <= local@.len(),
                strings_view(args@) =~= seq![scp_flag(server.port, recursive)] + strings_view(local@.take(i as int)),
            decreases local.len() - i,
        {
            let ghost prev = args@;
            args.push(local[i].clone());
            assert(strings_view(args@) =~= strings_view(prev).push(local@[i as int]@));
            assert(strings_view(local@.take(i + 1)) =~= strings_view(local@.take(i as int)).push(local@[i as int]@));
            i = i + 1;
        }
        assert(local@.take(i as int) =~= local@);
        let ghost prev = args@;
        let dest = remote_location(server, remote);
        args.push(dest);
        assert(strings_view(args@) =~= strings_view(prev).push(dest@));
        let r = Invocation { program: self.config.scp_app_path.clone(), args };
        assert(r@.args =~= seq![scp_flag(server.port, recursive)] + strings_view(local@) + seq![remote_of(server@, remote@)]);
        Ok(r)
    }

    /// Copies `remote` on the server to the one local path: the secure-copy
    /// client with the flag, the source, then the destination. A download
    /// needs exactly one local path.
    pub fn download(&self, server: &Server, local: &Vec<String>, remote: &str, recursive: bool) -> (r: Result<Invocation, UsageError>)
        ensures
            local@.len() != 1 <==> (r matches Err(UsageError::LocalPathCount(n)) && n == local@.len()),
            local@.len() == 1 <==> r is Ok,
            r matches Ok(inv) ==> inv@ == download_view(self.config(), server@, local@[0]@, remote@, recursive),
    {
        if local.len() != 1 {
            return Err(UsageError::LocalPathCount(local.len()));
        }
        let args = vec![scp_flag_of(server.port, recursive), remote_location(server, remote), local[0].clone()];
        let r = Invocation { program: self.config.scp_app_path.clone(), args };
        assert(r@.args =~= seq![scp_flag(server.port, recursive), remote_of(server@, remote@), local@[0]@]);
        Ok(r)
    }

    /// Splits a remote path reference `alias:path` at its first colon; it
    /// must hold one.
    pub fn parse_remote(remote: &str) -> (r: Result<(String, String), UsageError>)
        ensures
            is_remote_spec(remote@) <==> r is Ok,
            r matches Ok(parts) ==> (parts.0@, parts.1@) == remote_parts(remote@),
            !is_remote_spec(remote@) <==> (r matches Err(UsageError::InvalidRemoteSpec(input)) && input@ == remote@),
    {
        let len = remote.unicode_len();
        let i = scan(remote, len, 0, CharClass::NotColon);
        if i >= len {
            return Err(UsageError::InvalidRemoteSpec(String::from_str(remote)));
        }
        let alias = String::from_str(remote.substring_char(0, i));
        let path = String::from_str(remote.substring_char(i + 1, len));
        Ok((alias, path))
    }

    /// How the outcome of installing a key reads from the client's end: an
    /// exit code of zero is success, any other ending failure, and a client
    /// that could not be launched an error of its own.
    pub fn install_outcome(result: &ProcessResult) -> (r: InstallOutcome)
        ensures
            r == match result {
                ProcessResult::Exited(0) => InstallOutcome::Installed,
                ProcessResult::Exited(_) | ProcessResult::NoCode => InstallOutcome::Failed,
                ProcessResult::LaunchFailed => InstallOutcome::LaunchError,
            },
    {
        match result {
            ProcessResult::Exited(code) => if *code == 0 {
                InstallOutcome::Installed
            } else {
                InstallOutcome::Failed
            },
            ProcessResult::NoCode => InstallOutcome::Failed,
            ProcessResult::LaunchFailed => InstallOutcome::LaunchError,
        }
    }
}

} // verus!
