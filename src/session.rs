//! One invocation of the manager: what a command does to the registry and
//! which actions it asks of the caller, in order.
use vstd::prelude::*;

use crate::address::{is_remote_spec, remote_parts};
use crate::cli::{Cli, Commands};
use crate::config::{opt_view, setting, Config, ConfigView};
use crate::dispatch::{connect_view, download_view, strings_view, upload_view, App, Invocation, InvocationView};
use crate::server::{Server, ServerCollection, ServerView};

verus! {

/// What the caller is asked to do.
#[derive(Debug)]
pub enum Action {
    /// Run a client and wait for it; its exit status is not inspected.
    Spawn(Invocation),
    /// Read the public key, run `App::copy_id` for this server and report
    /// the outcome.
    InstallKey(Server),
    /// Show the registry as a table.
    ShowTable,
    /// Write the registry, as it stands after the command, to its file.
    SaveRegistry,
    /// Print a line.
    Print(String),
    /// Print a line and end with a failure status.
    Fail(String),
    /// Check that this path exists; where it does not, report it and end
    /// with a failure status.
    RequireExists(String),
    /// Write this configuration to its file.
    SaveConfig(Config),
}

/// What an `Action` holds, as mathematical values.
pub enum ActionView {
    Spawn(InvocationView),
    InstallKey(ServerView),
    ShowTable,
    SaveRegistry,
    Print(Seq<char>),
    Fail(Seq<char>),
    RequireExists(Seq<char>),
    SaveConfig(ConfigView),
}

impl View for Action {
    type V = ActionView;

    open spec fn view(&self) -> ActionView {
        match self {
            Action::Spawn(i) => ActionView::Spawn(i@),
            Action::InstallKey(s) => ActionView::InstallKey(s@),
            Action::ShowTable => ActionView::ShowTable,
            Action::SaveRegistry => ActionView::SaveRegistry,
            Action::Print(m) => ActionView::Print(m@),
            Action::Fail(m) => ActionView::Fail(m@),
            Action::RequireExists(p) => ActionView::RequireExists(p@),
            Action::SaveConfig(c) => ActionView::SaveConfig(c@),
        }
    }
}

/// The views of a sequence of actions.
pub open spec fn actions_view(v: Seq<Action>) -> Seq<ActionView> {
    v.map_values(|a: Action| a@)
}

pub open spec fn not_found_message() -> Seq<char> {
    "Cannot find specify alias"@
}

pub open spec fn one_local_path_message() -> Seq<char> {
    "local path must be one"@
}

pub open spec fn no_local_path_message() -> Seq<char> {
    "local path must be given"@
}

/// The actions of a copy between `local` and `remote`.
pub open spec fn copy_actions(
    cfg: ConfigView,
    recursive: bool,
    download: bool,
    local: Seq<Seq<char>>,
    remote: Seq<char>,
    reg: Map<Seq<char>, ServerView>,
) -> Seq<ActionView> {
    let (alias, path) = remote_parts(remote);
    if !is_remote_spec(remote) {
        seq![ActionView::Fail(remote + " is not a valid remote path"@)]
    } else if download && local.len() != 1 {
        seq![ActionView::Fail(one_local_path_message())]
    } else if !download && local.len() == 0 {
        seq![ActionView::Fail(no_local_path_message())]
    } else if !reg.contains_key(alias) {
        seq![ActionView::ShowTable]
    } else if download {
        seq![ActionView::Spawn(download_view(cfg, reg[alias], local[0], path, recursive))]
    } else {
        seq![ActionView::Spawn(upload_view(cfg, reg[alias], local, path, recursive))]
    }
}

/// The actions of a command, and the registry it leaves.
pub open spec fn command_effect(
    cfg: ConfigView,
    command: Option<Commands>,
    reg: Map<Seq<char>, ServerView>,
) -> (Seq<ActionView>, Map<Seq<char>, ServerView>) {
    match command {
        None => (seq![], reg),
        Some(Commands::Create { alias, username, address, port }) => if reg.contains_key(alias@) {
            (seq![ActionView::Print("Server alias "@ + alias@ + " was already exists"@)], reg)
        } else {
            (
                seq![ActionView::SaveRegistry, ActionView::ShowTable],
                reg.insert(alias@, ServerView { username: username@, address: address@, port }),
            )
        },
        Some(Commands::Remove { alias }) => (
            seq![ActionView::SaveRegistry, ActionView::Print("Server alias "@ + alias@ + " has been removed"@)],
            reg.remove(alias@),
        ),
        Some(Commands::Modify { alias, username, address, port }) => if reg.contains_key(alias@) {
            let s = reg[alias@];
            (
                seq![ActionView::SaveRegistry],
                reg.insert(
                    alias@,
                    ServerView {
                        username: setting(opt_view(&username), s.username),
                        address: setting(opt_view(&address), s.address),
                        port: match port {
                            Some(p) => p,
                            None => s.port,
                        },
                    },
                ),
            )
        } else {
            (seq![ActionView::Print(not_found_message())], reg)
        },
        Some(Commands::Rename { alias, new_alias }) => if reg.contains_key(alias@) {
            (
                seq![
                    ActionView::SaveRegistry,
                    ActionView::Print("Server alias "@ + alias@ + " has been rename to "@ + new_alias@),
                ],
                reg.remove(alias@).insert(new_alias@, reg[alias@]),
            )
        } else {
            (seq![ActionView::Print(not_found_message())], reg)
        },
        Some(Commands::Go { alias }) => (
            if reg.contains_key(alias@) {
                seq![ActionView::Spawn(connect_view(cfg, reg[alias@]))]
            } else {
                seq![ActionView::ShowTable]
            },
            reg,
        ),
        Some(Commands::List {  }) => (seq![ActionView::ShowTable], reg),
        Some(Commands::Link { alias }) => (
            if reg.contains_key(alias@) {
                seq![ActionView::InstallKey(reg[alias@])]
            } else {
                seq![ActionView::ShowTable]
            },
            reg,
        ),
        Some(Commands::Copy { recursive, download, local, remote }) => (
            copy_actions(cfg, recursive, download, strings_view(local@), remote@, reg),
            reg,
        ),
        Some(Commands::Download { recursive, remote, local }) => (
            copy_actions(cfg, recursive, true, seq![local@], remote@, reg),
            reg,
        ),
        Some(Commands::Configure { pub_key_path, server_path, client_path, scp_path }) => (
            match pub_key_path {
                Some(p) => seq![ActionView::RequireExists(p@)],
                None => seq![],
            } + seq![
                ActionView::SaveConfig(
                    ConfigView {
                        pub_key_path: setting(opt_view(&pub_key_path), cfg.pub_key_path),
                        server_file_path: setting(opt_view(&server_path), cfg.server_file_path),
                        ssh_client_app_path: setting(opt_view(&client_path), cfg.ssh_client_app_path),
                        scp_app_path: setting(opt_view(&scp_path), cfg.scp_app_path),
                    },
                ),
            ],
            reg,
        ),
    }
}

/// The actions of a whole invocation: a session on the leading alias where
/// it is stored, then those of the command.
pub open spec fn run_actions(cfg: ConfigView, cli: Cli, reg: Map<Seq<char>, ServerView>) -> Seq<ActionView> {
    (if reg.contains_key(cli.alias@) {
        seq![ActionView::Spawn(connect_view(cfg, reg[cli.alias@]))]
    } else {
        seq![]
    }) + command_effect(cfg, cli.command, reg).0
}

fn text2(a: &str, b: &str) -> (r: String)
    ensures
        r@ == a@ + b@,
{
    let mut r = String::from_str(a);
    r.append(b);
    r
}

fn text3(a: &str, b: &str, c: &str) -> (r: String)
    ensures
        r@ == a@ + b@ + c@,
{
    let mut r = text2(a, b);
    r.append(c);
    r
}

fn text4(a: &str, b: &str, c: &str, d: &str) -> (r: String)
    ensures
        r@ == a@ + b@ + c@ + d@,
{
    let mut r = text3(a, b, c);
    r.append(d);
    r
}

fn one_action(a: Action) -> (r: Vec<Action>)
    ensures
        actions_view(r@) == seq![a@],
{
    let r = vec![a];
    assert(actions_view(r@) =~= seq![a@]);
    r
}

fn two_actions(a: Action, b: Action) -> (r: Vec<Action>)
    ensures
        actions_view(r@) == seq![a@, b@],
{
    let r = vec![a, b];
    assert(actions_view(r@) =~= seq![a@, b@]);
    r
}

impl App {
    /// The actions of a copy between `local` and `remote`, a reference of
    /// the form `alias:path`.
    fn copy_plan(
        &self,
        recursive: bool,
        download: bool,
        local: &Vec<String>,
        remote: &str,
        collection: &ServerCollection,
    ) -> (r: Vec<Action>)
        requires
            collection.wf(),
        ensures
            actions_view(r@) == copy_actions(self.config(), recursive, download, strings_view(local@), remote@, collection@),
    {
        let (alias, path) = match App::parse_remote(remote) {
            Ok(parts) => parts,
            Err(_) => {
                return one_action(Action::Fail(text2(remote, " is not a valid remote path")));
            },
        };
        if download && local.len() != 1 {
            return one_action(Action::Fail(String::from_str("local path must be one")));
        }
        if !download && local.len() == 0 {
            return one_action(Action::Fail(String::from_str("local path must be given")));
        }
        match collection.get(&alias) {
            None => one_action(Action::ShowTable),
            Some(server) => {
                let result = if download {
                    self.download(server, local, path.as_str(), recursive)
                } else {
                    self.upload(server, local, path.as_str(), recursive)
                };
                match result {
                    Ok(inv) => one_action(Action::Spawn(inv)),
                    Err(_) => one_action(Action::Fail(String::from_str("local path must be given"))),
                }
            },
        }
    }

    /// What `command` does to the registry, and the actions it asks for.
    pub fn command(&self, command: &Option<Commands>, collection: &mut ServerCollection) -> (r: Vec<Action>)
        requires
            old(collection).wf(),
        ensures
            final(collection).wf(),
            actions_view(r@) == command_effect(self.config(), *command, old(collection)@).0,
            final(collection)@ == command_effect(self.config(), *command, old(collection)@).1,
    {
        match command {
            None => {
                let r: Vec<Action> = Vec::new();
                assert(actions_view(r@) =~= seq![]);
                r
            },
            Some(Commands::Create { alias, username, address, port }) => {
                if collection.get(alias).is_some() {
                    one_action(Action::Print(text3("Server alias ", alias.as_str(), " was already exists")))
                } else {
                    let server = Server { username: username.clone(), address: address.clone(), port: *port };
                    collection.insert(alias, server);
                    two_actions(Action::SaveRegistry, Action::ShowTable)
                }
            },
            Some(Commands::Remove { alias }) => {
                collection.remove(alias);
                two_actions(Action::SaveRegistry, Action::Print(text3("Server alias ", alias.as_str(), " has been removed")))
            },
            Some(Commands::Modify { alias, username, address, port }) => {
                match collection.get(alias) {
                    Some(server) => {
                        let updated = Server {
                            username: match username {
                                Some(v) => v.clone(),
                                None => server.username.clone(),
                            },
                            address: match address {
                                Some(v) => v.clone(),
                                None => server.address.clone(),
                            },
                            port: match port {
                                Some(p) => *p,
                                None => server.port,
                            },
                        };
                        collection.insert(alias, updated);
                        one_action(Action::SaveRegistry)
                    },
                    None => one_action(Action::Print(String::from_str("Cannot find specify alias"))),
                }
            },
            Some(Commands::Rename { alias, new_alias }) => {
                if collection.rename(alias, new_alias) {
                    two_actions(
                        Action::SaveRegistry,
                        Action::Print(text4("Server alias ", alias.as_str(), " has been rename to ", new_alias.as_str())),
                    )
                } else {
                    one_action(Action::Print(String::from_str("Cannot find specify alias")))
                }
            },
            Some(Commands::Go { alias }) => {
                match collection.get(alias) {
                    Some(server) => one_action(Action::Spawn(self.connect(server))),
                    None => one_action(Action::ShowTable),
                }
            },
            Some(Commands::List {  }) => one_action(Action::ShowTable),
            Some(Commands::Link { alias }) => {
                match collection.get(alias) {
                    Some(server) => one_action(Action::InstallKey(server.clone())),
                    None => one_action(Action::ShowTable),
                }
            },
            Some(Commands::Copy { recursive, download, local, remote }) => {
                self.copy_plan(*recursive, *download, local, remote.as_str(), collection)
            },
            Some(Commands::Download { recursive, remote, local }) => {
                let locals = vec![local.clone()];
                assert(strings_view(locals@) =~= seq![local@]);
                self.copy_plan(*recursive, true, &locals, remote.as_str(), collection)
            },
            Some(Commands::Configure { pub_key_path, server_path, client_path, scp_path }) => {
                let mut r: Vec<Action> = Vec::new();
                match pub_key_path {
                    Some(p) => r.push(Action::RequireExists(p.clone())),
                    None => {},
                }
                let ghost prev = r@;
                let cfg = self.settings().updated(pub_key_path, server_path, client_path, scp_path);
                r.push(Action::SaveConfig(cfg));
                assert(actions_view(r@) =~= actions_view(prev).push(ActionView::SaveConfig(cfg@)));
                assert(actions_view(prev) =~= match pub_key_path {
                    Some(p) => seq![ActionView::RequireExists(p@)],
                    None => seq![],
                });
                r
            },
        }
    }

    /// One invocation: a session on `cli.alias` where it is stored, then
    /// what `cli.command` does.
    pub fn run(&self, cli: &Cli, collection: &mut ServerCollection) -> (r: Vec<Action>)
        requires
            old(collection).wf(),
        ensures
            final(collection).wf(),
            actions_view(r@) == run_actions(self.config(), *cli, old(collection)@),
            final(collection)@ == command_effect(self.config(), cli.command, old(collection)@).1,
    {
        let mut r: Vec<Action> = Vec::new();
        match collection.get(&cli.alias) {
            Some(server) => r.push(Action::Spawn(self.connect(server))),
            None => {},
        }
        let ghost first = r@;
        let mut rest = self.command(&cli.command, collection);
        let ghost rest_view = rest@;
        r.append(&mut rest);
        assert(actions_view(r@) =~= actions_view(first) + actions_view(rest_view));
        assert(actions_view(first) =~= (if old(collection)@.contains_key(cli.alias@) {
            seq![ActionView::Spawn(connect_view(self.config(), old(collection)@[cli.alias@]))]
        } else {
            seq![]
        }));
        r
    }
}

} // verus!
