//! The commands a user can give, as plain values.
use vstd::prelude::*;

verus! {

/// One invocation of the manager: an alias to connect to at once (the
/// placeholder `-` where none is given), and a command.
#[derive(Debug)]
pub struct Cli {
    pub alias: String,
    pub command: Option<Commands>,
}

/// The commands.
#[derive(Debug)]
#[allow(inconsistent_fields)]
pub enum Commands {
    /// Store a new alias; an existing one is kept as it is.
    Create { alias: String, username: String, address: String, port: u16 },
    /// Remove an alias.
    Remove { alias: String },
    /// Change the given fields of a stored alias.
    Modify { alias: String, username: Option<String>, address: Option<String>, port: Option<u16> },
    /// Move a stored record to a new alias.
    Rename { alias: String, new_alias: String },
    /// Open a terminal session on a stored alias.
    Go { alias: String },
    /// Show the registry.
    List {},
    /// Install the public key on a stored alias.
    Link { alias: String },
    /// Copy files between local paths and `alias:path`.
    Copy { recursive: bool, download: bool, local: Vec<String>, remote: String },
    /// Copy `alias:path` to one local path.
    Download { recursive: bool, remote: String, local: String },
    /// Change the configured paths.
    Configure {
        pub_key_path: Option<String>,
        server_path: Option<String>,
        client_path: Option<String>,
        scp_path: Option<String>,
    },
}

} // verus!
