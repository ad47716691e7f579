//! Where the manager finds its files and the client programs.
use vstd::prelude::*;

verus! {

/// The paths of the public key, the registry file and the two client
/// programs.
#[derive(Debug)]
pub struct Config {
    pub pub_key_path: String,
    pub server_file_path: String,
    pub ssh_client_app_path: String,
    pub scp_app_path: String,
}

/// What a `Config` holds, as mathematical values.
pub struct ConfigView {
    pub pub_key_path: Seq<char>,
    pub server_file_path: Seq<char>,
    pub ssh_client_app_path: Seq<char>,
    pub scp_app_path: Seq<char>,
}

impl View for Config {
    type V = ConfigView;

    open spec fn view(&self) -> ConfigView {
        ConfigView {
            pub_key_path: self.pub_key_path@,
            server_file_path: self.server_file_path@,
            ssh_client_app_path: self.ssh_client_app_path@,
            scp_app_path: self.scp_app_path@,
        }
    }
}

impl Clone for Config {
    fn clone(&self) -> (r: Self)
        ensures
            r@ == self@,
    {
        Config {
            pub_key_path: self.pub_key_path.clone(),
            server_file_path: self.server_file_path.clone(),
            ssh_client_app_path: self.ssh_client_app_path.clone(),
            scp_app_path: self.scp_app_path.clone(),
        }
    }
}

/// The value an optional setting leaves: the new one where given.
pub open spec fn setting(new: Option<Seq<char>>, current: Seq<char>) -> Seq<char> {
    match new {
        Some(v) => v,
        None => current,
    }
}

fn pick(new: &Option<String>, current: &String) -> (r: String)
    ensures
        r@ == setting(opt_view(new), current@),
{
    match new {
        Some(v) => v.clone(),
        None => current.clone(),
    }
}

impl Config {
    /// The configuration with each given path put in place of the current
    /// one.
    pub fn updated(
        &self,
        pub_key_path: &Option<String>,
        server_path: &Option<String>,
        client_path: &Option<String>,
        scp_path: &Option<String>,
    ) -> (r: Config)
        ensures
            r@ == (ConfigView {
                pub_key_path: setting(opt_view(pub_key_path), self.pub_key_path@),
                server_file_path: setting(opt_view(server_path), self.server_file_path@),
                ssh_client_app_path: setting(opt_view(client_path), self.ssh_client_app_path@),
                scp_app_path: setting(opt_view(scp_path), self.scp_app_path@),
            }),
    {
        Config {
            pub_key_path: pick(pub_key_path, &self.pub_key_path),
            server_file_path: pick(server_path, &self.server_file_path),
            ssh_client_app_path: pick(client_path, &self.ssh_client_app_path),
            scp_app_path: pick(scp_path, &self.scp_app_path),
        }
    }
}

/// The view of an optional string.
pub open spec fn opt_view(o: &Option<String>) -> Option<Seq<char>> {
    match o {
        Some(v) => Some(v@),
        None => None,
    }
}

} // verus!
