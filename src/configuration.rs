//! The settings the application starts from.

use vstd::prelude::*;

use crate::server::{AuthStatus, Server, UsersStatus};

verus! {

/// The user name offered at login and the servers to manage.
pub struct Configuration {
    pub username: String,
    pub servers: Vec<Server>,
}

impl Default for Configuration {
    /// The local server's `/etc/postfix/virtual`, managed as `admin`.
    fn default() -> (r: Configuration)
        ensures
            r.username@ == "admin"@,
            r.servers@.len() == 1,
            r.servers@[0].config_path@ == "/etc/postfix/virtual"@,
            r.servers@[0].addr@ == "127.0.0.1"@,
            r.servers@[0].port == 22,
            r.servers@[0].users@.len() == 0,
            r.servers@[0].users.wf(),
            r.servers@[0].auth_status == AuthStatus::Unknown,
            r.servers@[0].users_status == UsersStatus::Unknown,
    {
        let server = Server::new(
            String::from_str("/etc/postfix/virtual"),
            String::from_str("127.0.0.1"),
            22,
        );
        let mut servers: Vec<Server> = Vec::new();
        servers.push(server);
        Configuration { username: String::from_str("admin"), servers }
    }
}

} // verus!
