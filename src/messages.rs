//! The messages between the editing side and the worker that talks to the servers.

use vstd::prelude::*;

use crate::alias::AliasTable;
use crate::server::Server;

verus! {

/// Requests sent to the worker.
pub enum QueryMessage {
    /// Fetch the alias table of a server.
    QueryVirtualUsers(Server),
    /// Push the server's table to it.
    UpdateVirtualUsers(Server),
    /// Log in to each of the servers.
    Authenticate { username: String, password: String, servers: Vec<Server>, root_password: String },
}

/// Replies from the worker.
pub enum ResponseMessage {
    /// The table fetched from a server.
    GotVirtualUsers { server: Server, users: AliasTable },
    /// Fetching the table of a server failed.
    QueryVirtualUsersResult { server: Server, error: String },
    /// A push ended, with the reason where it failed.
    ServerUploadResult { server: Server, error: Option<String> },
    /// A login ended; `error` is set where the connection itself failed.
    AuthenticationResult { server: Server, success: bool, error: Option<String> },
}

} // verus!
