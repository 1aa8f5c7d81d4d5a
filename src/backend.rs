//! What the worker answers to each request, given how the remote work went,
//! and how the editing side takes in each answer.

use vstd::prelude::*;

use crate::codec::{parse_table, table_of_text};
use crate::messages::{QueryMessage, ResponseMessage};
use crate::push::{error_text, PushError};
use crate::server::{same_target, AuthStatus, Server, UsersStatus};
use crate::text::{chars_of, is_whitespace, is_ws};

verus! {

/// How a login attempt ended.
pub enum AuthOutcome {
    /// The server accepted the credentials.
    Authenticated,
    /// The server refused the credentials.
    Rejected,
    /// The connection failed before the credentials were judged.
    TransportError(String),
}

/// The reason given where a request names a server without a session.
pub open spec fn no_session_text() -> Seq<char> {
    "There is no SSH session for this server"@
}

/// The reason given where a request names a server without a session.
pub fn no_session_message() -> (r: String)
    ensures
        r@ == no_session_text(),
{
    String::from_str("There is no SSH session for this server")
}

/// The answer to a login attempt: success only where the server accepted, and
/// an error text only where the connection itself failed.
pub fn authentication_response(server: Server, outcome: AuthOutcome) -> (r: ResponseMessage)
    ensures
        match r {
            ResponseMessage::AuthenticationResult { server: s, success, error } => {
                &&& s == server
                &&& success == (outcome is Authenticated)
                &&& match outcome {
                    AuthOutcome::TransportError(e) => error == Some(e),
                    _ => error is None,
                }
            },
            _ => false,
        },
{
    match outcome {
        AuthOutcome::Authenticated => ResponseMessage::AuthenticationResult {
            server,
            success: true,
            error: None,
        },
        AuthOutcome::Rejected => ResponseMessage::AuthenticationResult {
            server,
            success: false,
            error: None,
        },
        AuthOutcome::TransportError(e) => ResponseMessage::AuthenticationResult {
            server,
            success: false,
            error: Some(e),
        },
    }
}

/// The answer to a fetch, given the text downloaded or the reason the download
/// failed: the table where the text reads as one, and otherwise the reason.
pub fn fetch_response(server: Server, download: Result<String, String>) -> (r: ResponseMessage)
    ensures
        match download {
            Ok(text) => match table_of_text(text@) {
                Some(es) => match r {
                    ResponseMessage::GotVirtualUsers { server: s, users } => s == server
                        && users.wf() && users@ == es,
                    _ => false,
                },
                None => match r {
                    ResponseMessage::QueryVirtualUsersResult { server: s, error } => s == server
                        && error@ == "Error parsing file"@,
                    _ => false,
                },
            },
            Err(e) => match r {
                ResponseMessage::QueryVirtualUsersResult { server: s, error } => s == server
                    && error == e,
                _ => false,
            },
        },
{
    match download {
        Ok(text) => match parse_table(text.as_str()) {
            Ok(users) => ResponseMessage::GotVirtualUsers { server, users },
            Err(e) => ResponseMessage::QueryVirtualUsersResult { server, error: e.message() },
        },
        Err(e) => ResponseMessage::QueryVirtualUsersResult { server, error: e },
    }
}

/// The answer to a push: no error text exactly where it succeeded.
pub fn push_response(server: Server, outcome: Result<(), PushError>) -> (r: ResponseMessage)
    ensures
        match r {
            ResponseMessage::ServerUploadResult { server: s, error } => {
                &&& s == server
                &&& match outcome {
                    Ok(()) => error is None,
                    Err(e) => error is Some && error->0@ == error_text(e),
                }
            },
            _ => false,
        },
{
    let error = match outcome {
        Ok(()) => None,
        Err(PushError::Transfer(e)) => Some(e),
        Err(e) => Some(e.message()),
    };
    ResponseMessage::ServerUploadResult { server, error }
}

/// The position of the first server that is the same target as `server`.
pub fn find_server(servers: &Vec<Server>, server: &Server) -> (r: Option<usize>)
    ensures
        match r {
            Some(i) => i < servers@.len() && same_target(&servers@[i as int], server) && forall|
                j: int,
            |
                0 <= j < i ==> !same_target(#[trigger] &servers@[j], server),
            None => forall|j: int|
                0 <= j < servers@.len() ==> !same_target(#[trigger] &servers@[j], server),
        },
{
    let mut i: usize = 0;
    while i < servers.len()
        invariant
            i <= servers@.len(),
            forall|j: int| 0 <= j < i ==> !same_target(#[trigger] &servers@[j], server),
        decreases servers@.len() - i,
    {
        if servers[i] == *server {
            return Some(i);
        }
        i = i + 1;
    }
    None
}

/// Every server is logged in.
pub open spec fn all_authenticated_spec(servers: Seq<Server>) -> bool {
    forall|i: int| 0 <= i < servers.len() ==> #[trigger] servers[i].auth_status == AuthStatus::Authenticated
}

/// Whether every server is logged in.
pub fn all_authenticated(servers: &Vec<Server>) -> (r: bool)
    ensures
        r == all_authenticated_spec(servers@),
{
    let mut i: usize = 0;
    while i < servers.len()
        invariant
            i <= servers@.len(),
            forall|j: int| 0 <= j < i ==> #[trigger] servers@[j].auth_status == AuthStatus::Authenticated,
        decreases servers@.len() - i,
    {
        if servers[i].auth_status != AuthStatus::Authenticated {
            return false;
        }
        i = i + 1;
    }
    true
}

/// The servers after an answer from the worker, for the first server that is
/// the same target as the one it names: a login sets the login state, and on
/// success marks the table as being fetched; a fetched table replaces the old
/// one; a failed fetch leaves the table as it was; a finished push marks the
/// table idle. Nothing else changes.
pub open spec fn applied(servers: Seq<Server>, i: int, msg: ResponseMessage, n: Server) -> bool {
    let o = servers[i];
    &&& n.config_path == o.config_path
    &&& n.addr == o.addr
    &&& n.port == o.port
    &&& match msg {
        ResponseMessage::AuthenticationResult { success, .. } => {
            &&& n.users@ == o.users@
            &&& n.auth_status == (if success {
                AuthStatus::Authenticated
            } else {
                AuthStatus::Failed
            })
            &&& n.users_status == (if success {
                UsersStatus::Downloading
            } else {
                o.users_status
            })
        },
        ResponseMessage::GotVirtualUsers { users, .. } => {
            &&& n.users@ == users@
            &&& n.auth_status == o.auth_status
            &&& n.users_status == UsersStatus::Idle
        },
        ResponseMessage::QueryVirtualUsersResult { .. } => {
            &&& n.users@ == o.users@
            &&& n.auth_status == o.auth_status
            &&& n.users_status == UsersStatus::Unknown
        },
        ResponseMessage::ServerUploadResult { .. } => {
            &&& n.users@ == o.users@
            &&& n.auth_status == o.auth_status
            &&& n.users_status == UsersStatus::Idle
        },
    }
}

/// The server that an answer names.
pub open spec fn named_server(msg: ResponseMessage) -> Server {
    match msg {
        ResponseMessage::GotVirtualUsers { server, .. } => server,
        ResponseMessage::QueryVirtualUsersResult { server, .. } => server,
        ResponseMessage::ServerUploadResult { server, .. } => server,
        ResponseMessage::AuthenticationResult { server, .. } => server,
    }
}

/// Takes in an answer from the worker. After a successful login the table of
/// that server is to be fetched: the request for it is returned.
pub fn apply_response(servers: &mut Vec<Server>, msg: ResponseMessage) -> (r: Option<QueryMessage>)
    ensures
        final(servers)@.len() == old(servers)@.len(),
        match find_first(old(servers)@, named_server(msg)) {
            Some(i) => {
                &&& applied(old(servers)@, i, msg, final(servers)@[i])
                &&& forall|j: int|
                    0 <= j < old(servers)@.len() && j != i ==> #[trigger] final(servers)@[j]
                        == old(servers)@[j]
            },
            None => final(servers)@ == old(servers)@,
        },
        match msg {
            ResponseMessage::AuthenticationResult { server, success, .. } => if success {
                match r {
                    Some(QueryMessage::QueryVirtualUsers(s)) => s == server,
                    _ => false,
                }
            } else {
                r is None
            },
            _ => r is None,
        },
{
    let found = match &msg {
        ResponseMessage::GotVirtualUsers { server, .. } => find_server(servers, server),
        ResponseMessage::QueryVirtualUsersResult { server, .. } => find_server(servers, server),
        ResponseMessage::ServerUploadResult { server, .. } => find_server(servers, server),
        ResponseMessage::AuthenticationResult { server, .. } => find_server(servers, server),
    };
    proof {
        lemma_find_first(old(servers)@, named_server(msg), found);
    }
    match msg {
        ResponseMessage::AuthenticationResult { server, success, .. } => {
            if let Some(i) = found {
                let mut s = servers[i].duplicate();
                s.auth_status = AuthStatus::from(success);
                if success {
                    s.users_status = UsersStatus::Downloading;
                }
                servers.set(i, s);
            }
            if success {
                Some(QueryMessage::QueryVirtualUsers(server))
            } else {
                None
            }
        },
        ResponseMessage::GotVirtualUsers { users, .. } => {
            if let Some(i) = found {
                let mut s = servers[i].duplicate();
                s.users = users;
                s.users_status = UsersStatus::Idle;
                servers.set(i, s);
            }
            None
        },
        ResponseMessage::QueryVirtualUsersResult { .. } => {
            if let Some(i) = found {
                let mut s = servers[i].duplicate();
                s.users_status = UsersStatus::Unknown;
                servers.set(i, s);
            }
            None
        },
        ResponseMessage::ServerUploadResult { .. } => {
            if let Some(i) = found {
                let mut s = servers[i].duplicate();
                s.users_status = UsersStatus::Idle;
                servers.set(i, s);
            }
            None
        },
    }
}

/// The position of the first server of `servers` that is the same target as `s`.
pub open spec fn find_first(servers: Seq<Server>, s: Server) -> Option<int> {
    if exists|i: int| 0 <= i < servers.len() && same_target(&servers[i], &s) {
        Some(
            choose|i: int|
                0 <= i < servers.len() && same_target(&servers[i], &s) && forall|j: int|
                    0 <= j < i ==> !same_target(#[trigger] &servers[j], &s),
        )
    } else {
        None
    }
}

proof fn lemma_find_first(servers: Seq<Server>, s: Server, found: Option<usize>)
    requires
        match found {
            Some(i) => i < servers.len() && same_target(&servers[i as int], &s) && forall|j: int|
                0 <= j < i ==> !same_target(#[trigger] &servers[j], &s),
            None => forall|j: int|
                0 <= j < servers.len() ==> !same_target(#[trigger] &servers[j], &s),
        },
    ensures
        match found {
            Some(i) => find_first(servers, s) == Some(i as int),
            None => find_first(servers, s) is None,
        },
{
    if let Some(i) = found {
        let k = choose|k: int|
            0 <= k < servers.len() && same_target(&servers[k], &s) && forall|j: int|
                0 <= j < k ==> !same_target(#[trigger] &servers[j], &s);
        assert(k == i) by {
            if k < i {
                assert(!same_target(&servers[k], &s));
            } else if k > i {
                assert(!same_target(&servers[i as int], &s));
            }
        }
    }
}

/// Nothing but white space in `s`.
pub open spec fn is_blank(s: Seq<char>) -> bool {
    forall|i: int| 0 <= i < s.len() ==> is_ws(#[trigger] s[i])
}

/// Whether `s` holds nothing but white space.
pub fn blank(s: &str) -> (r: bool)
    ensures
        r == is_blank(s@),
{
    let cs = chars_of(s);
    let mut i: usize = 0;
    while i < cs.len()
        invariant
            cs@ == s@,
            i <= cs@.len(),
            forall|j: int| 0 <= j < i ==> is_ws(#[trigger] s@[j]),
        decreases cs@.len() - i,
    {
        if !is_whitespace(cs[i]) {
            return false;
        }
        i = i + 1;
    }
    true
}

/// The login form may be sent when none of user name, password and root
/// password is blank.
pub fn login_form_is_valid(username: &str, password: &str, root_password: &str) -> (r: bool)
    ensures
        r == !(is_blank(password@) || is_blank(root_password@) || is_blank(username@)),
{
    !(blank(password) || blank(root_password) || blank(username))
}

} // verus!
