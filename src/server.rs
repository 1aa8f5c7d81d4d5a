//! The mail servers: where each alias file lives, and the state of its session
//! and of its table.

use vstd::prelude::*;

use crate::alias::AliasTable;
use crate::codec::{render_all, serialize_table};

verus! {

/// Where the authentication with a server stands.
#[derive(Clone, Copy, Debug, PartialEq, Eq, Structural)]
pub enum AuthStatus {
    Unknown,
    Failed,
    Authenticated,
    InProgress,
}

impl Default for AuthStatus {
    fn default() -> (r: AuthStatus)
        ensures
            r == AuthStatus::Unknown,
    {
        AuthStatus::Unknown
    }
}

impl From<bool> for AuthStatus {
    fn from(value: bool) -> (r: AuthStatus)
        ensures
            r == (if value {
                AuthStatus::Authenticated
            } else {
                AuthStatus::Failed
            }),
    {
        if value {
            AuthStatus::Authenticated
        } else {
            AuthStatus::Failed
        }
    }
}

impl vstd::std_specs::convert::FromSpecImpl<bool> for AuthStatus {
    open spec fn obeys_from_spec() -> bool {
        true
    }

    open spec fn from_spec(v: bool) -> AuthStatus {
        if v {
            AuthStatus::Authenticated
        } else {
            AuthStatus::Failed
        }
    }
}

/// Where the transfer of a server's table stands.
#[derive(Clone, Copy, Debug, PartialEq, Eq, Structural)]
pub enum UsersStatus {
    Unknown,
    Downloading,
    Idle,
    Uploading,
}

impl Default for UsersStatus {
    fn default() -> (r: UsersStatus)
        ensures
            r == UsersStatus::Unknown,
    {
        UsersStatus::Unknown
    }
}

/// The character of a decimal digit.
pub open spec fn digit_char(d: nat) -> char {
    if d == 0 { '0' } else if d == 1 { '1' } else if d == 2 { '2' } else if d == 3 { '3' }
    else if d == 4 { '4' } else if d == 5 { '5' } else if d == 6 { '6' } else if d == 7 { '7' }
    else if d == 8 { '8' } else { '9' }
}

/// The decimal digits of `n`, without leading zeros.
pub open spec fn decimal(n: nat) -> Seq<char>
    decreases n,
{
    if n < 10 {
        seq![digit_char(n)]
    } else {
        decimal(n / 10).push(digit_char(n % 10))
    }
}

fn digit_str(d: u16) -> (r: &'static str)
    requires
        d < 10,
    ensures
        r@ == seq![digit_char(d as nat)],
{
    proof {
        reveal_strlit("0");
        reveal_strlit("1");
        reveal_strlit("2");
        reveal_strlit("3");
        reveal_strlit("4");
        reveal_strlit("5");
        reveal_strlit("6");
        reveal_strlit("7");
        reveal_strlit("8");
        reveal_strlit("9");
    }
    let r = if d == 0 { "0" } else if d == 1 { "1" } else if d == 2 { "2" } else if d == 3 { "3" }
    else if d == 4 { "4" } else if d == 5 { "5" } else if d == 6 { "6" } else if d == 7 { "7" }
    else if d == 8 { "8" } else { "9" };
    assert(r@ =~= seq![digit_char(d as nat)]);
    r
}

/// `n` written in decimal.
pub fn decimal_string(n: u16) -> (r: String)
    ensures
        r@ == decimal(n as nat),
    decreases n,
{
    if n < 10 {
        String::from_str(digit_str(n))
    } else {
        let mut s = decimal_string(n / 10);
        s.append(digit_str(n % 10));
        assert(s@ =~= decimal(n as nat));
        s
    }
}

/// A remote mail server and the alias file on it, with what is known of it.
#[derive(Clone, Debug)]
pub struct Server {
    /// Where the alias file lives on the server.
    pub config_path: String,
    /// The host name or address.
    pub addr: String,
    /// The port of its remote shell service.
    pub port: u16,
    /// The table last fetched from it, with the local edits.
    pub users: AliasTable,
    pub auth_status: AuthStatus,
    pub users_status: UsersStatus,
}

/// Two servers are the same target when address, port and path agree.
pub open spec fn same_target(a: &Server, b: &Server) -> bool {
    a.config_path@ == b.config_path@ && a.addr@ == b.addr@ && a.port == b.port
}

impl PartialEq for Server {
    fn eq(&self, other: &Server) -> (r: bool)
        ensures
            r == same_target(self, other),
    {
        self.config_path == other.config_path && self.addr == other.addr && self.port
            == other.port
    }
}

impl vstd::std_specs::cmp::PartialEqSpecImpl for Server {
    open spec fn obeys_eq_spec() -> bool {
        true
    }

    open spec fn eq_spec(&self, other: &Server) -> bool {
        same_target(self, other)
    }
}

/// The key under which the session of a server is kept: address, port and
/// path joined by colons.
pub open spec fn extended_name(addr: Seq<char>, port: u16, path: Seq<char>) -> Seq<char> {
    addr + seq![':'] + decimal(port as nat) + seq![':'] + path
}

impl Server {
    /// A server with nothing known of it yet.
    pub fn new(config_path: String, addr: String, port: u16) -> (r: Server)
        ensures
            r.config_path == config_path,
            r.addr == addr,
            r.port == port,
            r.users.wf(),
            r.users@.len() == 0,
            r.auth_status == AuthStatus::Unknown,
            r.users_status == UsersStatus::Unknown,
    {
        Server {
            config_path,
            addr,
            port,
            users: AliasTable::new(),
            auth_status: AuthStatus::Unknown,
            users_status: UsersStatus::Unknown,
        }
    }

    /// A copy of the server, its table included.
    pub fn duplicate(&self) -> (r: Server)
        ensures
            r.config_path == self.config_path,
            r.addr == self.addr,
            r.port == self.port,
            r.users@ == self.users@,
            r.auth_status == self.auth_status,
            r.users_status == self.users_status,
    {
        Server {
            config_path: self.config_path.clone(),
            addr: self.addr.clone(),
            port: self.port,
            users: self.users.duplicate(),
            auth_status: self.auth_status,
            users_status: self.users_status,
        }
    }

    /// The text of the alias file that the table describes.
    pub fn payload(&self) -> (r: String)
        ensures
            r@ == render_all(self.users@),
    {
        serialize_table(&self.users)
    }

    /// Address, port and path joined by colons.
    pub fn to_string_extended(&self) -> (r: String)
        ensures
            r@ == extended_name(self.addr@, self.port, self.config_path@),
    {
        proof {
            reveal_strlit(":");
        }
        let mut r = self.addr.clone();
        r.append(":");
        let p = decimal_string(self.port);
        r.append(p.as_str());
        r.append(":");
        r.append(self.config_path.as_str());
        r
    }

    /// Address and port joined by a colon, as the server is shown to people.
    pub fn to_string(&self) -> (r: String)
        ensures
            r@ == self.addr@ + seq![':'] + decimal(self.port as nat),
    {
        proof {
            reveal_strlit(":");
        }
        let mut r = self.addr.clone();
        r.append(":");
        let p = decimal_string(self.port);
        r.append(p.as_str());
        r
    }

    /// The name of the local file that a fetched table is downloaded into.
    pub fn fetch_file_name(&self) -> (r: String)
        ensures
            r@ == "temp_"@ + self.addr@,
    {
        let mut r = String::from_str("temp_");
        r.append(self.addr.as_str());
        r
    }

    /// Whether an authentication or a transfer is under way.
    pub fn busy(&self) -> (r: bool)
        ensures
            r == (self.auth_status == AuthStatus::InProgress || self.users_status
                == UsersStatus::Downloading || self.users_status == UsersStatus::Uploading),
    {
        self.auth_status == AuthStatus::InProgress || self.users_status == UsersStatus::Downloading
            || self.users_status == UsersStatus::Uploading
    }
}

/// Servers are the same target whatever their tables and the state of their
/// sessions: only address, port and path count.
pub proof fn lemma_equality_ignores_state(a: &Server, b: &Server)
    requires
        a.config_path@ == b.config_path@,
        a.addr@ == b.addr@,
        a.port == b.port,
    ensures
        same_target(a, b),
        same_target(b, a),
{
}

} // verus!
