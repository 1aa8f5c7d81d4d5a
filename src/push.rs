//! The push protocol: back the remote file up, stage the new text, install it
//! with root's rights, then download it again and check that it holds the
//! lines that were sent.
//!
//! The remote side is driven from outside: `PushSession` says what to do next
//! and is told how it went, until it hands back the outcome.

use vstd::prelude::*;
use vstd::relations::total_ordering;
use vstd::seq_lib::lemma_sorted_unique;

use crate::alias::{has_empty_list, views};
use crate::codec::render_all;
use crate::server::Server;
use crate::text::{lines, split_lines};

verus! {

/// How long to let the backup copy run before reading the shell's output.
pub const BACKUP_SETTLE_MS: u64 = 2000;

/// How long to wait for the password prompt, and then for the installation.
pub const INSTALL_SETTLE_MS: u64 = 500;

/// Relies on std::path::Path::file_name: the last component of a path, if it
/// is a file or directory name.
#[verifier::external_body]
fn path_file_name(path: &str) -> (r: Option<String>) {
    std::path::Path::new(path).file_name().map(|n| n.to_string_lossy().into_owned())
}

/// The shell command that copies the remote file into the login user's home,
/// under a name that carries the date and time.
pub open spec fn backup_command(path: Seq<char>, name: Seq<char>) -> Seq<char> {
    "cp '"@ + path + "' ~/"@ + name + "_`date \"+%Y-%m-%d_%H-%M-%S\"`.bak\n"@
}

/// Where the new text is staged on the server.
pub open spec fn staging_path(name: Seq<char>) -> Seq<char> {
    "/tmp/"@ + name
}

/// The shell command that, as root, installs the staged file and rebuilds the
/// mail system's tables.
pub open spec fn install_command(path: Seq<char>, name: Seq<char>) -> Seq<char> {
    "su root -c 'cp /tmp/"@ + name + " "@ + path + "; /etc/postfix/post_update'\n"@
}

/// The file name used for backups and staging: the last component of the
/// path as looked up, or `virtual` where it has none.
pub open spec fn chosen_name(looked_up: Option<Seq<char>>) -> Seq<char> {
    match looked_up {
        Some(n) => n,
        None => "virtual"@,
    }
}

/// Both texts hold the same lines, each as many times: sorted, their lines agree.
pub open spec fn same_lines(a: Seq<char>, b: Seq<char>) -> bool {
    lines(a).to_multiset() == lines(b).to_multiset()
}

/// Sorting the lines of both texts by any total order and comparing the
/// results tells the same as `same_lines`: a push whose installed file differs
/// from the text sent in even one sorted line fails its check.
pub proof fn lemma_sorted_lines_agree(
    a: Seq<char>,
    b: Seq<char>,
    leq: spec_fn(Seq<char>, Seq<char>) -> bool,
)
    requires
        total_ordering(leq),
    ensures
        same_lines(a, b) <==> lines(a).sort_by(leq) == lines(b).sort_by(leq),
{
    let la = lines(a);
    let lb = lines(b);
    la.lemma_sort_by_ensures(leq);
    lb.lemma_sort_by_ensures(leq);
    if same_lines(a, b) {
        lemma_sorted_unique(la.sort_by(leq), lb.sort_by(leq), leq);
    }
}

/// Why a push failed.
pub enum PushError {
    /// Some mailbox has no destination left; nothing was sent.
    EmptyDestinations,
    /// A step on the server failed, for the reason given.
    Transfer(String),
    /// The installed file does not hold the lines that were sent.
    VerificationFailed,
    /// The driver reported an outcome that does not fit the current step.
    OutOfOrder,
}

/// The message shown for a failed push.
pub open spec fn error_text(e: PushError) -> Seq<char> {
    match e {
        PushError::EmptyDestinations => "Some mailbox has no destination"@,
        PushError::Transfer(m) => m@,
        PushError::VerificationFailed => "Configuration was not updated!"@,
        PushError::OutOfOrder => "Unexpected step reported during the upload"@,
    }
}

impl PushError {
    /// The message shown for the error.
    pub fn message(&self) -> (r: String)
        ensures
            r@ == error_text(*self),
    {
        match self {
            PushError::EmptyDestinations => String::from_str("Some mailbox has no destination"),
            PushError::Transfer(e) => e.clone(),
            PushError::VerificationFailed => String::from_str("Configuration was not updated!"),
            PushError::OutOfOrder => String::from_str("Unexpected step reported during the upload"),
        }
    }
}

/// What the driver is to do next.
pub enum PushAction {
    /// Open a shell, write `command`, wait `settle_ms` milliseconds and read
    /// what it printed, which is not looked at.
    Backup { command: String, settle_ms: u64 },
    /// Write `contents` to a local file and upload it to `remote_path`.
    Upload { contents: String, remote_path: String },
    /// Open a shell, write `command`, wait `settle_ms`, write `password_line`
    /// and wait `settle_ms` again.
    Install { command: String, password_line: String, settle_ms: u64 },
    /// Download `remote_path` into a local file named `local_name` and report
    /// its text.
    Download { remote_path: String, local_name: String },
    /// The push is over, with this outcome.
    Finish(Result<(), PushError>),
}

/// How the last action went.
pub enum PushEvent {
    /// It succeeded.
    Done,
    /// It failed, for the reason given.
    Failed(String),
    /// The download succeeded and the file holds this text.
    Fetched(String),
}

/// The step that a push has reached.
#[derive(Clone, Copy, Debug, PartialEq, Eq, Structural)]
pub enum PushStage {
    BackingUp,
    Uploading,
    Installing,
    Verifying,
    Finished,
}

/// One push of a table to one server.
pub struct PushSession {
    pub stage: PushStage,
    /// Where the alias file lives on the server.
    pub config_path: String,
    /// The name under which the file is backed up and staged.
    pub file_name: String,
    /// The text sent.
    pub payload: String,
    /// The password of the root account on the server.
    pub root_password: String,
}

/// The number of times `x` is among the strings of `v`.
fn count_of(v: &Vec<String>, x: &String) -> (r: usize)
    ensures
        r == views(v@).to_multiset().count(x@),
{
    broadcast use vstd::seq_lib::group_to_multiset_ensures;

    let mut n: usize = 0;
    let mut i: usize = 0;
    assert(views(v@).take(0) =~= Seq::<Seq<char>>::empty());
    while i < v.len()
        invariant
            i <= v@.len(),
            n == views(v@).take(i as int).to_multiset().count(x@),
            n <= i,
        decreases v@.len() - i,
    {
        let ghost pre = views(v@).take(i as int);
        assert(views(v@).take(i + 1) =~= pre.push(v@[i as int]@));
        proof {
            pre.to_multiset_ensures();
        }
        assert(pre.push(v@[i as int]@).to_multiset() =~= pre.to_multiset().insert(v@[i as int]@));
        if v[i] == *x {
            n = n + 1;
        }
        i = i + 1;
    }
    assert(views(v@).take(v@.len() as int) =~= views(v@));
    n
}

/// Whether every string of `a` is as many times in `a` as in `b`.
fn counts_agree(a: &Vec<String>, b: &Vec<String>) -> (r: bool)
    ensures
        r == forall|i: int|
            0 <= i < a@.len() ==> views(a@).to_multiset().count(#[trigger] a@[i]@) == views(
                b@,
            ).to_multiset().count(a@[i]@),
{
    let mut i: usize = 0;
    while i < a.len()
        invariant
            i <= a@.len(),
            forall|j: int|
                0 <= j < i ==> views(a@).to_multiset().count(#[trigger] a@[j]@) == views(
                    b@,
                ).to_multiset().count(a@[j]@),
        decreases a@.len() - i,
    {
        if count_of(a, &a[i]) != count_of(b, &a[i]) {
            return false;
        }
        i = i + 1;
    }
    true
}

/// Whether the texts `a` and `b` hold the same lines, each as many times.
pub fn same_line_sets(a: &str, b: &str) -> (r: bool)
    ensures
        r == same_lines(a@, b@),
{
    broadcast use vstd::seq_lib::group_to_multiset_ensures;

    let la = split_lines(a);
    let lb = split_lines(b);
    let ghost ma = views(la@).to_multiset();
    let ghost mb = views(lb@).to_multiset();
    let ab = counts_agree(&la, &lb);
    let ba = counts_agree(&lb, &la);
    proof {
        if ab && ba {
            assert forall|x: Seq<char>| ma.count(x) == mb.count(x) by {
                if views(la@).contains(x) {
                    let i = choose|i: int| 0 <= i < views(la@).len() && views(la@)[i] == x;
                    assert(la@[i]@ == x);
                } else if views(lb@).contains(x) {
                    let i = choose|i: int| 0 <= i < views(lb@).len() && views(lb@)[i] == x;
                    assert(lb@[i]@ == x);
                }
            }
            assert(ma =~= mb);
        } else if !ab {
            let i = choose|i: int|
                0 <= i < la@.len() && !(ma.count(#[trigger] la@[i]@) == mb.count(la@[i]@));
            assert(ma.count(la@[i]@) != mb.count(la@[i]@));
        } else {
            let i = choose|i: int|
                0 <= i < lb@.len() && !(mb.count(#[trigger] lb@[i]@) == ma.count(lb@[i]@));
            assert(ma.count(lb@[i]@) != mb.count(lb@[i]@));
        }
    }
    ab && ba
}

/// The characters of a string that may be absent.
pub open spec fn opt_view(o: Option<String>) -> Option<Seq<char>> {
    match o {
        Some(s) => Some(s@),
        None => None,
    }
}

/// `a`, `b` and `c` one after the other.
fn concat3(a: &str, b: &str, c: &str) -> (r: String)
    ensures
        r@ == a@ + b@ + c@,
{
    let mut r = String::from_str(a);
    r.append(b);
    r.append(c);
    r
}

impl PushSession {
    /// Begins to push the server's table, given what looking up the file name
    /// of its path gave. A table in which some mailbox has no destination is
    /// refused before anything is sent; otherwise the first step is the backup.
    pub fn start_with_name(server: &Server, root_password: String, looked_up: Option<String>) -> (r:
        Result<(PushSession, PushAction), PushError>)
        ensures
            r is Err <==> has_empty_list(server.users@),
            match r {
                Err(e) => e is EmptyDestinations,
                Ok((s, a)) => {
                    &&& s.stage == PushStage::BackingUp
                    &&& s.config_path@ == server.config_path@
                    &&& s.file_name@ == chosen_name(opt_view(looked_up))
                    &&& s.payload@ == render_all(server.users@)
                    &&& s.root_password == root_password
                    &&& match a {
                        PushAction::Backup { command, settle_ms } => command@ == backup_command(
                            s.config_path@,
                            s.file_name@,
                        ) && settle_ms == BACKUP_SETTLE_MS,
                        _ => false,
                    }
                },
            },
    {
        if server.users.has_empty_destinations() {
            return Err(PushError::EmptyDestinations);
        }
        let file_name = match looked_up {
            Some(n) => n,
            None => String::from_str("virtual"),
        };
        let path = server.config_path.clone();
        let mut command = concat3("cp '", path.as_str(), "' ~/");
        command.append(file_name.as_str());
        command.append("_`date \"+%Y-%m-%d_%H-%M-%S\"`.bak\n");
        let session = PushSession {
            stage: PushStage::BackingUp,
            config_path: path,
            file_name,
            payload: server.payload(),
            root_password,
        };
        Ok((session, PushAction::Backup { command, settle_ms: BACKUP_SETTLE_MS }))
    }

    /// Begins to push the server's table, with the file name of its path as
    /// `Path::file_name` gives it.
    pub fn start(server: &Server, root_password: String) -> (r: Result<
        (PushSession, PushAction),
        PushError,
    >)
        ensures
            r is Err <==> has_empty_list(server.users@),
            match r {
                Err(e) => e is EmptyDestinations,
                Ok((s, a)) => {
                    &&& s.stage == PushStage::BackingUp
                    &&& s.config_path@ == server.config_path@
                    &&& s.payload@ == render_all(server.users@)
                    &&& s.root_password == root_password
                    &&& match a {
                        PushAction::Backup { command, settle_ms } => command@ == backup_command(
                            s.config_path@,
                            s.file_name@,
                        ) && settle_ms == BACKUP_SETTLE_MS,
                        _ => false,
                    }
                },
            },
    {
        let looked_up = path_file_name(server.config_path.as_str());
        PushSession::start_with_name(server, root_password, looked_up)
    }

    /// Takes the outcome of the last action and says what to do next. A
    /// failure ends the push with its reason; the downloaded text ends it with
    /// success exactly when it holds the lines that were sent.
    pub fn step(&mut self, event: PushEvent) -> (a: PushAction)
        ensures
            final(self).config_path == old(self).config_path,
            final(self).file_name == old(self).file_name,
            final(self).payload == old(self).payload,
            final(self).root_password == old(self).root_password,
            match (old(self).stage, event) {
                (PushStage::Finished, _) => final(self).stage == PushStage::Finished && a matches PushAction::Finish(Err(PushError::OutOfOrder)),
                (_, PushEvent::Failed(e)) => final(self).stage == PushStage::Finished && match a {
                    PushAction::Finish(Err(PushError::Transfer(m))) => m@ == e@,
                    _ => false,
                },
                (PushStage::BackingUp, PushEvent::Done) => final(self).stage
                    == PushStage::Uploading && match a {
                    PushAction::Upload { contents, remote_path } => contents@ == old(
                        self,
                    ).payload@ && remote_path@ == staging_path(old(self).file_name@),
                    _ => false,
                },
                (PushStage::Uploading, PushEvent::Done) => final(self).stage
                    == PushStage::Installing && match a {
                    PushAction::Install { command, password_line, settle_ms } => command@
                        == install_command(old(self).config_path@, old(self).file_name@)
                        && password_line@ == old(self).root_password@ + "\n"@ && settle_ms
                        == INSTALL_SETTLE_MS,
                    _ => false,
                },
                (PushStage::Installing, PushEvent::Done) => final(self).stage
                    == PushStage::Verifying && match a {
                    PushAction::Download { remote_path, local_name } => remote_path@ == old(
                        self,
                    ).config_path@ && local_name@ == old(self).file_name@,
                    _ => false,
                },
                (PushStage::Verifying, PushEvent::Fetched(text)) => final(self).stage
                    == PushStage::Finished && match a {
                    PushAction::Finish(Ok(())) => same_lines(text@, old(self).payload@),
                    PushAction::Finish(Err(PushError::VerificationFailed)) => !same_lines(
                        text@,
                        old(self).payload@,
                    ),
                    _ => false,
                },
                _ => final(self).stage == PushStage::Finished && a matches PushAction::Finish(Err(PushError::OutOfOrder)),
            },
    {
        if self.stage == PushStage::Finished {
            return PushAction::Finish(Err(PushError::OutOfOrder));
        }
        match event {
            PushEvent::Failed(e) => {
                self.stage = PushStage::Finished;
                PushAction::Finish(Err(PushError::Transfer(e)))
            },
            PushEvent::Done => {
                if self.stage == PushStage::BackingUp {
                    self.stage = PushStage::Uploading;
                    let remote_path = concat3("/tmp/", self.file_name.as_str(), "");
                    proof {
                        reveal_strlit("");
                    }
                    assert(remote_path@ =~= staging_path(self.file_name@));
                    PushAction::Upload { contents: self.payload.clone(), remote_path }
                } else if self.stage == PushStage::Uploading {
                    self.stage = PushStage::Installing;
                    let mut command = concat3(
                        "su root -c 'cp /tmp/",
                        self.file_name.as_str(),
                        " ",
                    );
                    command.append(self.config_path.as_str());
                    command.append("; /etc/postfix/post_update'\n");
                    let password_line = concat3(self.root_password.as_str(), "\n", "");
                    proof {
                        reveal_strlit("");
                    }
                    assert(password_line@ =~= self.root_password@ + "\n"@);
                    PushAction::Install { command, password_line, settle_ms: INSTALL_SETTLE_MS }
                } else if self.stage == PushStage::Installing {
                    self.stage = PushStage::Verifying;
                    PushAction::Download {
                        remote_path: self.config_path.clone(),
                        local_name: self.file_name.clone(),
                    }
                } else {
                    self.stage = PushStage::Finished;
                    PushAction::Finish(Err(PushError::OutOfOrder))
                }
            },
            PushEvent::Fetched(text) => {
                if self.stage == PushStage::Verifying {
                    self.stage = PushStage::Finished;
                    if same_line_sets(text.as_str(), self.payload.as_str()) {
                        PushAction::Finish(Ok(()))
                    } else {
                        PushAction::Finish(Err(PushError::VerificationFailed))
                    }
                } else {
                    self.stage = PushStage::Finished;
                    PushAction::Finish(Err(PushError::OutOfOrder))
                }
            },
        }
    }
}

} // verus!
