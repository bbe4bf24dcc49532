//! One FTP session: the steps that lead to a transfer, and what becomes of what
//! the server sends back.
use crate::ftp;
use crate::ftp::FtpConn;
use crate::json::Json;
use crate::text;
use vstd::prelude::*;

verus! {

/// What a session is opened for.
#[derive(Debug)]
pub enum FileOp {
    /// List a directory.
    List { path: String },
    /// Read a file of at most `max_bytes`.
    Get { path: String, max_bytes: usize },
    /// Write a file.
    Put { path: String, content: Vec<u8> },
}

/// What a [`FileOp`] stands for.
pub enum FileOpModel {
    List { path: Seq<char> },
    Get { path: Seq<char>, max_bytes: usize },
    Put { path: Seq<char>, content: Seq<u8> },
}

impl FileOp {
    pub open spec fn model(self) -> FileOpModel {
        match self {
            FileOp::List { path } => FileOpModel::List { path: path@ },
            FileOp::Get { path, max_bytes } => FileOpModel::Get { path: path@, max_bytes },
            FileOp::Put { path, content } => FileOpModel::Put { path: path@, content: content@ },
        }
    }
}

impl FileOpModel {
    /// The remote path that the operation acts on.
    pub open spec fn path(self) -> Seq<char> {
        match self {
            FileOpModel::List { path } => path,
            FileOpModel::Get { path, .. } => path,
            FileOpModel::Put { path, .. } => path,
        }
    }
}

/// A step on the control channel.
#[derive(Debug, Clone, Copy, PartialEq, Eq, Structural)]
pub enum Step {
    /// Open the control connection.
    Connect,
    /// Upgrade it to TLS (AUTH TLS).
    Secure,
    /// Send user and password.
    Login,
    /// Ask for binary transfers.
    Binary,
}

/// What comes after a step that went well.
#[derive(Debug, Clone, Copy, PartialEq, Eq, Structural)]
pub enum Next {
    /// Another step.
    Perform(Step),
    /// The transfer itself.
    Transfer,
}

/// What comes after `step`, with TLS required or not, for a listing or for the
/// contents of a file.
pub open spec fn next_step(tls: bool, listing: bool, step: Step) -> Next {
    match step {
        Step::Connect => Next::Perform(
            if tls {
                Step::Secure
            } else {
                Step::Login
            },
        ),
        Step::Secure => Next::Perform(Step::Login),
        Step::Login => if listing {
            Next::Transfer
        } else {
            Next::Perform(Step::Binary)
        },
        Step::Binary => Next::Transfer,
    }
}

/// What a failed step is reported as.
pub open spec fn step_failure(step: Step, error: Seq<char>) -> Seq<char> {
    let what = match step {
        Step::Connect => "FTP connect failed: "@,
        Step::Secure => "FTPS AUTH TLS failed: "@,
        Step::Login => "FTP auth failed: "@,
        Step::Binary => "FTP type binary failed: "@,
    };
    what + error
}

/// The step that a session starts with.
pub fn first_step() -> (res: Step)
    ensures
        res == Step::Connect,
{
    Step::Connect
}

/// What to do after `step` was tried, given how it went: the session ends at the
/// first step that fails. A session for a listing leaves the transfer type alone.
pub fn after_step(conn: &FtpConn, listing: bool, step: Step, reply: Result<(), String>) -> (res:
    Result<Next, String>)
    ensures
        match reply {
            Ok(_) => res matches Ok(next) && next == next_step(conn.tls, listing, step),
            Err(error) => res matches Err(message) && message@ == step_failure(step, error@),
        },
{
    match reply {
        Ok(_) => Ok(
            match step {
                Step::Connect => if conn.tls {
                    Next::Perform(Step::Secure)
                } else {
                    Next::Perform(Step::Login)
                },
                Step::Secure => Next::Perform(Step::Login),
                Step::Login => if listing {
                    Next::Transfer
                } else {
                    Next::Perform(Step::Binary)
                },
                Step::Binary => Next::Transfer,
            },
        ),
        Err(error) => {
            let prefix = match step {
                Step::Connect => "FTP connect failed: ",
                Step::Secure => "FTPS AUTH TLS failed: ",
                Step::Login => "FTP auth failed: ",
                Step::Binary => "FTP type binary failed: ",
            };
            Err(text::joined(prefix, error.as_str()))
        },
    }
}

/// How far a step is from the transfer.
pub open spec fn steps_left(step: Step) -> nat {
    match step {
        Step::Connect => 3,
        Step::Secure => 2,
        Step::Login => 1,
        Step::Binary => 0,
    }
}

/// The steps from `step` up to the transfer, where all go well.
pub open spec fn steps_from(tls: bool, listing: bool, step: Step) -> Seq<Step>
    decreases steps_left(step),
{
    seq![step] + match next_step(tls, listing, step) {
        Next::Perform(next) => steps_from(tls, listing, next),
        Next::Transfer => Seq::empty(),
    }
}

/// Where TLS is required, the password is sent, and the transfer made, only after
/// the upgrade to TLS; where it is not, there is no upgrade.
pub proof fn law_tls_comes_before_login(tls: bool, listing: bool)
    ensures
        ({
            let binary = if listing {
                Seq::empty()
            } else {
                seq![Step::Binary]
            };
            steps_from(tls, listing, Step::Connect) == if tls {
                seq![Step::Connect, Step::Secure, Step::Login] + binary
            } else {
                seq![Step::Connect, Step::Login] + binary
            }
        }),
{
    reveal_with_fuel(steps_from, 5);
    assert(steps_from(tls, listing, Step::Login) =~= if listing {
        seq![Step::Login]
    } else {
        seq![Step::Login, Step::Binary]
    });
    assert(steps_from(tls, listing, Step::Connect) =~= if tls {
        seq![Step::Connect, Step::Secure] + steps_from(tls, listing, Step::Login)
    } else {
        seq![Step::Connect] + steps_from(tls, listing, Step::Login)
    });
}

/// The address that a session connects to.
pub fn address(conn: &FtpConn) -> (res: String)
    ensures
        res@ == conn.host@ + ":"@ + text::decimal(conn.port as nat),
{
    let mut addr = text::joined(conn.host.as_str(), ":");
    addr.append(text::decimal_text(conn.port as u128).as_str());
    addr
}

/// The argument of a `LIST`: none for the login's default directory.
pub fn list_argument(path: &str) -> (res: Option<&str>)
    ensures
        res == (if path@ == seq!['.'] {
            None
        } else {
            Some(path)
        }),
{
    proof {
        reveal_strlit(".");
        assert("."@ =~= seq!['.']);
    }
    if text::same(path, ".") {
        None
    } else {
        Some(path)
    }
}

/// What a listing comes to: its entries, in the order of the lines.
pub fn finish_list(path: &str, reply: Result<Vec<String>, String>) -> (res: Result<
    Vec<Json>,
    String,
>)
    ensures
        match reply {
            Ok(lines) => res matches Ok(entries) && {
                &&& entries@.len() == lines@.len()
                &&& forall|i: int|
                    0 <= i < lines@.len() ==> ftp::is_reading_of(
                        lines@[i]@,
                        #[trigger] entries@[i].model(),
                    ) && ftp::is_entry_from(lines@[i]@, entries@[i].model())
            },
            Err(error) => res matches Err(message) && message@ == ftp::transfer_failure(
                "list"@,
                path@,
                error@,
            ),
        },
{
    match reply {
        Ok(lines) => Ok(ftp::lines_to_json(&lines)),
        Err(error) => Err(ftp::transfer_failure_text("list", path, error.as_str())),
    }
}

/// What a write of `len` bytes comes to: their number.
pub fn finish_put(path: &str, len: usize, reply: Result<(), String>) -> (res: Result<
    usize,
    String,
>)
    ensures
        match reply {
            Ok(_) => res matches Ok(written) && written == len,
            Err(error) => res matches Err(message) && message@ == ftp::transfer_failure(
                "put"@,
                path@,
                error@,
            ),
        },
{
    match reply {
        Ok(_) => Ok(len),
        Err(error) => Err(ftp::transfer_failure_text("put", path, error.as_str())),
    }
}

} // verus!
