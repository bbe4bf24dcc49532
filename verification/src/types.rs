//! Operator-facing spec of a binding.
//!
//! One binding is one operation: `op: list` lists a directory, `op: get` reads
//! a file, `op: put` writes a file. The target path comes from the call
//! arguments, joined under the configured `path` base.
use crate::surface::Surface;
use vstd::prelude::*;

verus! {

/// The file operation a binding performs.
#[derive(Debug, Clone, Copy, PartialEq, Eq, Structural)]
pub enum FtpOp {
    /// List a directory's entries.
    List,
    /// Read a file's contents.
    Get,
    /// Write a file (content from the `content` / `text` argument).
    Put,
}

impl Default for FtpOp {
    fn default() -> (res: FtpOp)
        ensures
            res == FtpOp::List,
    {
        FtpOp::List
    }
}

impl FtpOp {
    /// The name of an operation in specs and envelopes.
    pub open spec fn name(self) -> Seq<char> {
        match self {
            FtpOp::List => "list"@,
            FtpOp::Get => "get"@,
            FtpOp::Put => "put"@,
        }
    }

    /// The name of the operation in specs and envelopes.
    pub fn as_str(self) -> (res: &'static str)
        ensures
            res@ == self.name(),
    {
        match self {
            FtpOp::List => "list",
            FtpOp::Get => "get",
            FtpOp::Put => "put",
        }
    }

    /// Whether the operation leaves the remote side as it is. `put` does not.
    pub fn is_read_only(self) -> (res: bool)
        ensures
            res == (self != FtpOp::Put),
    {
        match self {
            FtpOp::List | FtpOp::Get => true,
            FtpOp::Put => false,
        }
    }
}

/// Operator-facing spec of a binding, defaults filled in.
#[derive(Debug)]
pub struct FtpBackendSpec {
    /// The operation (default `list`).
    pub op: FtpOp,
    /// FTP host.
    pub host: String,
    /// FTP control port (default 21).
    pub port: u16,
    /// FTP login user.
    pub user: String,
    /// FTP password. A per-caller `cred://` reference is rejected.
    pub password: String,
    /// Base directory that the caller's path is joined under (default `""`,
    /// the login's default directory).
    pub path: String,
    /// Require explicit FTPS (AUTH TLS) (default `true`).
    pub tls: bool,
    /// Cap on bytes read or written (default 10 MiB).
    pub max_bytes: usize,
    /// Per-call timeout in milliseconds (default 15 s).
    pub timeout_ms: u64,
    /// MCP surface that the binding serves (default `tool`).
    pub surface: Surface,
    /// URI template of the `resource` surface (default `ftp://{path}`).
    pub uri: String,
}

impl Clone for FtpBackendSpec {
    fn clone(&self) -> (res: FtpBackendSpec)
        ensures
            res == *self,
    {
        FtpBackendSpec {
            op: self.op,
            host: self.host.clone(),
            port: self.port,
            user: self.user.clone(),
            password: self.password.clone(),
            path: self.path.clone(),
            tls: self.tls,
            max_bytes: self.max_bytes,
            timeout_ms: self.timeout_ms,
            surface: self.surface,
            uri: self.uri.clone(),
        }
    }
}

/// Default control port.
pub fn default_port() -> (res: u16)
    ensures
        res == 21,
{
    21
}

/// FTPS is required unless it is switched off.
pub fn default_tls() -> (res: bool)
    ensures
        res,
{
    true
}

/// Default cap on bytes read or written: 10 MiB.
pub fn default_max_bytes() -> (res: usize)
    ensures
        res == 10 * 1024 * 1024,
{
    10 * 1024 * 1024
}

/// Default per-call timeout: 15 seconds.
pub fn default_timeout_ms() -> (res: u64)
    ensures
        res == 15_000,
{
    15_000
}

/// Default URI template of the `resource` surface.
pub fn default_uri_template() -> (res: String)
    ensures
        res@ == "ftp://{path}"@,
{
    "ftp://{path}".to_owned()
}

} // verus!
