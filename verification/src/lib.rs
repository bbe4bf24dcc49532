//! FTP/FTPS file-integration backend.
//!
//! [`FtpBackendPlugin`] serves bindings of `kind: "ftp"`. `op: list` lists a
//! directory, `op: get` reads a file and `op: put` writes one, over FTP with
//! explicit AUTH-TLS (FTPS) unless that is switched off. The target path comes from
//! the call's arguments, with `..` rejected, joined under the configured base.
//!
//! This crate decides; it does not talk to servers. A call is planned here
//! ([`FtpBackendPlugin::execute`]), carried out step by step by whoever owns the
//! connection ([`session`]), and answered here again ([`call::finish_call`]). The
//! calls into other crates that this needs stand in [`outside`], each with what is
//! relied upon of it; everything else is proved.
pub mod arguments;
pub mod audit;
pub mod backend;
pub mod call;
pub mod checks;
pub mod envelope;
pub mod ftp;
pub mod json;
pub mod laws;
pub mod lines;
pub mod manifest;
pub mod outside;
pub mod session;
pub mod surface;
pub mod text;
pub mod types;
pub mod watch;

pub use backend::FtpBackendPlugin;
pub use types::{FtpBackendSpec, FtpOp};
