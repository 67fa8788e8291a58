//! Verified core of the Verve developer workbench: the request/project data
//! model, its tree operations and variable scoping, SSH host bookkeeping,
//! terminal wire encodings, SFTP path helpers, ZMODEM trigger detection and
//! the encrypted credential vault framing.

pub mod text;
pub mod state;
pub mod ssh;
