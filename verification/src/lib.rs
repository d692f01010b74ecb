//! A point-to-point remote file-copy engine: a line-oriented GET/PUT
//! protocol with offset-based resume, fair bandwidth division across
//! concurrent connections, and a bounded retry policy.
//!
//! The crate holds the protocol logic only — parsing and encoding of
//! wire lines, the per-connection transfer state machines for both
//! endpoints, the resume-offset rules, the rate controller and the
//! admission gate.  Sockets, files and clocks stay with the caller,
//! which feeds lines and byte counts in and carries lines and payload
//! bytes out.

pub mod client;
pub mod codec;
pub mod num;
pub mod paths;
pub mod rate;
pub mod server;
pub mod strutil;
pub mod transfer;
