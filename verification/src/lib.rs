//! A verified client-side engine for XDCC file transfers over IRC.
//!
//! The crate separates the protocol logic from all I/O: a line framer that
//! assembles CRLF-terminated protocol lines from raw byte chunks, a message
//! classifier and DCC descriptor parser, a resume-coordination table, the
//! session state machine that drives login, channel join and package
//! requests, and the per-transfer worker bookkeeping. A thin unverified
//! shell owns the sockets, files and threads and feeds plain values in and
//! out of the engine.

pub mod bytes;
pub mod classify;
pub mod commands;
pub mod descriptor;
pub mod engine;
pub mod episodes;
pub mod framer;
pub mod locator;
pub mod resume;
pub mod worker;
