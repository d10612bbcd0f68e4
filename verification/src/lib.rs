//! Core logic of a workspace-scoped development-box agent: process and
//! session lifecycle, bounded log rings, log-level parsing, subscription
//! sequencing, path validation, and the response envelope.

use vstd::prelude::*;

pub mod api;
pub mod auth;
pub mod config;
pub mod error;
pub mod escape;
pub mod fileio;
pub mod health;
pub mod idgen;
pub mod level;
pub mod num;
pub mod os;
pub mod paths;
pub mod ports;
pub mod process;
pub mod response;
pub mod ring;
pub mod session;
pub mod subs;
pub mod text;
pub mod timefmt;

verus! {

/// The bounded log ring holds at most this many lines; appending to a full
/// ring evicts the oldest line.
pub const MAX_LOG_LINES: usize = 10000;

} // verus!
