//! Supervisor for an out-of-process backend worker ("sidecar") and for the
//! application's self-update lifecycle.
//!
//! The library holds the decision logic only: how a launch command is chosen,
//! how the sidecar's one-time port handshake is parsed from its output lines,
//! how the discovered port is kept in a write-once cell, and how one update
//! session moves from a check through a download with progress reporting to
//! an installed (or failed) end state. Process spawning, stream reading and
//! network transfer are the caller's work; they hand this library plain bytes
//! and outcomes and receive values and events back.

pub mod handshake;
pub mod launch;
pub mod port;
pub mod update;
