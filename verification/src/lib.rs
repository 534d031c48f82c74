//! Verified core of a crash-mining harness for a deterministic
//! world-simulation binary: outcome classification of run logs, crash
//! archiving, the per-worker run state machine, and the reproduction-mode
//! work queue and statistics aggregation.

use vstd::prelude::*;

pub mod archive;
pub mod driver;
pub mod files;
pub mod gen;
pub mod repro;
pub mod text;

verus! {

/// Platform descriptor, resolved once at startup and threaded through as
/// ordinary data instead of compile-time branching.
#[derive(PartialEq, Eq, Structural, Clone, Copy, Debug)]
pub enum Platform {
    Linux,
    Macos,
    Windows,
    Unknown,
}

} // verus!
