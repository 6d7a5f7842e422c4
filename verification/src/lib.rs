//! Process snapshot and lifecycle-control library.
//!
//! The library snapshots a set of running processes, ranks them by CPU
//! consumption, flags processes above a usage threshold, and drives the
//! confirm / signal / log sequence that terminates a selected process,
//! recording each termination in an append-only audit log.

pub mod cpu;
pub mod snapshot;
pub mod ranker;
pub mod clock;
pub mod text;
pub mod audit;
pub mod terminate;
