//! Leaderless mesh time synchronization: the on-air messages, the disciplined
//! scheduling clock, per-peer measurement with root election, and the engine
//! that ties them together.
pub mod clock;
pub mod engine;
pub mod peer;
pub mod wire;

pub use engine::{RosterView, SyncEngine, SyncQuality};
