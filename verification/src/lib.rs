//! A mesh of small boxes that keep one musical timeline together and each
//! play part of a shared, deterministic lo-fi arrangement.
use vstd::prelude::*;

pub mod arith;
pub mod clock;
pub mod device;
pub mod event;
pub mod generator;
pub mod groove;
pub mod hash;
pub mod le;
pub mod mesh;
pub mod mode;
pub mod music;
pub mod protocol;
pub mod sequencer;
pub mod sim;
pub mod synth;
pub mod transport;
pub mod web;

verus! {

/// Microseconds on some clock (local hardware time or shared mesh time).
pub type Micros = i64;

/// A device's mesh identity.
pub type NodeId = u64;

} // verus!
