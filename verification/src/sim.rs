//! The host simulation kernel: real devices on a simulated radio with
//! drift, loss and latency, the jitter generator, node placement, phase
//! statistics and the WAV container.
pub mod args;
pub mod kernel;
pub mod net;
pub mod node;
pub mod rng;
pub mod stats;
pub mod wav;
