//! The deterministic music layer: roles and the shared arrangement, chord
//! theory and progressions, reviewed groove content, and the binary sample
//! catalogue.
pub mod arrangement;
pub mod beat;
pub mod catalog;
pub mod content;
pub mod packer;
pub mod progression;
pub mod sample;
pub mod score;
pub mod theory;
