//! A device's musical identity.
use vstd::prelude::*;

verus! {

/// Default audio render rate. Firmware sets this to the real DAC rate.
pub const DEFAULT_SAMPLE_RATE: u32 = 48_000;

/// The arpeggio direction a device was built with.
#[derive(Clone, Copy, Debug, PartialEq, Eq, Structural)]
pub enum ArpDirection {
    Up,
    Down,
}

/// Which composer drives the audible path: the symbolic score (the default)
/// or the phase-locked loop scenes.
#[derive(Clone, Copy, Debug, PartialEq, Eq, Structural)]
pub enum Engine {
    Symbolic,
    Loops,
}

/// A device's musical identity: its beep pitch and arpeggio direction.
#[derive(Clone, Copy, Debug, PartialEq, Eq, Structural)]
pub struct DeviceVoice {
    pub beep_hz: u32,
    pub arp: ArpDirection,
}

impl DeviceVoice {
    pub fn new(beep_hz: u32, arp: ArpDirection) -> (r: Self)
        ensures
            r == (DeviceVoice { beep_hz, arp }),
    {
        Self { beep_hz, arp }
    }
}

} // verus!
