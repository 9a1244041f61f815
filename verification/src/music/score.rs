//! The symbolic composer's shared timing: the sixteenth grid, the
//! per-event hash behind humanisation and seeded choices, bounded
//! humanisation, and swing.
use crate::arith::trunc_div;
use crate::hash::{fmix64, mix};
use vstd::prelude::*;

pub mod drums;
pub mod render;
pub mod scene;
pub mod session;
pub mod tonal;

verus! {

/// Sixteenth-note steps per bar; the composer's rhythmic resolution.
pub const STEPS_PER_BAR: i64 = 16;

/// Steps in one four-bar pattern cycle.
pub const STEPS_PER_CYCLE: i64 = 64;

/// Transport ticks per sixteenth step (96 ticks per beat).
pub const TICKS_PER_STEP: i64 = 24;

/// The level of a hit at unity loudness. Levels are whole fractions of it:
/// 127 × 10 000, so both MIDI velocities and hundredths come out exact.
pub const LEVEL_UNITY: u32 = 1_270_000;

/// One symbolic note or hit, common to every lane.
#[derive(Clone, Copy, Debug, PartialEq, Eq, Structural)]
pub struct Event {
    /// Index into the lane's scene bind table (which sampled voice plays).
    pub bind: u8,
    /// Concrete MIDI pitch, or the drum voice code for unpitched lanes.
    pub midi: u8,
    /// Loudness as a fraction of [`LEVEL_UNITY`], before the lane's gain.
    pub level: u32,
    /// Micro-timing offset from the quantised step, in microseconds. Swing,
    /// the lane's measured pocket, and humanisation all land here.
    pub delay_us: i64,
}

/// The hash of an event: seed, lane and step mixed through the finaliser.
pub open spec fn spec_event_hash(seed: u64, lane: u64, step: i64) -> u64 {
    fmix64(seed ^ lane.wrapping_mul(0xc2b2_ae3d_27d4_eb4f) ^ (step as u64).wrapping_mul(0x9e37_79b9_7f4a_7c15))
}

pub fn event_hash(seed: u64, lane: u64, step: i64) -> (r: u64)
    ensures
        r == spec_event_hash(seed, lane, step),
{
    mix(seed ^ lane.wrapping_mul(0xc2b2_ae3d_27d4_eb4f) ^ (step as u64).wrapping_mul(0x9e37_79b9_7f4a_7c15))
}

/// Bounded, deterministic humanisation: the event's hash taken over the
/// `2 * bound + 1` offsets from `-bound` to `bound`.
pub open spec fn spec_humanize(seed: u64, lane: u64, step: i64, bound: i64) -> int {
    if bound == 0 {
        0
    } else {
        (spec_event_hash(seed, lane, step) % ((2 * bound + 1) as u64)) as i64 - bound
    }
}

pub fn humanize_us(seed: u64, lane: u64, step: i64, bound_us: i64) -> (r: i64)
    requires
        bound_us != 0 ==> i64::MIN <= 2 * bound_us + 1 <= i64::MAX,
        i64::MIN <= spec_humanize(seed, lane, step, bound_us) <= i64::MAX,
    ensures
        r == spec_humanize(seed, lane, step, bound_us),
        0 <= bound_us <= 0x3fff_ffff_ffff_ffff ==> -bound_us <= r <= bound_us,
{
    if bound_us == 0 {
        return 0;
    }
    let h = event_hash(seed, lane, step);
    let t = 2 * bound_us + 1;
    assert(t != 0 ==> (t as u64) != 0) by (bit_vector);
    let span = t as u64;
    let v = (h % span) as i64;
    proof {
        if 0 < bound_us <= 0x3fff_ffff_ffff_ffff {
            assert(h % span < span);
            assert(v as int == (h % span) as int);
        }
    }
    v - bound_us
}

/// The swing delay of a step in the bar: off-beat eighths take the full
/// swing, off sixteenths half of it, the beats none.
pub open spec fn spec_swing(bar_pos: i64, swing_percent: i64, step_us: i64) -> int {
    if bar_pos % 4 == 2 {
        trunc_div(step_us * swing_percent, 100)
    } else if bar_pos % 2 == 1 {
        trunc_div(step_us * swing_percent, 200)
    } else {
        0
    }
}

pub fn swing_us(bar_pos: i64, swing_percent: i64, step_us: i64) -> (r: i64)
    requires
        bar_pos % 2 == 1 || bar_pos % 4 == 2 ==> i64::MIN <= step_us * swing_percent <= i64::MAX,
    ensures
        r == spec_swing(bar_pos, swing_percent, step_us),
{
    if crate::arith::rem_euclid_i64(bar_pos, 4) == 2 {
        step_us * swing_percent / 100
    } else if crate::arith::rem_euclid_i64(bar_pos, 2) == 1 {
        step_us * swing_percent / 200
    } else {
        0
    }
}

/// Swing leaves the beats and their halves alone: only the off-beat eighths
/// and the off sixteenths move.
pub proof fn lemma_swing_offbeats_only(bar_pos: i64, swing_percent: i64, step_us: i64)
    ensures
        bar_pos % 4 == 0 ==> spec_swing(bar_pos, swing_percent, step_us) == 0,
{
}

} // verus!
