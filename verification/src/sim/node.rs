//! Where simulated boxes sit and how their oscillators drift.
use crate::sim::rng::{lcg_step, span_draw_i32, span_draw_i64, Lcg};
use crate::{Micros, NodeId};
use vstd::prelude::*;

verus! {

pub const SAMPLE_RATE: u32 = 48_000;

/// Boxes per cluster.
pub const GROUP_SIZE: usize = 4;

/// Beep pitches handed to boxes in turn.
pub const DEVICE_BEEP_HZ: [u32; 8] = [1_320, 1_100, 880, 660, 440, 392, 330, 294];

/// A box's drift (ppb) and clock offset (us): box 1 is the reference, box 2
/// runs fast and late, the first box of the second cluster is fixed, and the
/// rest draw drift within ±120 ppm and an offset within ±180 ms (the second
/// cluster offset by a further 520 ms).
pub open spec fn spec_drift_and_offset(ix: usize, id: NodeId, s: u64) -> ((i32, Micros), u64) {
    if id == 1 {
        ((0i32, 0i64), s)
    } else if id == 2 {
        ((120_000i32, 140_000i64), s)
    } else if ix == GROUP_SIZE {
        ((-40_000i32, 520_000i64), s)
    } else {
        let drift = (-120_000 + span_draw_i32(s, -120_000i32, 120_000i32)) as i32;
        let s1 = lcg_step(s);
        let bias: int = if ix < GROUP_SIZE { 0 } else { 520_000 };
        let offset = (bias + (-180_000 + span_draw_i64(s1, -180_000i64, 180_000i64))) as i64;
        ((drift, offset), lcg_step(s1))
    }
}

pub fn drift_and_offset(ix: usize, id: NodeId, rng: &mut Lcg) -> (r: (i32, Micros))
    ensures
        (r, final(rng).state()) == spec_drift_and_offset(ix, id, old(rng).state()),
        -180_000 <= r.1 <= 700_000,
{
    let drift_ppb = if id == 1 {
        0
    } else if id == 2 {
        120_000
    } else if ix == GROUP_SIZE {
        -40_000
    } else {
        rng.range_i32(-120_000, 120_000)
    };
    let local_offset_us = if id == 1 {
        0
    } else if id == 2 {
        140_000
    } else if ix == GROUP_SIZE {
        520_000
    } else {
        let group_bias: i64 = if ix < GROUP_SIZE {
            0
        } else {
            520_000
        };
        group_bias + rng.range_i64(-180_000, 180_000)
    };
    (drift_ppb, local_offset_us)
}

/// Two boxes are in the same cluster.
pub fn same_group(source: usize, target: usize) -> (r: bool)
    ensures
        r == (source / GROUP_SIZE == target / GROUP_SIZE),
{
    source / GROUP_SIZE == target / GROUP_SIZE
}

/// Even clusters sit on the listener's left, odd ones on the right.
pub fn pans_left(ix: usize) -> (r: bool)
    ensures
        r == ((ix / GROUP_SIZE) % 2 == 0),
{
    (ix / GROUP_SIZE) % 2 == 0
}

/// A box's hardware-local time at a global time: the offset plus the drift
/// accumulated since global zero (truncated toward zero, cut to 64 bits).
pub open spec fn spec_local_time(global_us: Micros, offset_us: Micros, drift_ppb: i32) -> int {
    global_us + offset_us + (crate::arith::trunc_div(global_us * drift_ppb, 1_000_000_000) as i64)
}

pub fn local_time(global_us: Micros, local_offset_us: Micros, drift_ppb: i32) -> (r: Micros)
    requires
        i64::MIN <= global_us + local_offset_us <= i64::MAX,
        i64::MIN <= spec_local_time(global_us, local_offset_us, drift_ppb) <= i64::MAX,
    ensures
        r == spec_local_time(global_us, local_offset_us, drift_ppb),
{
    let g = global_us as i128;
    let d = drift_ppb as i128;
    assert(-0x8000_0000_0000_0000 * 0x8000_0000 <= g * d <= 0x8000_0000_0000_0000 * 0x8000_0000) by (nonlinear_arith)
        requires
            -0x8000_0000_0000_0000 <= g < 0x8000_0000_0000_0000,
            -0x8000_0000 <= d < 0x8000_0000,
    ;
    let q = ((g * d) / 1_000_000_000) as i64;
    global_us + local_offset_us + q
}

} // verus!
