//! A tiny deterministic LCG for drift, latency and packet-loss jitter.
use vstd::prelude::*;

verus! {

/// The generator's step: Knuth's MMIX multiplier and increment, wrapping.
pub open spec fn lcg_step(s: u64) -> u64 {
    s.wrapping_mul(6364136223846793005).wrapping_add(1442695040888963407)
}

/// A draw below `upper` (at least 1) from the next state.
pub open spec fn bounded(s: u64, upper: u64) -> u64 {
    lcg_step(s) % (if upper < 1 { 1 } else { upper })
}

/// The offset `range_i32` adds to `min`: a draw below the span, cut to 32 bits.
pub open spec fn span_draw_i32(s: u64, min: i32, max: i32) -> int {
    bounded(s, (max - min) as i32 as u64) as i32 as int
}

/// The offset `range_i64` adds to `min`: a draw below the span.
pub open spec fn span_draw_i64(s: u64, min: i64, max: i64) -> int {
    bounded(s, (max - min) as i64 as u64) as i64 as int
}

#[derive(Debug)]
pub struct Lcg {
    state: u64,
}

impl Lcg {
    pub closed spec fn state(self) -> u64 {
        self.state
    }

    pub fn new(seed: u64) -> (r: Self)
        ensures
            r.state() == seed,
    {
        Self { state: seed }
    }

    pub fn next(&mut self) -> (r: u64)
        ensures
            r == lcg_step(old(self).state()),
            final(self).state() == r,
    {
        self.state = self.state.wrapping_mul(6364136223846793005).wrapping_add(1442695040888963407);
        self.state
    }

    pub fn next_bounded(&mut self, upper: u64) -> (r: u64)
        ensures
            r == bounded(old(self).state(), upper),
            final(self).state() == lcg_step(old(self).state()),
    {
        let bound = if upper < 1 {
            1
        } else {
            upper
        };
        self.next() % bound
    }

    /// A value from `min` up to (not including) `max`.
    pub fn range_i32(&mut self, min: i32, max: i32) -> (r: i32)
        requires
            i32::MIN <= max - min <= i32::MAX,
            i32::MIN <= min + span_draw_i32(old(self).state(), min, max) <= i32::MAX,
        ensures
            r == min + span_draw_i32(old(self).state(), min, max),
            final(self).state() == lcg_step(old(self).state()),
            min < max ==> min <= r < max,
    {
        let span = (max - min) as u64;
        let v = self.next_bounded(span);
        proof {
            if min < max {
                assert(v < (max - min));
                assert((v as i32) as int == v as int);
            }
        }
        min + v as i32
    }

    /// A value from `min` up to (not including) `max`.
    pub fn range_i64(&mut self, min: i64, max: i64) -> (r: i64)
        requires
            i64::MIN <= max - min <= i64::MAX,
            i64::MIN <= min + span_draw_i64(old(self).state(), min, max) <= i64::MAX,
        ensures
            r == min + span_draw_i64(old(self).state(), min, max),
            final(self).state() == lcg_step(old(self).state()),
            min < max ==> min <= r < max,
    {
        let span = (max - min) as u64;
        let v = self.next_bounded(span);
        proof {
            if min < max {
                assert(v < (max - min));
                assert((v as i64) as int == v as int);
            }
        }
        min + v as i64
    }
}

} // verus!
