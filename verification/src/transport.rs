//! The shared musical timeline: a tempo and a song origin on mesh time, with
//! exact integer conversion between microseconds and transport ticks.
use crate::arith::{
    lemma_trunc_decompose, sat_add_i64, sat_sub_i64, saturating_add_i64, saturating_sub_i64,
    trunc_div, trunc_rem,
};
use crate::Micros;
use vstd::prelude::*;

verus! {

pub const DEFAULT_TICKS_PER_BEAT: u32 = 96;

pub const MICROS_PER_MILLI_MINUTE: i64 = 60_000_000_000;

/// Whether an integer fits in an `i64`.
pub open spec fn in_i64(x: int) -> bool {
    i64::MIN <= x <= i64::MAX
}

/// Rounding-up division as written with a truncating quotient: one more
/// than the quotient when there is a remainder and the exact quotient is
/// positive.
pub open spec fn ceil_div(n: int, d: int) -> int {
    trunc_div(n, d) + if trunc_rem(n, d) != 0 && ((n > 0) == (d > 0)) {
        1int
    } else {
        0int
    }
}

/// `value * multiplier / denominator` computed on the split
/// `value = q * denominator + r` with wrapping 64-bit products.
pub open spec fn spec_mul_div_trunc(value: i64, multiplier: i64, denominator: i64) -> i64 {
    let q = trunc_div(value as int, denominator as int) as i64;
    let r = trunc_rem(value as int, denominator as int) as i64;
    q.wrapping_mul(multiplier).wrapping_add(
        trunc_div(r.wrapping_mul(multiplier) as int, denominator as int) as i64,
    )
}

/// The rounding-up counterpart of [`spec_mul_div_trunc`].
pub open spec fn spec_mul_div_ceil(value: i64, multiplier: i64, denominator: i64) -> i64 {
    let q = trunc_div(value as int, denominator as int) as i64;
    let r = trunc_rem(value as int, denominator as int) as i64;
    q.wrapping_mul(multiplier).wrapping_add(
        ceil_div(r.wrapping_mul(multiplier) as int, denominator as int) as i64,
    )
}

/// The split computation is exact whenever its partial products fit.
pub open spec fn mul_div_fits(value: i64, multiplier: i64, denominator: i64) -> bool {
    let q = trunc_div(value as int, denominator as int);
    let r = trunc_rem(value as int, denominator as int);
    &&& in_i64(q * multiplier)
    &&& in_i64(r * multiplier)
    &&& in_i64(q * multiplier + trunc_div(r * multiplier, denominator as int))
    &&& in_i64(q * multiplier + ceil_div(r * multiplier, denominator as int))
}

#[derive(Clone, Copy, Debug, PartialEq, Eq, Structural)]
pub struct Transport {
    pub song_zero_us: Micros,
    pub bpm_milli: u32,
    pub ticks_per_beat: u32,
}

impl Transport {
    /// Ticks per thousandth of a minute.
    pub open spec fn ticks_per_milli_minute(self) -> int {
        self.bpm_milli as int * self.ticks_per_beat as int
    }

    /// The tempo product fits in 64 bits (std would overflow otherwise).
    pub open spec fn wf(self) -> bool {
        self.ticks_per_milli_minute() <= i64::MAX
    }

    /// The tick playing at `root_time_us`, truncated toward zero.
    pub open spec fn spec_tick_at(self, root_time_us: Micros) -> i64 {
        spec_mul_div_trunc(
            sat_sub_i64(root_time_us, self.song_zero_us),
            self.ticks_per_milli_minute() as i64,
            MICROS_PER_MILLI_MINUTE,
        )
    }

    /// The first microsecond of `tick`.
    pub open spec fn spec_root_time_for_tick(self, tick: i64) -> Micros {
        let tpm = self.ticks_per_milli_minute();
        sat_add_i64(
            self.song_zero_us,
            spec_mul_div_ceil(tick, MICROS_PER_MILLI_MINUTE, if tpm < 1 { 1 } else { tpm } as i64),
        )
    }

    /// The timeline at a new tempo, re-anchored at `root_time_us`.
    pub open spec fn spec_retimed(self, root_time_us: Micros, new_bpm_milli: u32) -> Transport {
        Transport {
            song_zero_us: sat_sub_i64(
                root_time_us,
                (Transport { song_zero_us: 0, bpm_milli: new_bpm_milli, ticks_per_beat: self.ticks_per_beat })
                    .spec_root_time_for_tick(self.spec_tick_at(root_time_us)),
            ),
            bpm_milli: new_bpm_milli,
            ticks_per_beat: self.ticks_per_beat,
        }
    }

    pub fn new(song_zero_us: Micros, bpm_milli: u32, ticks_per_beat: u32) -> (r: Self)
        ensures
            r == (Transport { song_zero_us, bpm_milli, ticks_per_beat }),
    {
        Self { song_zero_us, bpm_milli, ticks_per_beat }
    }

    /// 90 BPM at the default resolution.
    pub fn default_at(song_zero_us: Micros) -> (r: Self)
        ensures
            r == (Transport { song_zero_us, bpm_milli: 90_000, ticks_per_beat: DEFAULT_TICKS_PER_BEAT }),
    {
        Self::new(song_zero_us, 90_000, DEFAULT_TICKS_PER_BEAT)
    }

    pub fn tick_at(&self, root_time_us: Micros) -> (r: i64)
        requires
            self.wf(),
        ensures
            r == self.spec_tick_at(root_time_us),
            ({
                let e = sat_sub_i64(root_time_us, self.song_zero_us);
                mul_div_fits(e, self.ticks_per_milli_minute() as i64, MICROS_PER_MILLI_MINUTE)
                    ==> r == trunc_div(e * self.ticks_per_milli_minute(), MICROS_PER_MILLI_MINUTE as int)
            }),
    {
        let elapsed = saturating_sub_i64(root_time_us, self.song_zero_us);
        let ticks_per_milli_minute = (self.bpm_milli as i64) * (self.ticks_per_beat as i64);
        proof {
            if mul_div_fits(elapsed, ticks_per_milli_minute, MICROS_PER_MILLI_MINUTE) {
                lemma_mul_div_trunc_exact(elapsed, ticks_per_milli_minute, MICROS_PER_MILLI_MINUTE);
            }
        }
        mul_div_trunc(elapsed, ticks_per_milli_minute, MICROS_PER_MILLI_MINUTE)
    }

    pub fn root_time_for_tick(&self, tick: i64) -> (r: Micros)
        requires
            self.wf(),
        ensures
            r == self.spec_root_time_for_tick(tick),
            ({
                let tpm = self.ticks_per_milli_minute();
                let den = if tpm < 1 { 1 } else { tpm };
                mul_div_fits(tick, MICROS_PER_MILLI_MINUTE, den as i64)
                    && in_i64(self.song_zero_us + ceil_div(tick * MICROS_PER_MILLI_MINUTE, den))
                    ==> r == self.song_zero_us + ceil_div(tick * MICROS_PER_MILLI_MINUTE, den)
            }),
    {
        let ticks_per_milli_minute = (self.bpm_milli as i64) * (self.ticks_per_beat as i64);
        let den = if ticks_per_milli_minute < 1 {
            1
        } else {
            ticks_per_milli_minute
        };
        proof {
            if mul_div_fits(tick, MICROS_PER_MILLI_MINUTE, den) {
                lemma_mul_div_ceil_exact(tick, MICROS_PER_MILLI_MINUTE, den);
            }
        }
        let elapsed_us = mul_div_ceil(tick, MICROS_PER_MILLI_MINUTE, den);
        saturating_add_i64(self.song_zero_us, elapsed_us)
    }

    /// The same timeline at a new tempo, re-anchored so the tick playing at
    /// `root_time_us` does not jump.
    pub fn retimed(&self, root_time_us: Micros, new_bpm_milli: u32) -> (r: Self)
        requires
            self.wf(),
            new_bpm_milli as int * self.ticks_per_beat as int <= i64::MAX,
        ensures
            r == self.spec_retimed(root_time_us, new_bpm_milli),
    {
        let tick = self.tick_at(root_time_us);
        let new_t = Self::new(0, new_bpm_milli, self.ticks_per_beat);
        let zero = saturating_sub_i64(root_time_us, new_t.root_time_for_tick(tick));
        Self::new(zero, new_bpm_milli, self.ticks_per_beat)
    }
}

fn mul_div_trunc(value: i64, multiplier: i64, denominator: i64) -> (r: i64)
    requires
        denominator > 0,
    ensures
        r == spec_mul_div_trunc(value, multiplier, denominator),
{
    let quotient = value / denominator;
    let remainder = value % denominator;
    quotient.wrapping_mul(multiplier).wrapping_add(remainder.wrapping_mul(multiplier) / denominator)
}

fn mul_div_ceil(value: i64, multiplier: i64, denominator: i64) -> (r: i64)
    requires
        denominator > 0,
    ensures
        r == spec_mul_div_ceil(value, multiplier, denominator),
{
    let quotient = value / denominator;
    let remainder = value % denominator;
    assert(quotient == trunc_div(value as int, denominator as int));
    assert(remainder == trunc_rem(value as int, denominator as int));
    let c = div_ceil_i64(remainder.wrapping_mul(multiplier), denominator);
    quotient.wrapping_mul(multiplier).wrapping_add(c)
}

fn div_ceil_i64(numerator: i64, denominator: i64) -> (r: i64)
    requires
        denominator > 0,
    ensures
        r == ceil_div(numerator as int, denominator as int),
{
    let quotient = numerator / denominator;
    let remainder = numerator % denominator;
    if remainder != 0 && ((numerator > 0) == (denominator > 0)) {
        proof {
            lemma_trunc_decompose(numerator as int, 1, denominator as int);
            assert(denominator >= 2);
            assert(quotient <= numerator / 2) by (nonlinear_arith)
                requires
                    numerator > 0,
                    denominator >= 2,
                    quotient == numerator as int / denominator as int,
            ;
        }
        quotient + 1
    } else {
        quotient
    }
}

/// The first microsecond of a tick, negative ticks too, is the song origin
/// plus the tick's start rounded up to a whole microsecond: the offset `c`
/// with `c` ticks' worth of time reaching the tick and `c - 1` falling short.
/// Stated where the split 64-bit products are exact and the instant lies on
/// the 64-bit clock.
pub proof fn lemma_root_time_rounds_up(t: Transport, k: i64)
    requires
        t.wf(),
        t.ticks_per_milli_minute() >= 1,
        mul_div_fits(k, MICROS_PER_MILLI_MINUTE, t.ticks_per_milli_minute() as i64),
        in_i64(t.song_zero_us + ceil_div(k * MICROS_PER_MILLI_MINUTE, t.ticks_per_milli_minute())),
    ensures
        ({
            let c = t.spec_root_time_for_tick(k) - t.song_zero_us;
            &&& c == ceil_div(k * MICROS_PER_MILLI_MINUTE, t.ticks_per_milli_minute())
            &&& c * t.ticks_per_milli_minute() >= k * MICROS_PER_MILLI_MINUTE
            &&& (c - 1) * t.ticks_per_milli_minute() < k * MICROS_PER_MILLI_MINUTE
        }),
{
    let m = t.ticks_per_milli_minute();
    let d = MICROS_PER_MILLI_MINUTE as int;
    lemma_mul_div_ceil_exact(k, MICROS_PER_MILLI_MINUTE, m as i64);
    let n = k * d;
    let c = ceil_div(n, m);
    assert(t.spec_root_time_for_tick(k) == t.song_zero_us + c);
    if n >= 0 {
        if n == 0 {
            assert(n / m == 0 && n % m == 0) by (nonlinear_arith)
                requires
                    n == 0,
                    m >= 1,
            ;
        }
        assert(c == n / m + if n % m != 0 { 1int } else { 0int });
        assert(c * m >= n && (c - 1) * m < n) by (nonlinear_arith)
            requires
                m >= 1,
                n >= 0,
                c == n / m + if n % m != 0 { 1int } else { 0int },
        ;
    } else {
        assert(c == -((-n) / m));
        assert(c * m >= n && (c - 1) * m < n) by (nonlinear_arith)
            requires
                m >= 1,
                n < 0,
                c == -((-n) / m),
        ;
    }
}

/// A tick's first microsecond is where it starts: at `root_time_for_tick(k)`
/// the transport reads tick `k`, and one microsecond earlier it reads tick
/// `k - 1`. Stated for positive ticks at tempos of at most one tick per
/// microsecond, where the split 64-bit products are exact and the instant
/// lies on the 64-bit clock.
pub proof fn lemma_tick_starts_at_its_root_time(t: Transport, k: i64)
    requires
        k >= 1,
        1 <= t.ticks_per_milli_minute() <= MICROS_PER_MILLI_MINUTE,
        mul_div_fits(k, MICROS_PER_MILLI_MINUTE, t.ticks_per_milli_minute() as i64),
        ({
            let c = ceil_div(k * MICROS_PER_MILLI_MINUTE, t.ticks_per_milli_minute());
            &&& in_i64(t.song_zero_us + c)
            &&& in_i64(c) && mul_div_fits(c as i64, t.ticks_per_milli_minute() as i64, MICROS_PER_MILLI_MINUTE)
            &&& mul_div_fits((c - 1) as i64, t.ticks_per_milli_minute() as i64, MICROS_PER_MILLI_MINUTE)
        }),
    ensures
        t.spec_tick_at(t.spec_root_time_for_tick(k)) == k,
        t.spec_tick_at((t.spec_root_time_for_tick(k) - 1) as i64) == k - 1,
{
    let m = t.ticks_per_milli_minute();
    let d = MICROS_PER_MILLI_MINUTE as int;
    lemma_mul_div_ceil_exact(k, MICROS_PER_MILLI_MINUTE, m as i64);
    let n = k * d;
    let c = ceil_div(n, m);
    assert(n > 0) by (nonlinear_arith)
        requires
            k >= 1,
            d > 0,
            n == k * d,
    ;
    assert(c == n / m + if n % m != 0 { 1int } else { 0int });
    assert(c * m >= n && (c - 1) * m < n) by (nonlinear_arith)
        requires
            m >= 1,
            n > 0,
            c == n / m + if n % m != 0 { 1int } else { 0int },
    ;
    assert(c >= 1) by (nonlinear_arith)
        requires
            m >= 1,
            c * m >= n,
            n > 0,
    ;
    let root = t.spec_root_time_for_tick(k);
    assert(root == t.song_zero_us + c);
    assert(sat_sub_i64(root, t.song_zero_us) == c);
    assert(sat_sub_i64((root - 1) as i64, t.song_zero_us) == c - 1);
    lemma_mul_div_trunc_exact(c as i64, m as i64, MICROS_PER_MILLI_MINUTE);
    lemma_mul_div_trunc_exact((c - 1) as i64, m as i64, MICROS_PER_MILLI_MINUTE);
    assert((c * m) / d == k) by (nonlinear_arith)
        requires
            c * m >= n,
            (c - 1) * m < n,
            n == k * d,
            m <= d,
            d > 0,
            c >= 1,
            m >= 1,
    ;
    assert(((c - 1) * m) / d == k - 1) by (nonlinear_arith)
        requires
            (c - 1) * m < n,
            c * m >= n,
            n == k * d,
            m <= d,
            d > 0,
            c >= 1,
            m >= 1,
    ;
}

/// The split truncating computation equals the exact truncated quotient
/// whenever its partial products fit in 64 bits.
pub proof fn lemma_mul_div_trunc_exact(value: i64, m: i64, d: i64)
    requires
        d > 0,
        m >= 0,
        mul_div_fits(value, m, d),
    ensures
        spec_mul_div_trunc(value, m, d) == trunc_div(value * m, d as int),
{
    lemma_trunc_decompose(value as int, m as int, d as int);
}

/// The split rounding-up computation equals the exact rounded-up quotient
/// whenever its partial products fit in 64 bits.
pub proof fn lemma_mul_div_ceil_exact(value: i64, m: i64, d: i64)
    requires
        d > 0,
        m >= 0,
        mul_div_fits(value, m, d),
    ensures
        spec_mul_div_ceil(value, m, d) == ceil_div(value * m, d as int),
{
    lemma_trunc_decompose(value as int, m as int, d as int);
    let r = trunc_rem(value as int, d as int);
    if value >= 0 {
        assert(value * m >= 0) by (nonlinear_arith)
            requires
                value >= 0,
                m >= 0,
        ;
        assert(r * m >= 0) by (nonlinear_arith)
            requires
                r >= 0,
                m >= 0,
        ;
        vstd::arithmetic::div_mod::lemma_mod_decreases(value as nat, d as nat);
        assert(value >= r);
        if r * m > 0 {
            assert(value * m > 0) by (nonlinear_arith)
                requires
                    value >= r,
                    r * m > 0,
                    r >= 0,
                    m >= 0,
            ;
        }
    } else {
        assert(value * m <= 0) by (nonlinear_arith)
            requires
                value < 0,
                m >= 0,
        ;
        assert(r * m <= 0) by (nonlinear_arith)
            requires
                r <= 0,
                m >= 0,
        ;
    }
    assert(trunc_rem(0, d as int) == 0);
    assert(trunc_rem(r * m, d as int) != 0 ==> ((value * m > 0) == (r * m > 0)));
    assert((r as i64).wrapping_mul(m) == r * m);
    assert((trunc_div(value as int, d as int) as i64).wrapping_mul(m) == trunc_div(value as int, d as int) * m);
}

/// A tempo change does not move the playhead: right after re-anchoring, the
/// new timeline plays the same tick the old one did. Holds from the song
/// origin on, while the arithmetic stays in 64 bits and the new tempo is at
/// most one tick per microsecond.
pub proof fn lemma_retimed_keeps_tick(t: Transport, root_time_us: Micros, new_bpm_milli: u32)
    requires
        t.wf(),
        root_time_us >= t.song_zero_us,
        in_i64(root_time_us - t.song_zero_us),
        mul_div_fits(
            (root_time_us - t.song_zero_us) as i64,
            t.ticks_per_milli_minute() as i64,
            MICROS_PER_MILLI_MINUTE,
        ),
        1 <= new_bpm_milli as int * t.ticks_per_beat as int <= MICROS_PER_MILLI_MINUTE,
        ({
            let tick = t.spec_tick_at(root_time_us);
            let m2 = new_bpm_milli as int * t.ticks_per_beat as int;
            let e2 = ceil_div(tick * MICROS_PER_MILLI_MINUTE, m2);
            &&& mul_div_fits(tick, MICROS_PER_MILLI_MINUTE, m2 as i64)
            &&& in_i64(e2)
            &&& in_i64(root_time_us - e2)
            &&& mul_div_fits(e2 as i64, m2 as i64, MICROS_PER_MILLI_MINUTE)
        }),
    ensures
        t.spec_retimed(root_time_us, new_bpm_milli).spec_tick_at(root_time_us) == t.spec_tick_at(
            root_time_us,
        ),
{
    let d = MICROS_PER_MILLI_MINUTE as int;
    let m = t.ticks_per_milli_minute();
    let e = root_time_us - t.song_zero_us;
    assert(sat_sub_i64(root_time_us, t.song_zero_us) == e);
    lemma_mul_div_trunc_exact(e as i64, m as i64, MICROS_PER_MILLI_MINUTE);
    let tick = t.spec_tick_at(root_time_us);
    assert(e * m >= 0) by (nonlinear_arith)
        requires
            e >= 0,
            m >= 0,
    ;
    assert(tick == (e * m) / d);
    assert(tick >= 0) by (nonlinear_arith)
        requires
            e * m >= 0,
            d > 0,
            tick == (e * m) / d,
    ;
    let m2 = new_bpm_milli as int * t.ticks_per_beat as int;
    let n = tick * d;
    assert(n >= 0) by (nonlinear_arith)
        requires
            n == tick * d,
            tick >= 0,
            d > 0,
    ;
    let nt = Transport { song_zero_us: 0, bpm_milli: new_bpm_milli, ticks_per_beat: t.ticks_per_beat };
    assert(nt.ticks_per_milli_minute() == m2);
    lemma_mul_div_ceil_exact(tick, MICROS_PER_MILLI_MINUTE, m2 as i64);
    let e2 = ceil_div(n, m2);
    assert(nt.spec_root_time_for_tick(tick) == e2);
    let r = t.spec_retimed(root_time_us, new_bpm_milli);
    assert(r.song_zero_us == root_time_us - e2);
    assert(sat_sub_i64(root_time_us, r.song_zero_us) == e2);
    // n = m2 * q + rem with 0 <= rem < m2, and e2 * m2 lands in [n, n + m2).
    vstd::arithmetic::div_mod::lemma_fundamental_div_mod(n, m2);
    let q = n / m2;
    let rem = n % m2;
    assert(e2 == q + if rem != 0 { 1int } else { 0int });
    assert(e2 * m2 >= n && e2 * m2 < n + m2) by (nonlinear_arith)
        requires
            n == m2 * q + rem,
            0 <= rem < m2,
            e2 == q + if rem != 0 { 1int } else { 0int },
    ;
    assert(e2 >= 0) by (nonlinear_arith)
        requires
            e2 * m2 >= n,
            n >= 0,
            m2 >= 1,
    ;
    lemma_mul_div_trunc_exact(e2 as i64, m2 as i64, MICROS_PER_MILLI_MINUTE);
    assert(e2 * m2 >= 0) by (nonlinear_arith)
        requires
            e2 >= 0,
            m2 >= 1,
    ;
    vstd::arithmetic::div_mod::lemma_fundamental_div_mod_converse_div(e2 * m2, d, tick as int, e2 * m2 - n);
}

} // verus!
