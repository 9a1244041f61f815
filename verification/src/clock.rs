//! Affine clock discipline, NTP style: local time maps to reference time by
//! an offset plus a rate correction in parts per billion, both slewed toward
//! each accepted observation.
use crate::arith::{
    clamp, clamp_i32, sat_add_i32, sat_add_i64, sat_sub_i32, sat_sub_i64, saturating_add_i32,
    saturating_add_i64, saturating_sub_i32, saturating_sub_i64, trunc_div,
};
use crate::Micros;
use vstd::prelude::*;

verus! {

pub const PPB_DENOM: i128 = 1_000_000_000;

/// The state of a clock model, as the contracts speak of it.
pub struct ClockView {
    pub offset_us: Micros,
    pub rate_ppb: i32,
    /// The last accepted observation: `(local_us, root_us)`.
    pub last_sample: Option<(Micros, Micros)>,
}

#[derive(Clone, Copy, Debug, PartialEq, Eq, Structural)]
pub struct ClockModel {
    offset_us: Micros,
    rate_ppb: i32,
    last_sample: Option<Sample>,
}

#[derive(Clone, Copy, Debug, PartialEq, Eq, Structural)]
struct Sample {
    local_us: Micros,
    root_us: Micros,
}

#[derive(Clone, Copy, Debug, PartialEq, Eq, Structural)]
pub struct DisciplineConfig {
    pub offset_smoothing_shift: u8,
    pub rate_smoothing_shift: u8,
    pub max_rate_ppb: i32,
    pub reject_offset_us: Micros,
}

impl Default for DisciplineConfig {
    fn default() -> (r: Self)
        ensures
            r == (DisciplineConfig {
                offset_smoothing_shift: 4,
                rate_smoothing_shift: 5,
                max_rate_ppb: 250_000,
                reject_offset_us: 250_000,
            }),
    {
        Self {
            offset_smoothing_shift: 4,
            rate_smoothing_shift: 5,
            max_rate_ppb: 250_000,
            reject_offset_us: 250_000,
        }
    }
}

#[derive(Clone, Copy, Debug, PartialEq, Eq, Structural)]
pub struct Observation {
    pub accepted: bool,
    pub error_us: Micros,
    pub offset_us: Micros,
    pub rate_ppb: i32,
}

/// `value / 2^shift`, rounded toward zero.
pub open spec fn spec_shift_toward_zero(value: i64, shift: u8) -> i64 {
    if shift == 0 {
        value
    } else if value >= 0 {
        value >> shift
    } else {
        (-(((-value) as i64) >> shift)) as i64
    }
}

/// `value / 2^shift`, rounded toward zero.
pub open spec fn spec_shift_i32_toward_zero(value: i32, shift: u8) -> i32 {
    if shift == 0 {
        value
    } else if value >= 0 {
        value >> shift
    } else {
        (-(((-value) as i32) >> shift)) as i32
    }
}

/// A wide value saturated into 64 bits.
pub open spec fn sat_i128_to_i64(value: int) -> i64 {
    clamp(value, i64::MIN as int, i64::MAX as int) as i64
}

/// `rate_ppb` parts per billion of `local_us`, rounded toward zero.
pub open spec fn rate_adjust(local_us: Micros, rate_ppb: i32) -> int {
    trunc_div(local_us * rate_ppb, PPB_DENOM as int)
}

/// The reference time a model predicts for a local instant.
pub open spec fn spec_root_from_local(m: ClockView, local_us: Micros) -> Micros {
    sat_add_i64(sat_add_i64(local_us, m.offset_us), sat_i128_to_i64(rate_adjust(local_us, m.rate_ppb)))
}

/// The rate a pair of samples measures, in parts per billion, as an `i32`
/// (wrapping) before clamping.
pub open spec fn measured_ppb(local_dt: i64, root_dt: i64) -> i32 {
    trunc_div((root_dt - local_dt) * PPB_DENOM, local_dt as int) as i32
}

/// Whether an observation is refused: a large error once the model has a
/// history.
pub open spec fn rejects(m: ClockView, local_rx_us: Micros, observed_root_us: Micros, cfg: DisciplineConfig) -> bool {
    let error = sat_sub_i64(observed_root_us, spec_root_from_local(m, local_rx_us));
    (if error < 0 { -error } else { error as int }) > cfg.reject_offset_us && m.last_sample is Some
}

/// Whether the rate estimate is re-measured: the model has a previous
/// sample and both clocks advanced by more than 20 ms since it.
pub open spec fn remeasures(m: ClockView, local_rx_us: Micros, observed_root_us: Micros) -> bool {
    match m.last_sample {
        Some((l, r)) => sat_sub_i64(local_rx_us, l) > 20_000 && sat_sub_i64(observed_root_us, r) > 20_000,
        None => false,
    }
}

/// The rate error that an observation feeds into the rate estimate.
pub open spec fn rate_error(m: ClockView, local_rx_us: Micros, observed_root_us: Micros, cfg: DisciplineConfig) -> i32 {
    match m.last_sample {
        Some((l, r)) => {
            let measured = measured_ppb(sat_sub_i64(local_rx_us, l), sat_sub_i64(observed_root_us, r));
            let clamped = clamp(measured as int, -cfg.max_rate_ppb, cfg.max_rate_ppb as int) as i32;
            sat_sub_i32(clamped, m.rate_ppb)
        },
        None => 0,
    }
}

/// The inputs on which `observe` stays within its integer ranges: a
/// non-negative rate limit, shifts narrower than the words they shift, and
/// errors that are not the most negative value (whose negation overflows).
pub open spec fn observe_in_range(m: ClockView, local_rx_us: Micros, observed_root_us: Micros, cfg: DisciplineConfig) -> bool {
    &&& cfg.max_rate_ppb >= 0
    &&& cfg.offset_smoothing_shift < 64
    &&& cfg.rate_smoothing_shift < 32
    &&& sat_sub_i64(observed_root_us, spec_root_from_local(m, local_rx_us)) != i64::MIN
    &&& (!rejects(m, local_rx_us, observed_root_us, cfg) && remeasures(m, local_rx_us, observed_root_us))
        ==> rate_error(m, local_rx_us, observed_root_us, cfg) != i32::MIN
}

/// The model after an observation.
pub open spec fn spec_observe(m: ClockView, local_rx_us: Micros, observed_root_us: Micros, cfg: DisciplineConfig) -> ClockView {
    let error = sat_sub_i64(observed_root_us, spec_root_from_local(m, local_rx_us));
    if rejects(m, local_rx_us, observed_root_us, cfg) {
        m
    } else {
        ClockView {
            offset_us: sat_add_i64(m.offset_us, spec_shift_toward_zero(error, cfg.offset_smoothing_shift)),
            rate_ppb: if remeasures(m, local_rx_us, observed_root_us) {
                clamp(
                    sat_add_i32(
                        m.rate_ppb,
                        spec_shift_i32_toward_zero(
                            rate_error(m, local_rx_us, observed_root_us, cfg),
                            cfg.rate_smoothing_shift,
                        ),
                    ) as int,
                    -cfg.max_rate_ppb,
                    cfg.max_rate_ppb as int,
                ) as i32
            } else {
                m.rate_ppb
            },
            last_sample: Some((local_rx_us, observed_root_us)),
        }
    }
}

impl View for ClockModel {
    type V = ClockView;

    closed spec fn view(&self) -> ClockView {
        ClockView {
            offset_us: self.offset_us,
            rate_ppb: self.rate_ppb,
            last_sample: match self.last_sample {
                Some(s) => Some((s.local_us, s.root_us)),
                None => None,
            },
        }
    }
}

impl ClockModel {
    pub fn new() -> (r: Self)
        ensures
            r@ == (ClockView { offset_us: 0, rate_ppb: 0, last_sample: None }),
    {
        Self { offset_us: 0, rate_ppb: 0, last_sample: None }
    }

    pub fn with_offset(offset_us: Micros) -> (r: Self)
        ensures
            r@ == (ClockView { offset_us, rate_ppb: 0, last_sample: None }),
    {
        Self { offset_us, rate_ppb: 0, last_sample: None }
    }

    pub fn offset_us(&self) -> (r: Micros)
        ensures
            r == self@.offset_us,
    {
        self.offset_us
    }

    pub fn rate_ppb(&self) -> (r: i32)
        ensures
            r == self@.rate_ppb,
    {
        self.rate_ppb
    }

    /// Reference time for a local instant.
    pub fn root_from_local(&self, local_us: Micros) -> (r: Micros)
        ensures
            r == spec_root_from_local(self@, local_us),
    {
        proof {
            assert(local_us as int * self.rate_ppb as int <= 0x8000_0000_0000_0000 * 0x8000_0000int) by (nonlinear_arith);
            assert(local_us as int * self.rate_ppb as int >= -0x8000_0000_0000_0000 * 0x8000_0000int) by (nonlinear_arith);
        }
        let rate_adjust = (local_us as i128 * self.rate_ppb as i128) / PPB_DENOM;
        saturating_add_i64(
            saturating_add_i64(local_us, self.offset_us),
            saturating_i128_to_i64(rate_adjust),
        )
    }

    /// Local instant for a reference time (the inverse mapping), saturated.
    pub fn local_from_root(&self, root_us: Micros) -> (r: Micros)
        requires
            i64::MIN <= root_us - self@.offset_us <= i64::MAX,
            self@.rate_ppb != -1_000_000_000,
        ensures
            r == sat_i128_to_i64(
                trunc_div((root_us - self@.offset_us) * PPB_DENOM, PPB_DENOM + self@.rate_ppb),
            ),
    {
        let denom = PPB_DENOM + self.rate_ppb as i128;
        proof {
            let x = (root_us - self.offset_us) as int;
            assert(x * 1_000_000_000 <= 0x8000_0000_0000_0000 * 1_000_000_000int) by (nonlinear_arith)
                requires
                    x <= 0x8000_0000_0000_0000,
            ;
            assert(x * 1_000_000_000 >= -0x8000_0000_0000_0000 * 1_000_000_000int) by (nonlinear_arith)
                requires
                    x >= -0x8000_0000_0000_0000,
            ;

        }
        let num = (root_us - self.offset_us) as i128 * PPB_DENOM;
        // Truncating division is odd in the divisor; divide by its magnitude.
        let local = if denom > 0 {
            num / denom
        } else {
            -(num / (-denom))
        };
        saturating_i128_to_i64(local)
    }

    /// Re-step onto the reference: reads `root_us` at `local_us` from now on,
    /// keeping the rate estimate, and takes this pair as the new history.
    pub fn reanchor(&mut self, local_us: Micros, root_us: Micros)
        ensures
            final(self)@ == (ClockView {
                offset_us: sat_sub_i64(root_us, local_us),
                rate_ppb: old(self)@.rate_ppb,
                last_sample: Some((local_us, root_us)),
            }),
    {
        self.offset_us = saturating_sub_i64(root_us, local_us);
        self.last_sample = Some(Sample { local_us, root_us });
    }

    /// Fold in an observation: at local time `local_rx_us` the reference read
    /// `observed_root_us`. Large errors are refused once there is a history;
    /// otherwise the offset slews by a fraction of the error and, over a long
    /// enough baseline, the rate slews toward the measured rate.
    pub fn observe(&mut self, local_rx_us: Micros, observed_root_us: Micros, cfg: DisciplineConfig) -> (r: Observation)
        requires
            observe_in_range(old(self)@, local_rx_us, observed_root_us, cfg),
        ensures
            final(self)@ == spec_observe(old(self)@, local_rx_us, observed_root_us, cfg),
            r == (Observation {
                accepted: !rejects(old(self)@, local_rx_us, observed_root_us, cfg),
                error_us: sat_sub_i64(observed_root_us, spec_root_from_local(old(self)@, local_rx_us)),
                offset_us: final(self)@.offset_us,
                rate_ppb: final(self)@.rate_ppb,
            }),
            remeasures(old(self)@, local_rx_us, observed_root_us) && !rejects(old(self)@, local_rx_us, observed_root_us, cfg)
                ==> -cfg.max_rate_ppb <= final(self)@.rate_ppb <= cfg.max_rate_ppb,
    {
        let predicted = self.root_from_local(local_rx_us);
        let error_us = saturating_sub_i64(observed_root_us, predicted);
        let abs_error = if error_us < 0 {
            -error_us
        } else {
            error_us
        };
        if abs_error > cfg.reject_offset_us && self.last_sample.is_some() {
            return Observation {
                accepted: false,
                error_us,
                offset_us: self.offset_us,
                rate_ppb: self.rate_ppb,
            };
        }
        let offset_step = shift_toward_zero(error_us, cfg.offset_smoothing_shift);
        self.offset_us = saturating_add_i64(self.offset_us, offset_step);

        if let Some(last) = self.last_sample {
            let local_dt = saturating_sub_i64(local_rx_us, last.local_us);
            let root_dt = saturating_sub_i64(observed_root_us, last.root_us);
            if local_dt > 20_000 && root_dt > 20_000 {
                proof {
                    let d = (root_dt - local_dt) as int;
                    assert(d * 1_000_000_000 <= 0x8000_0000_0000_0000 * 1_000_000_000int) by (nonlinear_arith)
                        requires d <= 0x8000_0000_0000_0000;
                    assert(d * 1_000_000_000 >= -0x8000_0000_0000_0000 * 1_000_000_000int) by (nonlinear_arith)
                        requires d >= -0x8000_0000_0000_0000;
                }
                let measured_wide = (((root_dt - local_dt) as i128) * PPB_DENOM / local_dt as i128);
                let measured_ppb = measured_wide as i32;
                let measured_ppb = clamp_i32(measured_ppb, -cfg.max_rate_ppb, cfg.max_rate_ppb);
                let rate_error = saturating_sub_i32(measured_ppb, self.rate_ppb);
                let stepped = saturating_add_i32(
                    self.rate_ppb,
                    shift_i32_toward_zero(rate_error, cfg.rate_smoothing_shift),
                );
                self.rate_ppb = clamp_i32(stepped, -cfg.max_rate_ppb, cfg.max_rate_ppb);
            }
        }
        self.last_sample = Some(Sample { local_us: local_rx_us, root_us: observed_root_us });

        Observation { accepted: true, error_us, offset_us: self.offset_us, rate_ppb: self.rate_ppb }
    }
}

impl Default for ClockModel {
    fn default() -> (r: Self)
        ensures
            r@ == (ClockView { offset_us: 0, rate_ppb: 0, last_sample: None }),
    {
        Self::new()
    }
}

fn shift_toward_zero(value: i64, shift: u8) -> (r: i64)
    requires
        shift < 64,
        value != i64::MIN,
    ensures
        r == spec_shift_toward_zero(value, shift),
{
    if shift == 0 {
        value
    } else if value >= 0 {
        value >> shift
    } else {
        let m = -value;
        let s = m >> shift;
        assert(s >= 0) by (bit_vector)
            requires
                m >= 0,
                s == m >> shift,
        ;
        -s
    }
}

fn shift_i32_toward_zero(value: i32, shift: u8) -> (r: i32)
    requires
        shift < 32,
        value != i32::MIN,
    ensures
        r == spec_shift_i32_toward_zero(value, shift),
{
    if shift == 0 {
        value
    } else if value >= 0 {
        value >> shift
    } else {
        let m = -value;
        let s = m >> shift;
        assert(s >= 0) by (bit_vector)
            requires
                m >= 0,
                s == m >> shift,
        ;
        -s
    }
}

fn saturating_i128_to_i64(value: i128) -> (r: i64)
    ensures
        r == sat_i128_to_i64(value as int),
{
    if value < i64::MIN as i128 {
        i64::MIN
    } else if value > i64::MAX as i128 {
        i64::MAX
    } else {
        value as i64
    }
}

} // verus!
