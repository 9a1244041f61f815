//! The metronome beep: a square-wave blip at the start of every beat.
use crate::Micros;
use vstd::prelude::*;

verus! {

#[derive(Clone, Copy, Debug, PartialEq, Eq, Structural)]
pub struct BeepVoice {
    pub beat_period_us: Micros,
    pub duration_us: Micros,
    pub frequency_hz: u32,
}

/// The beep's sample at `root_time_us`: silent after `duration_us` into the
/// beat, otherwise a square wave of `frequency_hz` (at least one sample per
/// period) at `amplitude`. `None` where the original arithmetic panics: a
/// zero beat period, a zero frequency while sounding, or negating the most
/// negative amplitude.
pub open spec fn beep_of(v: BeepVoice, root_time_us: Micros, sample_rate: u32, amplitude: i16) -> Option<i16> {
    if v.beat_period_us == 0 || (root_time_us == i64::MIN && v.beat_period_us == -1) {
        None
    } else {
        let phase = root_time_us as int % (v.beat_period_us as int);
        if phase >= v.duration_us {
            Some(0i16)
        } else if v.frequency_hz == 0 {
            None
        } else {
            let index = ((phase * sample_rate) / 1_000_000) as i64;
            let q = sample_rate / v.frequency_hz;
            let period = if q < 1 { 1int } else { q as int };
            if (index as int) % period < period / 2 {
                Some(amplitude)
            } else if amplitude == i16::MIN {
                None
            } else {
                Some((-amplitude) as i16)
            }
        }
    }
}

impl BeepVoice {
    pub fn new(beat_period_us: Micros, duration_us: Micros, frequency_hz: u32) -> (r: Self)
        ensures
            r == (BeepVoice { beat_period_us, duration_us, frequency_hz }),
    {
        Self { beat_period_us, duration_us, frequency_hz }
    }

    pub fn sample_i16(&self, root_time_us: Micros, sample_rate: u32, amplitude: i16) -> (r: i16)
        requires
            beep_of(*self, root_time_us, sample_rate, amplitude) is Some,
        ensures
            beep_of(*self, root_time_us, sample_rate, amplitude) == Some(r),
    {
        let phase_us = match root_time_us.checked_rem_euclid(self.beat_period_us) {
            Some(p) => p,
            None => 0,
        };
        if phase_us >= self.duration_us {
            return 0;
        }
        let a = phase_us as i128;
        let b = sample_rate as i128;
        assert(0 <= a * b <= 0x7fff_ffff_ffff_ffff * 0xffff_ffff) by (nonlinear_arith)
            requires
                0 <= a <= 0x7fff_ffff_ffff_ffff,
                0 <= b <= 0xffff_ffff,
        ;
        let sample_index = ((a * b) / 1_000_000) as i64;
        let q = sample_rate / self.frequency_hz;
        let period_samples: i64 = if q < 1 {
            1
        } else {
            q as i64
        };
        if crate::arith::rem_euclid_i64(sample_index, period_samples) < period_samples / 2 {
            amplitude
        } else {
            -amplitude
        }
    }
}

} // verus!
