//! Block rendering of the metronome beep.
use crate::sequencer::{beep_of, BeepVoice};
use crate::Micros;
use vstd::prelude::*;

verus! {

#[derive(Clone, Copy, Debug, PartialEq, Eq, Structural)]
pub struct RenderConfig {
    pub sample_rate: u32,
    pub amplitude: i16,
}

impl RenderConfig {
    pub fn new(sample_rate: u32, amplitude: i16) -> (r: Self)
        ensures
            r == (RenderConfig { sample_rate, amplitude }),
    {
        Self { sample_rate, amplitude }
    }
}

/// The root time of sample `ix` of a block starting at `start`.
pub open spec fn sample_time(start: Micros, ix: int, sample_rate: u32) -> int {
    start + (ix * 1_000_000) / (sample_rate as int)
}

/// Every sample of a block of `len` can be rendered: its time fits and the
/// beep is defined there.
pub open spec fn block_renders(len: int, start: Micros, voice: BeepVoice, cfg: RenderConfig) -> bool {
    &&& cfg.sample_rate > 0
    &&& len * 1_000_000 <= i64::MAX
    &&& forall|ix: int|
        0 <= ix < len ==> {
            let t = #[trigger] sample_time(start, ix, cfg.sample_rate);
            &&& i64::MIN <= t <= i64::MAX
            &&& beep_of(voice, t as i64, cfg.sample_rate, cfg.amplitude) is Some
        }
}

/// Fill `out` with the beep, one sample per `1 / sample_rate` seconds from
/// `start_root_time_us`.
pub fn render_beep_block(out: &mut [i16], start_root_time_us: Micros, voice: BeepVoice, cfg: RenderConfig)
    requires
        block_renders(old(out)@.len() as int, start_root_time_us, voice, cfg),
    ensures
        final(out)@.len() == old(out)@.len(),
        forall|ix: int|
            0 <= ix < old(out)@.len() ==> Some(#[trigger] final(out)@[ix]) == beep_of(
                voice,
                sample_time(start_root_time_us, ix, cfg.sample_rate) as i64,
                cfg.sample_rate,
                cfg.amplitude,
            ),
{
    let n = out.len();
    let mut ix: usize = 0;
    while ix < n
        invariant
            n == out@.len(),
            n == old(out)@.len(),
            ix <= n,
            block_renders(n as int, start_root_time_us, voice, cfg),
            forall|j: int|
                0 <= j < ix ==> Some(#[trigger] out@[j]) == beep_of(
                    voice,
                    sample_time(start_root_time_us, j, cfg.sample_rate) as i64,
                    cfg.sample_rate,
                    cfg.amplitude,
                ),
        decreases n - ix,
    {
        assert(ix * 1_000_000 <= n * 1_000_000) by (nonlinear_arith)
            requires
                ix <= n,
        ;
        let ghost st = sample_time(start_root_time_us, ix as int, cfg.sample_rate);
        assert(i64::MIN <= st <= i64::MAX);
        let t = start_root_time_us + (ix as i64 * 1_000_000 / cfg.sample_rate as i64);
        assert(t == sample_time(start_root_time_us, ix as int, cfg.sample_rate));
        out[ix] = voice.sample_i16(t, cfg.sample_rate, cfg.amplitude);
        ix = ix + 1;
    }
}

} // verus!
