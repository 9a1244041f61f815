//! What the symbolic score sounds at each step of the render window.
//!
//! Rendering is stateless: for each output sample a lane looks back over a
//! bounded step window, recomputes the symbolic events (cheap integer math)
//! and sums the still-ringing sampled voices. This module decides which
//! event and which bound voice each lane plays at a step, and when its onset
//! falls on the mesh timeline; the audio arithmetic over those voices lies
//! with the caller.
use crate::arith::{div_euclid_i64, sat_add_i64, saturating_add_i64};
use crate::music::arrangement::{Params, Role};
use crate::music::catalog::PackedElement;
use crate::music::score::drums::{
    hat_active, hat_at, hat_event, kick_active, kick_at, kick_event, known_signature, snare_at, snare_of,
    HAT_OPEN, KICK_ACCENT, SNARE_GHOST,
};
use crate::music::score::scene::{Bind, SymbolicScene};
use crate::music::score::session::Session;
use crate::music::score::tonal::{bass_at, bass_of, keys_at, keys_voice, lead_at, lead_of};
use crate::music::score::{Event, TICKS_PER_STEP};
use crate::transport::Transport;
use crate::Micros;
use vstd::prelude::*;

verus! {

/// Ticks in a bar and in a beat.
pub const TICKS_PER_BAR: i64 = 384;

pub const TICKS_PER_BEAT: i64 = 96;

/// Lookback windows per lane, in steps: how long a voice can still ring.
pub const DRUM_LOOKBACK: i64 = 4;

pub const LEAD_LOOKBACK: i64 = 8;

pub const BASS_LOOKBACK: i64 = 10;

pub const KEYS_LOOKBACK: i64 = 12;

/// The arrangement either side of the current phrase boundary, so a voice
/// that started in the last phrase keeps the parameters it started with.
#[derive(Clone, Copy, Debug, PartialEq, Eq, Structural)]
pub struct BeatEvolution {
    pub previous: Params,
    pub current: Params,
    pub phrase: i64,
    pub spotlight: Role,
}

/// Everything the symbolic render path decides with, for one block.
#[derive(Clone, Copy, Debug)]
pub struct ScoreCtx {
    pub transport: Transport,
    pub session: Session,
    pub scene: SymbolicScene,
    pub evolution: BeatEvolution,
}

/// A step whose tick number fits in 64 bits.
pub open spec fn step_in_range(step: i64) -> bool {
    -0x0100_0000_0000_0000 <= step <= 0x0100_0000_0000_0000
}

impl ScoreCtx {
    /// The context can render: its signature is a reference one and its
    /// tempo product fits.
    pub open spec fn wf(self) -> bool {
        &&& known_signature(self.session.signature)
        &&& self.transport.wf()
    }

    /// One sixteenth step, in microseconds, at the transport's tempo.
    pub open spec fn spec_step_us(self) -> i64 {
        let bpm = if self.transport.bpm_milli < 1 {
            1int
        } else {
            self.transport.bpm_milli as int
        };
        (60_000_000_000int / bpm / 4) as i64
    }

    pub fn step_us(&self) -> (r: i64)
        ensures
            r == self.spec_step_us(),
            0 <= r <= 15_000_000_000,
    {
        let bpm: i64 = if self.transport.bpm_milli < 1 {
            1
        } else {
            self.transport.bpm_milli as i64
        };
        60_000_000_000 / bpm / 4
    }

    /// The params in force at an absolute step: lookback can cross into the
    /// previous phrase.
    pub open spec fn spec_params_at(self, step: i64) -> Params {
        if (step * 24) / 3072 < self.evolution.phrase {
            self.evolution.previous
        } else {
            self.evolution.current
        }
    }

    pub fn params_at(&self, step: i64) -> (r: Params)
        requires
            step_in_range(step),
        ensures
            r == self.spec_params_at(step),
    {
        let phrase = div_euclid_i64(step * TICKS_PER_STEP, TICKS_PER_BAR * 8);
        if phrase < self.evolution.phrase {
            self.evolution.previous
        } else {
            self.evolution.current
        }
    }

    /// The step sounding at a mesh time.
    pub fn current_step(&self, mesh_us: Micros) -> (r: i64)
        requires
            self.transport.wf(),
        ensures
            r == self.transport.spec_tick_at(mesh_us) / 24,
    {
        div_euclid_i64(self.transport.tick_at(mesh_us), TICKS_PER_STEP)
    }

    /// When an event on a step starts on the mesh timeline: the step's grid
    /// time plus the event's micro-delay, saturating.
    pub fn onset_us(&self, step: i64, delay_us: i64) -> (r: Micros)
        requires
            self.transport.wf(),
            step_in_range(step),
        ensures
            r == sat_add_i64(self.transport.spec_root_time_for_tick((step * 24) as i64), delay_us),
    {
        saturating_add_i64(self.transport.root_time_for_tick(step * TICKS_PER_STEP), delay_us)
    }

    /// The kick on a step and the one-shot that plays it: the accent voice
    /// for the accent, else the main kick.
    pub open spec fn kick_hit_of(self, step: i64) -> Option<(Event, PackedElement)> {
        let p = self.spec_params_at(step);
        if kick_active(self.session, p, step) {
            let e = kick_event(self.session, step, self.spec_step_us());
            let voice = if e.bind == KICK_ACCENT {
                self.scene.kick_accent
            } else {
                self.scene.kick_main
            };
            match voice {
                Some(x) => Some((e, x)),
                None => None,
            }
        } else {
            None
        }
    }

    pub fn kick_hit(&self, step: i64) -> (r: Option<(Event, PackedElement)>)
        requires
            self.wf(),
            step_in_range(step),
        ensures
            r == self.kick_hit_of(step),
    {
        let params = self.params_at(step);
        let event = match kick_at(&self.session, &params, step, self.step_us()) {
            Some(e) => e,
            None => return None,
        };
        let voice = if event.bind == KICK_ACCENT {
            self.scene.kick_accent
        } else {
            self.scene.kick_main
        };
        match voice {
            Some(element) => Some((event, element)),
            None => None,
        }
    }

    /// The snare on a step and its one-shot: the ghost voice for ghosts and
    /// fills, else the main snare.
    pub open spec fn snare_hit_of(self, step: i64) -> Option<(Event, PackedElement)> {
        match snare_of(self.session, self.spec_params_at(step), step, self.spec_step_us()) {
            Some(e) => {
                let voice = if e.bind == SNARE_GHOST {
                    self.scene.snare_ghost
                } else {
                    self.scene.snare_main
                };
                match voice {
                    Some(x) => Some((e, x)),
                    None => None,
                }
            },
            None => None,
        }
    }

    pub fn snare_hit(&self, step: i64) -> (r: Option<(Event, PackedElement)>)
        requires
            self.wf(),
            step_in_range(step),
        ensures
            r == self.snare_hit_of(step),
    {
        let params = self.params_at(step);
        let event = match snare_at(&self.session, &params, step, self.step_us()) {
            Some(e) => e,
            None => return None,
        };
        let voice = if event.bind == SNARE_GHOST {
            self.scene.snare_ghost
        } else {
            self.scene.snare_main
        };
        match voice {
            Some(element) => Some((event, element)),
            None => None,
        }
    }

    /// The hat on a step and its one-shot: the open hat or the closed one.
    pub open spec fn hat_hit_of(self, step: i64) -> Option<(Event, PackedElement)> {
        let p = self.spec_params_at(step);
        if hat_active(self.session, p, step) {
            let e = hat_event(self.session, p, step, self.spec_step_us());
            let voice = if e.bind == HAT_OPEN {
                self.scene.hat_open
            } else {
                self.scene.hat_closed
            };
            match voice {
                Some(x) => Some((e, x)),
                None => None,
            }
        } else {
            None
        }
    }

    pub fn hat_hit(&self, step: i64) -> (r: Option<(Event, PackedElement)>)
        requires
            self.wf(),
            step_in_range(step),
        ensures
            r == self.hat_hit_of(step),
    {
        let params = self.params_at(step);
        let event = match hat_at(&self.session, &params, step, self.step_us()) {
            Some(e) => e,
            None => return None,
        };
        let voice = if event.bind == HAT_OPEN {
            self.scene.hat_open
        } else {
            self.scene.hat_closed
        };
        match voice {
            Some(element) => Some((event, element)),
            None => None,
        }
    }

    /// The bass note on a step and the bind for its pitch class.
    pub open spec fn bass_hit_of(self, step: i64) -> Option<(Event, Bind)> {
        match bass_of(self.session, self.spec_params_at(step), step, self.spec_step_us()) {
            Some(e) => match self.scene.bass@[(e.bind % 12) as int] {
                Some(b) => Some((e, b)),
                None => None,
            },
            None => None,
        }
    }

    pub fn bass_hit(&self, step: i64) -> (r: Option<(Event, Bind)>)
        requires
            self.wf(),
            step_in_range(step),
        ensures
            r == self.bass_hit_of(step),
    {
        let params = self.params_at(step);
        let event = match bass_at(&self.session, &params, step, self.step_us()) {
            Some(e) => e,
            None => return None,
        };
        match self.scene.bass[(event.bind % 12) as usize] {
            Some(bind) => Some((event, bind)),
            None => None,
        }
    }

    /// Keys voice `voice` on a step and its shell bind (slot clamped to the
    /// last chord slot).
    pub open spec fn keys_hit_of(self, step: i64, voice: int) -> Option<(Event, Bind)> {
        match keys_voice(self.session, self.spec_params_at(step), step, self.spec_step_us(), voice) {
            Some(e) => {
                let slot = if e.bind / 3 < 3 {
                    (e.bind / 3) as int
                } else {
                    3int
                };
                match self.scene.keys@[slot]@[(e.bind % 3) as int] {
                    Some(b) => Some((e, b)),
                    None => None,
                }
            },
            None => None,
        }
    }

    pub fn keys_hits(&self, step: i64) -> (r: [Option<(Event, Bind)>; 3])
        requires
            self.wf(),
            step_in_range(step),
        ensures
            forall|voice: int| 0 <= voice < 3 ==> #[trigger] r@[voice] == self.keys_hit_of(step, voice),
    {
        let params = self.params_at(step);
        let strikes = keys_at(&self.session, &params, step, self.step_us());
        let mut out: [Option<(Event, Bind)>; 3] = [None; 3];
        let mut i: usize = 0;
        while i < 3
            invariant
                i <= 3,
                params == self.spec_params_at(step),
                forall|v: int|
                    0 <= v < 3 ==> #[trigger] strikes@[v] == keys_voice(
                        self.session,
                        params,
                        step,
                        self.spec_step_us(),
                        v,
                    ),
                forall|v: int| 0 <= v < i ==> #[trigger] out@[v] == self.keys_hit_of(step, v),
                forall|v: int| i <= v < 3 ==> #[trigger] out@[v] is None,
            decreases 3 - i,
        {
            if let Some(event) = strikes[i] {
                let slot = (event.bind / 3) as usize;
                let voice = (event.bind % 3) as usize;
                let slot = if slot < 3 {
                    slot
                } else {
                    3
                };
                if let Some(bind) = self.scene.keys[slot][voice] {
                    out[i] = Some((event, bind));
                }
            }
            i = i + 1;
        }
        out
    }

    /// The lead note on a step and the bind for its degree slot.
    pub open spec fn lead_hit_of(self, step: i64) -> Option<(Event, Bind)> {
        match lead_of(self.session, self.spec_params_at(step), step, self.spec_step_us()) {
            Some(e) => match self.scene.lead@[(e.bind % 12) as int] {
                Some(b) => Some((e, b)),
                None => None,
            },
            None => None,
        }
    }

    pub fn lead_hit(&self, step: i64) -> (r: Option<(Event, Bind)>)
        requires
            self.wf(),
            step_in_range(step),
        ensures
            r == self.lead_hit_of(step),
    {
        let params = self.params_at(step);
        let event = match lead_at(&self.session, &params, step, self.step_us()) {
            Some(e) => e,
            None => return None,
        };
        match self.scene.lead[(event.bind % 12) as usize] {
            Some(bind) => Some((event, bind)),
            None => None,
        }
    }
}

} // verus!
