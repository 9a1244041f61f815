//! Symbolic kick, snare, and hat events on the measured signature grids.
//!
//! Every event is a pure function of (session, params, absolute step).
//! Micro-timing carries the lane's measured pocket delay, the shared swing,
//! and bounded humanisation; never randomness at render time.
use crate::arith::{rem_euclid_i64, trunc_div};
use crate::music::arrangement::Params;
use crate::music::content::{signature_is, step_set, GrooveSignature};
use crate::music::score::session::Session;
use crate::music::score::{
    event_hash, humanize_us, spec_event_hash, spec_humanize, spec_swing, swing_us, Event,
};
use vstd::prelude::*;

verus! {

/// Bind codes for the drum lanes' scene voices.
pub const KICK_MAIN: u8 = 0;

pub const KICK_ACCENT: u8 = 1;

pub const SNARE_MAIN: u8 = 0;

pub const SNARE_GHOST: u8 = 1;

pub const HAT_CLOSED: u8 = 0;

pub const HAT_OPEN: u8 = 1;

/// Steps in an eight-bar phrase.
pub const STEPS_PER_PHRASE: i64 = 128;

/// Hash-lane ids keep each drum voice's humanisation stream independent.
pub const LANE_KICK: u64 = 1;

pub const LANE_SNARE: u64 = 2;

pub const LANE_GHOST: u64 = 3;

pub const LANE_HAT: u64 = 5;

/// The signature is one of the reference signatures.
pub open spec fn known_signature(g: GrooveSignature) -> bool {
    signature_is(g, 0) || signature_is(g, 1) || signature_is(g, 2)
}

/// The longest step (either way) whose swing stays in 64 bits: `i64::MAX`
/// over the largest swing of the reference signatures, 20 percent.
pub const MAX_STEP_US: i64 = 461_168_601_842_738_790;

/// A step's duration the lane timing can scale without overflow.
pub open spec fn step_fits(step_us: i64) -> bool {
    -MAX_STEP_US <= step_us <= MAX_STEP_US
}

/// Swing plus pocket micro-delay for a lane event: the lane's base delay,
/// the signature's swing at the step's bar position, and the bounded
/// humanisation of the event.
pub open spec fn micro_of(session: Session, lane: u64, step: i64, base: i64, step_us: i64) -> int {
    base + spec_swing((step % 16) as i64, session.signature.swing_percent as i64, step_us) + spec_humanize(
        session.seed,
        lane,
        step,
        session.signature.humanize_us,
    )
}

/// Micro-timing of a session event, in range for any fitting step length.
pub proof fn lemma_micro_bounds(session: Session, lane: u64, step: i64, base: i64, step_us: i64)
    requires
        known_signature(session.signature),
        step_fits(step_us),
        0 <= base <= 10_000,
    ensures
        -0x0200_0000_0000_0000 <= micro_of(session, lane, step, base, step_us) <= 0x0200_0000_0000_0000,
        -0x0180_0000_0000_0000 <= spec_swing((step % 16) as i64, session.signature.swing_percent as i64, step_us)
            <= 0x0180_0000_0000_0000,
        -1000 <= spec_humanize(session.seed, lane, step, session.signature.humanize_us) <= 1000,
{
    let g = session.signature;
    let sp = g.swing_percent as i64;
    let x = step_us * sp;
    assert(-i64::MAX <= x <= i64::MAX) by (nonlinear_arith)
        requires
            x == step_us * sp,
            0 <= sp <= 20,
            -MAX_STEP_US <= step_us <= MAX_STEP_US,
    ;
    let h = spec_event_hash(session.seed, lane, step);
    let b = g.humanize_us;
    assert(0 <= h % ((2 * b + 1) as u64) < (2 * b + 1));
}

pub(crate) fn micro(session: &Session, lane: u64, step: i64, base_delay: i64, step_us: i64) -> (r: i64)
    requires
        known_signature(session.signature),
        step_fits(step_us),
        0 <= base_delay <= 10_000,
    ensures
        r == micro_of(*session, lane, step, base_delay, step_us),
{
    proof {
        lemma_micro_bounds(*session, lane, step, base_delay, step_us);
        let sp = session.signature.swing_percent as i64;
        assert(-i64::MAX <= step_us * sp <= i64::MAX) by (nonlinear_arith)
            requires
                0 <= sp <= 20,
                -MAX_STEP_US <= step_us <= MAX_STEP_US,
        ;
    }
    let swing = session.signature.swing_percent as i64;
    let bar_pos = rem_euclid_i64(step, 16);
    base_delay + swing_us(bar_pos, swing, step_us) + humanize_us(
        session.seed,
        lane,
        step,
        session.signature.humanize_us,
    )
}

/// Whether the kick sounds on a step.
pub open spec fn kick_active(session: Session, params: Params, step: i64) -> bool {
    let bar_pos = step % 16;
    let cycle = step % 64;
    if params.half_time {
        bar_pos == 0
    } else {
        let grid = step_set(session.signature.kick.bits(), cycle as int);
        // Thin variant: keep the downbeat and the first syncopation only.
        let thinned = if params.kick_variant % 3 == 1 {
            grid && bar_pos <= 10
        } else {
            grid
        };
        // Push variant: one extra late kick in the last bar of the cycle.
        thinned || (params.kick_variant % 3 == 2 && cycle >= 48 && bar_pos == 14)
    }
}

/// The kick hit on a step, when it sounds: the accent voice opens each
/// cycle, the downbeats strike at full level and the rest a little softer.
pub open spec fn kick_event(session: Session, step: i64, step_us: i64) -> Event {
    Event {
        bind: if step % 64 == 0 {
            KICK_ACCENT
        } else {
            KICK_MAIN
        },
        midi: 0,
        level: if step % 16 == 0 {
            1_270_000
        } else {
            1_066_800
        },
        delay_us: micro_of(session, LANE_KICK, step, session.signature.kick_delay_us, step_us) as i64,
    }
}

pub fn kick_at(session: &Session, params: &Params, step: i64, step_us: i64) -> (r: Option<Event>)
    requires
        known_signature(session.signature),
        step_fits(step_us),
    ensures
        r is Some <==> kick_active(*session, *params, step),
        r matches Some(e) ==> e == kick_event(*session, step, step_us),
{
    let bar_pos = rem_euclid_i64(step, 16);
    let cycle = rem_euclid_i64(step, 64);
    let signature = session.signature;
    let active = if params.half_time {
        bar_pos == 0
    } else {
        let mut active = signature.kick.active(cycle);
        if params.kick_variant % 3 == 1 {
            active = active && 0 <= bar_pos && bar_pos <= 10;
        }
        if params.kick_variant % 3 == 2 && cycle >= 48 && bar_pos == 14 {
            active = true;
        }
        active
    };
    if !active {
        return None;
    }
    let accent = bar_pos == 0;
    let level: u32 = if accent {
        1_270_000
    } else {
        1_066_800
    };
    Some(
        Event {
            bind: if cycle == 0 {
                KICK_ACCENT
            } else {
                KICK_MAIN
            },
            midi: 0,
            level,
            delay_us: micro(session, LANE_KICK, step, signature.kick_delay_us, step_us),
        },
    )
}

/// The snare hit on a step, if any: the backbeat (with a hashed wobble in
/// level), soft sixteenth pickups into a phrase end when fills are on, and
/// ghost notes that land in the same spot every cycle.
pub open spec fn snare_of(session: Session, params: Params, step: i64, step_us: i64) -> Option<Event> {
    let bar_pos = step % 16;
    let phrase_pos = step % 128;
    let delay = micro_of(session, LANE_SNARE, step, session.signature.snare_delay_us, step_us) as i64;
    let backbeat = if params.half_time {
        bar_pos == 8
    } else {
        bar_pos == 4 || bar_pos == 12
    };
    if backbeat {
        let wobble = spec_event_hash(session.seed, LANE_SNARE, step) % 9;
        Some(Event { bind: SNARE_MAIN, midi: 0, level: ((96 + wobble) * 12_700) as u32, delay_us: delay })
    } else if params.drum_fill > 0 && phrase_pos >= 124 && !params.half_time && bar_pos >= 12 {
        let rise = phrase_pos - 124;
        Some(Event { bind: SNARE_GHOST, midi: 0, level: ((30 + rise * 6) * 12_700) as u32, delay_us: delay })
    } else if params.ghosts && !params.half_time {
        let h = spec_event_hash(session.seed, LANE_GHOST, ((step % 64) / 16) as i64);
        let ghost_pos: int = if (h >> 8u64) % 4 == 0 {
            7
        } else if (h >> 8u64) % 4 == 1 {
            10
        } else if (h >> 8u64) % 4 == 2 {
            2
        } else {
            15
        };
        if h % 2 == 0 && bar_pos == ghost_pos {
            Some(Event { bind: SNARE_GHOST, midi: 0, level: 279_400, delay_us: delay })
        } else {
            None
        }
    } else {
        None
    }
}

pub fn snare_at(session: &Session, params: &Params, step: i64, step_us: i64) -> (r: Option<Event>)
    requires
        known_signature(session.signature),
        step_fits(step_us),
    ensures
        r == snare_of(*session, *params, step, step_us),
{
    let bar_pos = rem_euclid_i64(step, 16);
    let phrase_pos = rem_euclid_i64(step, STEPS_PER_PHRASE);
    let signature = session.signature;
    let backbeat = if params.half_time {
        bar_pos == 8
    } else {
        bar_pos == 4 || bar_pos == 12
    };
    if backbeat {
        let wobble = (event_hash(session.seed, LANE_SNARE, step) % 9) as u32;
        return Some(
            Event {
                bind: SNARE_MAIN,
                midi: 0,
                level: (96 + wobble) * 12_700,
                delay_us: micro(session, LANE_SNARE, step, signature.snare_delay_us, step_us),
            },
        );
    }
    // Phrase-end fill: soft sixteenth pickups into the boundary.

    if params.drum_fill > 0 && phrase_pos >= STEPS_PER_PHRASE - 4 && !params.half_time && bar_pos >= 12 {
        let rise = (phrase_pos - (STEPS_PER_PHRASE - 4)) as u32;
        return Some(
            Event {
                bind: SNARE_GHOST,
                midi: 0,
                level: (30 + rise * 6) * 12_700,
                delay_us: micro(session, LANE_SNARE, step, signature.snare_delay_us, step_us),
            },
        );
    }
    // Ghost notes: a consistent pocket, not a per-bar dice roll. The placement
    // hashes the bar's position inside the four-bar cycle so the ghost lands
    // in the same spot every cycle and reads as intent.

    if params.ghosts && !params.half_time {
        let cycle_bar = rem_euclid_i64(step, 64) / 16;
        let h = event_hash(session.seed, LANE_GHOST, cycle_bar);
        if h % 2 == 0 {
            let positions: [i64; 4] = [7, 10, 2, 15];
            let ghost_pos = positions[((h >> 8) % 4) as usize];
            if bar_pos == ghost_pos {
                return Some(
                    Event {
                        bind: SNARE_GHOST,
                        midi: 0,
                        level: 279_400,
                        delay_us: micro(session, LANE_SNARE, step, signature.snare_delay_us, step_us),
                    },
                );
            }
        }
    }
    None
}

/// Whether the hats sound on a step.
pub open spec fn hat_active(session: Session, params: Params, step: i64) -> bool {
    let bar_pos = step % 16;
    if params.half_time {
        bar_pos % 4 == 0
    } else if params.hat_density == 0 {
        bar_pos % 4 == 2
    } else if params.hat_density >= 2 {
        true
    } else {
        step_set(session.signature.hats.bits(), (step % 64) as int)
    }
}

/// The hat hit on a step, when it sounds: an open hat on the and-of-two
/// when open hats are on, else a closed hat whose off sixteenths dip so a
/// dense grid still breathes; off-beat eighths take the extra swing.
pub open spec fn hat_event(session: Session, params: Params, step: i64, step_us: i64) -> Event {
    let bar_pos = step % 16;
    let open = params.open_hats && bar_pos == 6 && !params.half_time;
    let wobble = spec_event_hash(session.seed, 4, step) % 13;
    let level = if open {
        1_460_500
    } else if bar_pos % 2 == 1 {
        62 * (90 + wobble) * 127
    } else {
        (90 + wobble) * 12_700
    };
    let swing_extra = if params.swing_extra < 10 {
        params.swing_extra as int
    } else {
        10
    };
    let extra = if bar_pos % 4 == 2 {
        trunc_div(step_us * swing_extra, 100)
    } else {
        0
    };
    Event {
        bind: if open {
            HAT_OPEN
        } else {
            HAT_CLOSED
        },
        midi: 0,
        level: level as u32,
        delay_us: (micro_of(session, LANE_HAT, step, session.signature.hat_delay_us, step_us) + extra) as i64,
    }
}

pub fn hat_at(session: &Session, params: &Params, step: i64, step_us: i64) -> (r: Option<Event>)
    requires
        known_signature(session.signature),
        step_fits(step_us),
    ensures
        r is Some <==> hat_active(*session, *params, step),
        r matches Some(e) ==> e == hat_event(*session, *params, step, step_us),
{
    let bar_pos = rem_euclid_i64(step, 16);
    let cycle = rem_euclid_i64(step, 64);
    let signature = session.signature;
    let active = if params.half_time {
        rem_euclid_i64(bar_pos, 4) == 0
    } else {
        match params.hat_density {
            0 => rem_euclid_i64(bar_pos, 4) == 2,
            2..=255 => true,
            _ => signature.hats.active(cycle),
        }
    };
    if !active {
        return None;
    }
    let open = params.open_hats && bar_pos == 6 && !params.half_time;
    let wobble = (event_hash(session.seed, 4, step) % 13) as u32;
    // Off-beat sixteenths sit lower so a dense grid still breathes.
    let level: u32 = if open {
        1_460_500
    } else if rem_euclid_i64(bar_pos, 2) == 1 {
        62 * (90 + wobble) * 127
    } else {
        (90 + wobble) * 12_700
    };
    let swing_extra: i64 = if params.swing_extra < 10 {
        params.swing_extra as i64
    } else {
        10
    };
    proof {
        lemma_micro_bounds(*session, LANE_HAT, step, signature.hat_delay_us, step_us);
        assert(-0x4000_0000_0000_0000 <= step_us * swing_extra <= 0x4000_0000_0000_0000) by (nonlinear_arith)
            requires
                0 <= swing_extra <= 10,
                -MAX_STEP_US <= step_us <= MAX_STEP_US,
        ;
    }
    let extra_swing = if rem_euclid_i64(bar_pos, 4) == 2 {
        step_us * swing_extra / 100
    } else {
        0
    };
    Some(
        Event {
            bind: if open {
                HAT_OPEN
            } else {
                HAT_CLOSED
            },
            midi: 0,
            level,
            delay_us: micro(session, LANE_HAT, step, signature.hat_delay_us, step_us) + extra_swing,
        },
    )
}

/// The backbeat is inviolable: outside half time, steps four and twelve of
/// every bar carry the main snare.
pub proof fn lemma_backbeat_is_inviolable(session: Session, params: Params, step: i64, step_us: i64)
    requires
        !params.half_time,
        step % 16 == 4 || step % 16 == 12,
    ensures
        snare_of(session, params, step, step_us) matches Some(e) && e.bind == SNARE_MAIN && e.level >= 96 * 12_700,
{
}

/// Ghost notes never replace the backbeat: a ghost-voice snare never lands on
/// the backbeat positions, and stays quieter than any backbeat hit.
pub proof fn lemma_ghosts_spare_the_backbeat(session: Session, params: Params, step: i64, step_us: i64)
    ensures
        snare_of(session, params, step, step_us) matches Some(e) ==> (e.bind == SNARE_GHOST ==> {
            &&& !params.half_time
            &&& step % 16 != 4
            &&& step % 16 != 12
            &&& e.level < 96 * 12_700
        }),
{
}

/// Half time thins every drum lane: the kick only on the downbeat, the snare
/// only on beat three, the hats only on the beats.
pub proof fn lemma_half_time_thins_drums(session: Session, params: Params, step: i64, step_us: i64)
    requires
        params.half_time,
    ensures
        kick_active(session, params, step) <==> step % 16 == 0,
        snare_of(session, params, step, step_us) is Some <==> step % 16 == 8,
        hat_active(session, params, step) <==> step % 4 == 0,
{
}

} // verus!
