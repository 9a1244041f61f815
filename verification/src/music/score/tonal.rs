//! Symbolic bass, keys, and lead events.
//!
//! Pitch always derives from the session's progression and scale: the bass
//! walks roots, fifths, and diatonic approach tones; the keys comp shell
//! voicings with anticipation pushes; the lead states a motif and answers
//! it. Rests are first-class: most steps intentionally return nothing.
use crate::arith::{clamp, clamp_i32, div_euclid_i64, rem_euclid_i32, rem_euclid_i64};
use crate::music::arrangement::Params;
use crate::music::content::{first_on, motif_events, motif_for, step_set, NoteEvent};
use crate::music::progression::{scale_pitch, Progression};
use crate::music::score::drums::{known_signature, lemma_micro_bounds, micro, micro_of, step_fits};
use crate::music::score::session::Session;
use crate::music::score::{event_hash, spec_event_hash, Event};
use crate::music::theory::{fifth_of, lemma_snap_on_degree, snap_fits, snap_offset, snap_to_scale, spec_snap, third_of, tone_at};
use vstd::prelude::*;

verus! {

/// Steps in an eight-bar phrase.
pub const STEPS_PER_PHRASE: i64 = 128;

pub const LANE_BASS: u64 = 6;

pub const LANE_KEYS: u64 = 7;

pub const LANE_LEAD: u64 = 8;

/// Broken-chord roll spacing between keys voices, in microseconds.
pub const ROLL_US: i64 = 33_000;

/// The root of the chord sounding in a bar.
pub open spec fn bar_root(p: Progression, bar: int) -> int {
    p.slot(bar % 4).chord.root as int
}

/// The pitch class the bass targets at a grid hit, chosen from chord tones.
/// The choice hashes the position within the four-bar cycle, not the
/// absolute bar: a bassline is a riff with an identity that repeats, and
/// only the arrangement's bass shape re-rolls it.
pub open spec fn bass_pc_of(session: Session, params: Params, step: i64) -> int {
    let chord = session.progression.slot((step / 16) % 4).chord;
    let root = chord.root as int;
    if step % 16 == 0 {
        root % 12
    } else {
        let riff = (params.bass_shape as u64) << 32u64;
        let h = spec_event_hash(session.seed ^ riff, LANE_BASS ^ 0x5e1ec7, (step % 64) as i64);
        let choice = h % if params.bass_busy {
            5
        } else {
            4
        };
        let interval = if choice == 2 {
            fifth_of(chord.quality) as int
        } else if choice == 4 {
            third_of(chord.quality) as int
        } else {
            0
        };
        (root + interval) % 12
    }
}

fn bass_pitch_class(session: &Session, params: &Params, step: i64) -> (r: u8)
    ensures
        r == bass_pc_of(*session, *params, step),
{
    let bar = div_euclid_i64(step, 16);
    let bar_pos = rem_euclid_i64(step, 16);
    let cycle_pos = rem_euclid_i64(step, 64);
    let chord = session.progression.slot_for_bar(bar).chord;
    let root = chord.root as i32;
    if bar_pos == 0 {
        return rem_euclid_i32(root, 12) as u8;
    }
    let riff = (params.bass_shape as u64) << 32;
    let h = event_hash(session.seed ^ riff, LANE_BASS ^ 0x5e1ec7, cycle_pos);
    let choice = h % if params.bass_busy {
        5
    } else {
        4
    };
    let interval = match choice {
        0 | 1 => 0,
        2 => chord.quality.fifth(),
        3 => 0,
        _ => chord.quality.third(),
    };
    rem_euclid_i32(root + interval, 12) as u8
}

/// The session scale as semitone intervals above the tonic, recovered from
/// the progression.
pub open spec fn scale_intervals_of(p: Progression) -> Seq<i32> {
    Seq::new(
        7,
        |d: int|
            ((clamp(scale_pitch(p.key(), p.mode(), d), 55, 84) - clamp(scale_pitch(p.key(), p.mode(), 0), 55, 84))
                % 12) as i32,
    )
}

pub fn scale_intervals(session: &Session) -> (r: [i32; 7])
    ensures
        r@ == scale_intervals_of(session.progression),
{
    let tonic = session.progression.scale_note(0) as i32;
    let mut out: [i32; 7] = [0; 7];
    let mut d: usize = 0;
    while d < 7
        invariant
            d <= 7,
            tonic == clamp(scale_pitch(session.progression.key(), session.progression.mode(), 0), 55, 84),
            forall|i: int| 0 <= i < d ==> #[trigger] out@[i] == scale_intervals_of(session.progression)[i],
        decreases 7 - d,
    {
        let note = session.progression.scale_note(d as i8) as i32;
        out[d] = rem_euclid_i32(note - tonic, 12);
        d = d + 1;
    }
    assert(out@ == scale_intervals_of(session.progression));
    out
}

/// Snapping a small note to a scale of semitones inside the octave stays
/// in range and lands on one of the scale's degrees, in the note's octave
/// above the key root or the next.
proof fn lemma_snap_small(note: i32, key_root: i32, scale: Seq<i32>)
    requires
        -1000 <= note <= 1000,
        -1000 <= key_root <= 1000,
        scale.len() == 7,
        forall|i: int| 0 <= i < 7 ==> 0 <= #[trigger] scale[i] < 12,
    ensures
        snap_fits(note, key_root, scale),
        exists|j: int, m: int|
            0 <= j < 7 && -200 <= m <= 200 && spec_snap(note, key_root, scale) == #[trigger] tone_at(
                key_root as int,
                m,
                scale[j] as int,
            ),
{
    let d = note - key_root;
    lemma_snap_on_degree(note, key_root, scale);
    assert(-200 <= d / 12 <= 199);
    let (j, m) = choose|j: int, m: int|
        0 <= j < scale.len() && (m == d / 12 || m == d / 12 + 1) && spec_snap(note, key_root, scale) == #[trigger] tone_at(
            key_root as int,
            m,
            scale[j] as int,
        );
    assert(snap_offset(scale, d % 12) == 12 * (m - d / 12) + scale[j]);
}

/// The diatonic approach tone into the next bar's root: the scale tone just
/// below it, or (one time in three, hashed per cycle bar) the one above.
pub open spec fn approach_pc_of(session: Session, step: i64) -> int {
    let p = session.progression;
    let next_bar = step / 16 + 1;
    let next_root = bar_root(p, next_bar);
    let key_root = clamp(scale_pitch(p.key(), p.mode(), 0), 55, 84);
    let scale = scale_intervals_of(p);
    let below = spec_snap((next_root - 1) as i32, key_root as i32, scale);
    let above = spec_snap((next_root + 2) as i32, key_root as i32, scale);
    let h = spec_event_hash(session.seed, LANE_BASS ^ 0xa99, (next_bar % 4) as i64);
    (if h % 3 == 0 {
        above
    } else {
        below
    }) % 12
}

proof fn lemma_scale_intervals_small(p: Progression)
    ensures
        forall|i: int| 0 <= i < 7 ==> 0 <= #[trigger] scale_intervals_of(p)[i] < 12,
{
}

fn approach_pitch_class(session: &Session, step: i64) -> (r: u8)
    ensures
        r == approach_pc_of(*session, step),
{
    let next_bar = div_euclid_i64(step, 16) + 1;
    let next_root = session.progression.slot_for_bar(next_bar).chord.root as i32;
    let key_root = session.progression.scale_note(0) as i32;
    let intervals = scale_intervals(session);
    proof {
        lemma_scale_intervals_small(session.progression);
        lemma_snap_small((next_root - 1) as i32, key_root, intervals@);
        lemma_snap_small((next_root + 2) as i32, key_root, intervals@);
    }
    let below = snap_to_scale(next_root - 1, key_root, &intervals);
    let above = snap_to_scale(next_root + 2, key_root, &intervals);
    let cycle_bar = rem_euclid_i64(next_bar, 4);
    let h = event_hash(session.seed, LANE_BASS ^ 0xa99, cycle_bar);
    let chosen = if h % 3 == 0 {
        above
    } else {
        below
    };
    rem_euclid_i32(chosen, 12) as u8
}

/// The bass event on a step, if any. In half time only downbeats play;
/// otherwise a spotlight walk climbs the scale through the last bar of each
/// phrase, and elsewhere the signature's bass and approach grids play the
/// chord's tones and the approach into the next bar. `bind` is the target
/// pitch class.
pub open spec fn bass_of(session: Session, params: Params, step: i64, step_us: i64) -> Option<Event> {
    let bar_pos = step % 16;
    let cycle = (step % 64) as int;
    let g = session.signature;
    let delay = micro_of(session, LANE_BASS, step, g.tonal_delay_us, step_us) as i64;
    if params.half_time && bar_pos != 0 {
        None
    } else if !params.half_time && params.bass_walk && step % 128 >= 120 {
        if bar_pos == 8 || bar_pos == 10 || bar_pos == 12 || bar_pos == 14 {
            let walk_ix = (bar_pos - 8) / 2;
            let degree = if walk_ix == 0 {
                0
            } else if walk_ix == 1 {
                2
            } else if walk_ix == 2 {
                4
            } else {
                5
            };
            let pc = (bar_root(session.progression, step / 16) + scale_intervals_of(session.progression)[degree])
                % 12;
            Some(Event { bind: pc as u8, midi: 0, level: 990_600, delay_us: delay })
        } else {
            None
        }
    } else {
        let approach = step_set(g.bass_approach.bits(), cycle) && !params.half_time;
        let main = step_set(g.bass.bits(), cycle) || bar_pos == 0;
        let busy_extra = params.bass_busy && bar_pos == 8 && !step_set(g.bass.bits(), cycle);
        if !(main || approach || busy_extra) {
            None
        } else if approach && !main {
            Some(Event { bind: approach_pc_of(session, step) as u8, midi: 0, level: 787_400, delay_us: delay })
        } else if bar_pos == 0 {
            Some(Event { bind: bass_pc_of(session, params, step) as u8, midi: 0, level: 1_206_500, delay_us: delay })
        } else {
            Some(Event { bind: bass_pc_of(session, params, step) as u8, midi: 0, level: 939_800, delay_us: delay })
        }
    }
}

/// Bass event at an absolute step. `Event::bind` is the target pitch class.
pub fn bass_at(session: &Session, params: &Params, step: i64, step_us: i64) -> (r: Option<Event>)
    requires
        known_signature(session.signature),
        step_fits(step_us),
    ensures
        r == bass_of(*session, *params, step, step_us),
{
    let bar_pos = rem_euclid_i64(step, 16);
    let cycle = rem_euclid_i64(step, 64);
    let signature = session.signature;
    if params.half_time {
        if bar_pos != 0 {
            return None;
        }
    } else if params.bass_walk && rem_euclid_i64(step, STEPS_PER_PHRASE) >= STEPS_PER_PHRASE - 8 {
        // Spotlight walk: quarter-note scale walk through the final bar.
        if !(bar_pos == 8 || bar_pos == 10 || bar_pos == 12 || bar_pos == 14) {
            return None;
        }
        let walk_ix = ((bar_pos - 8) / 2) as usize;
        let intervals = scale_intervals(session);
        let degrees: [usize; 4] = [0, 2, 4, 5];
        let root = session.progression.slot_for_bar(div_euclid_i64(step, 16)).chord.root as i32;
        proof {
            lemma_scale_intervals_small(session.progression);
        }
        let pc = rem_euclid_i32(root + intervals[degrees[walk_ix]], 12) as u8;
        return Some(
            Event {
                bind: pc,
                midi: 0,
                level: 990_600,
                delay_us: micro(session, LANE_BASS, step, signature.tonal_delay_us, step_us),
            },
        );
    }
    let approach = signature.bass_approach.active(cycle) && !params.half_time;
    let main = signature.bass.active(cycle) || bar_pos == 0;
    let busy_extra = params.bass_busy && bar_pos == 8 && !signature.bass.active(cycle);
    if !(main || approach || busy_extra) {
        return None;
    }
    let (pc, level): (u8, u32) = if approach && !main {
        (approach_pitch_class(session, step), 787_400)
    } else if bar_pos == 0 {
        (bass_pitch_class(session, params, step), 1_206_500)
    } else {
        (bass_pitch_class(session, params, step), 939_800)
    };
    Some(
        Event {
            bind: pc,
            midi: 0,
            level,
            delay_us: micro(session, LANE_BASS, step, signature.tonal_delay_us, step_us),
        },
    )
}

/// The keys comping strike on a step, if any, as (chord bar, level in
/// hundredths, first voice): a downbeat statement (sparse keys only on bars
/// one and three of the cycle), a softer answer on the and-of-two of bars
/// one and three, and an anticipation push into the next chord on the
/// and-of-four of bars two and four.
pub open spec fn keys_strike(params: Params, step: i64) -> Option<(int, int, int)> {
    let bar = step / 16;
    let bar_pos = step % 16;
    let cycle_bar = bar % 4;
    if bar_pos == 0 {
        if params.keys_sparse && !(cycle_bar == 0 || cycle_bar == 2) {
            None
        } else {
            Some((bar as int, 66, 0))
        }
    } else if bar_pos == 7 && !params.keys_sparse && (cycle_bar == 0 || cycle_bar == 2) {
        Some((bar as int, 40, 1))
    } else if bar_pos == 14 && !params.keys_sparse && (cycle_bar == 1 || cycle_bar == 3) {
        Some((bar + 1, 50, 0))
    } else {
        None
    }
}

/// How many of the `n` steps from `start` hold a keys strike.
pub open spec fn strikes_from(params: Params, start: int, n: nat) -> nat
    decreases n,
{
    if n == 0 {
        0
    } else {
        strikes_from(params, start, (n - 1) as nat) + if keys_strike(params, (start + n - 1) as i64) is Some {
            1nat
        } else {
            0nat
        }
    }
}

/// Counting a stretch in two parts.
proof fn lemma_strikes_split(params: Params, start: int, m: nat, n: nat)
    ensures
        strikes_from(params, start, m + n) == strikes_from(params, start, m) + strikes_from(params, start + m, n),
    decreases n,
{
    if n > 0 {
        lemma_strikes_split(params, start, m, (n - 1) as nat);
        assert(start + (m + n) - 1 == (start + m) + n - 1);
    }
}

/// The strikes in bar `bar`: two (the downbeat and the answer or the push),
/// or with sparse keys only the downbeat of bars one and three of the cycle.
#[verifier::spinoff_prover]
proof fn lemma_bar_strikes(params: Params, bar: int)
    requires
        -0x0100_0000_0000_0000 <= bar <= 0x0100_0000_0000_0000,
    ensures
        strikes_from(params, 16 * bar, 16) == if params.keys_sparse {
            if bar % 4 == 0 || bar % 4 == 2 {
                1int
            } else {
                0int
            }
        } else {
            2int
        },
{
    reveal_with_fuel(strikes_from, 17);
    assert((16 * bar + 0) / 16 == bar && (16 * bar + 0) % 16 == 0);
    assert((keys_strike(params, (16 * bar + 0) as i64) is Some) == (!params.keys_sparse || bar % 4 == 0 || bar % 4 == 2));
    assert((16 * bar + 1) / 16 == bar && (16 * bar + 1) % 16 == 1);
    assert((keys_strike(params, (16 * bar + 1) as i64) is Some) == false);
    assert((16 * bar + 2) / 16 == bar && (16 * bar + 2) % 16 == 2);
    assert((keys_strike(params, (16 * bar + 2) as i64) is Some) == false);
    assert((16 * bar + 3) / 16 == bar && (16 * bar + 3) % 16 == 3);
    assert((keys_strike(params, (16 * bar + 3) as i64) is Some) == false);
    assert((16 * bar + 4) / 16 == bar && (16 * bar + 4) % 16 == 4);
    assert((keys_strike(params, (16 * bar + 4) as i64) is Some) == false);
    assert((16 * bar + 5) / 16 == bar && (16 * bar + 5) % 16 == 5);
    assert((keys_strike(params, (16 * bar + 5) as i64) is Some) == false);
    assert((16 * bar + 6) / 16 == bar && (16 * bar + 6) % 16 == 6);
    assert((keys_strike(params, (16 * bar + 6) as i64) is Some) == false);
    assert((16 * bar + 7) / 16 == bar && (16 * bar + 7) % 16 == 7);
    assert((keys_strike(params, (16 * bar + 7) as i64) is Some) == (!params.keys_sparse && (bar % 4 == 0 || bar % 4 == 2)));
    assert((16 * bar + 8) / 16 == bar && (16 * bar + 8) % 16 == 8);
    assert((keys_strike(params, (16 * bar + 8) as i64) is Some) == false);
    assert((16 * bar + 9) / 16 == bar && (16 * bar + 9) % 16 == 9);
    assert((keys_strike(params, (16 * bar + 9) as i64) is Some) == false);
    assert((16 * bar + 10) / 16 == bar && (16 * bar + 10) % 16 == 10);
    assert((keys_strike(params, (16 * bar + 10) as i64) is Some) == false);
    assert((16 * bar + 11) / 16 == bar && (16 * bar + 11) % 16 == 11);
    assert((keys_strike(params, (16 * bar + 11) as i64) is Some) == false);
    assert((16 * bar + 12) / 16 == bar && (16 * bar + 12) % 16 == 12);
    assert((keys_strike(params, (16 * bar + 12) as i64) is Some) == false);
    assert((16 * bar + 13) / 16 == bar && (16 * bar + 13) % 16 == 13);
    assert((keys_strike(params, (16 * bar + 13) as i64) is Some) == false);
    assert((16 * bar + 14) / 16 == bar && (16 * bar + 14) % 16 == 14);
    assert((keys_strike(params, (16 * bar + 14) as i64) is Some) == (!params.keys_sparse && (bar % 4 == 1 || bar % 4 == 3)));
    assert((16 * bar + 15) / 16 == bar && (16 * bar + 15) % 16 == 15);
    assert((keys_strike(params, (16 * bar + 15) as i64) is Some) == false);
}

/// The keys leave space: over any four-bar cycle they strike eight times
/// (four downbeats, two answers and two pushes), or only twice with sparse
/// keys, and never elsewhere.
pub proof fn lemma_keys_leave_space(params: Params, cycle: int)
    requires
        -0x0010_0000_0000_0000 <= cycle <= 0x0010_0000_0000_0000,
    ensures
        strikes_from(params, 64 * cycle, 64) == if params.keys_sparse {
            2int
        } else {
            8int
        },
{
    let b = 4 * cycle;
    lemma_strikes_split(params, 64 * cycle, 16, 48);
    lemma_strikes_split(params, 64 * cycle + 16, 16, 32);
    lemma_strikes_split(params, 64 * cycle + 32, 16, 16);
    assert(64 * cycle == 16 * b && 64 * cycle + 16 == 16 * (b + 1) && 64 * cycle + 32 == 16 * (b + 2) && 64 * cycle
        + 48 == 16 * (b + 3));
    lemma_bar_strikes(params, b);
    lemma_bar_strikes(params, b + 1);
    lemma_bar_strikes(params, b + 2);
    lemma_bar_strikes(params, b + 3);
    assert(b % 4 == 0 && (b + 1) % 4 == 1 && (b + 2) % 4 == 2 && (b + 3) % 4 == 3);
}

/// Keys voice `voice` of the strike on a step, if it plays: the voices from
/// the strike's first (kept below the top) up to two, or three with rich
/// chords; the top voice sounds a little louder, and a broken comping shape
/// rolls the downbeat statement. `bind` is `slot * 3 + voice`.
pub open spec fn keys_voice(session: Session, params: Params, step: i64, step_us: i64, voice: int) -> Option<Event> {
    match keys_strike(params, step) {
        None => None,
        Some((slot_bar, strike, first_voice)) => {
            let voices = if params.rich_chords {
                3int
            } else {
                2int
            };
            let first = if first_voice < voices - 1 {
                first_voice
            } else {
                voices - 1
            };
            if first <= voice < voices {
                let slot = slot_bar % 4;
                let broken = params.keys_shape % 2 == 1 && step % 16 == 0;
                let roll = if broken {
                    ROLL_US * voice
                } else {
                    0
                };
                let top = voice + 1 == voices;
                let level = (strike + if top {
                    7int
                } else {
                    0int
                }) * 12_700;
                Some(
                    Event {
                        bind: (slot * 3 + voice) as u8,
                        midi: 0,
                        level: level as u32,
                        delay_us: (micro_of(session, LANE_KEYS, step, session.signature.tonal_delay_us, step_us)
                            + roll) as i64,
                    },
                )
            } else {
                None
            }
        },
    }
}

/// Keys strike at an absolute step: up to three shell voices, rolled when
/// the comping shape is broken. `Event::bind` encodes
/// `slot * SHELL_VOICES + voice`.
pub fn keys_at(session: &Session, params: &Params, step: i64, step_us: i64) -> (r: [Option<Event>; 3])
    requires
        known_signature(session.signature),
        step_fits(step_us),
    ensures
        forall|voice: int| 0 <= voice < 3 ==> #[trigger] r@[voice] == keys_voice(*session, *params, step, step_us, voice),
{
    let mut out: [Option<Event>; 3] = [None; 3];
    let bar = div_euclid_i64(step, 16);
    let bar_pos = rem_euclid_i64(step, 16);
    let cycle_bar = rem_euclid_i64(bar, 4);
    // The comping pattern: a downbeat statement, a softer answer inside the
    // bar (the motion real playing has), and an anticipation push into the
    // next chord. `first_voice` trims the answer to the upper structure.
    let (slot_bar, strike_level, first_voice): (i64, u32, usize) = if bar_pos == 0 {
        if params.keys_sparse && !(cycle_bar == 0 || cycle_bar == 2) {
            return out;
        }
        (bar, 66, 0)
    } else if bar_pos == 7 && !params.keys_sparse && (cycle_bar == 0 || cycle_bar == 2) {
        (bar, 40, 1)
    } else if bar_pos == 14 && !params.keys_sparse && (cycle_bar == 1 || cycle_bar == 3) {
        (bar + 1, 50, 0)
    } else {
        return out;
    };
    let progression_len = session.progression.len() as i64;
    let slot = rem_euclid_i64(slot_bar, progression_len) as usize;
    // A rolled chord belongs on the downbeat statement only; answers and
    // anticipation pushes are tight rhythmic punches.
    let broken = params.keys_shape % 2 == 1 && bar_pos == 0;
    let voices: usize = if params.rich_chords {
        3
    } else {
        2
    };
    let base_delay = micro(session, LANE_KEYS, step, session.signature.tonal_delay_us, step_us);
    proof {
        lemma_micro_bounds(*session, LANE_KEYS, step, session.signature.tonal_delay_us, step_us);
    }
    let first = if first_voice < voices - 1 {
        first_voice
    } else {
        voices - 1
    };
    let mut voice: usize = first;
    while voice < voices
        invariant
            first <= voice <= voices,
            voices == 2 || voices == 3,
            -0x0200_0000_0000_0000 <= base_delay <= 0x0200_0000_0000_0000,
            base_delay == micro_of(*session, LANE_KEYS, step, session.signature.tonal_delay_us, step_us),
            keys_strike(*params, step) == Some((slot_bar as int, strike_level as int, first_voice as int)),
            slot as int == slot_bar % 4,
            broken == (params.keys_shape % 2 == 1 && step % 16 == 0),
            voices == (if params.rich_chords { 3int } else { 2int }),
            first == (if first_voice < voices - 1 { first_voice as int } else { voices - 1 }),
            strike_level <= 66,
            slot < 4,
            forall|v: int| 0 <= v < voice || voices <= v < 3 ==> #[trigger] out@[v] == keys_voice(
                *session,
                *params,
                step,
                step_us,
                v,
            ),
            forall|v: int| voice <= v < voices ==> #[trigger] out@[v] is None,
        decreases voices - voice,
    {
        let roll = if broken {
            ROLL_US * voice as i64
        } else {
            0
        };
        let top = voice + 1 == voices;
        let level = (strike_level + if top {
            7
        } else {
            0
        }) * 12_700;
        out[voice] = Some(
            Event {
                bind: (slot * 3 + voice) as u8,
                midi: 0,
                level,
                delay_us: base_delay + roll,
            },
        );
        voice = voice + 1;
    }
    out
}

/// The lead note on a step, if any: the motif's note at the cycle position,
/// resting the softer notes of the quiet phrases (first and last of each
/// four-phrase arc) unless the lead is busy; even phrases state near home
/// and odd ones answer shifted. `bind` indexes the lead table by degree.
pub open spec fn lead_of(session: Session, params: Params, step: i64, step_us: i64) -> Option<Event> {
    let phrase = step / 128;
    let arc = phrase % 4;
    let notes = motif_events((session.signature.motif as int + params.lead_shape as int) % 6);
    if !params.lead_on {
        None
    } else {
        match first_on(notes, (step % 64) as int) {
            None => None,
            Some(event) => if (arc == 0 || arc == 3) && !params.lead_busy && event.velocity < 52 {
                None
            } else {
                let h = spec_event_hash(session.seed, LANE_LEAD, phrase as i64) % 2;
                let transpose = if phrase % 2 == 0 {
                    if h == 0 {
                        0int
                    } else {
                        2int
                    }
                } else if h == 0 {
                    1int
                } else {
                    -1int
                };
                Some(
                    Event {
                        bind: clamp(event.degree + transpose + 2, 0, 11) as u8,
                        midi: 0,
                        level: (event.velocity * 6_200) as u32,
                        delay_us: micro_of(session, LANE_LEAD, step, session.signature.tonal_delay_us, step_us) as i64,
                    },
                )
            },
        }
    }
}

/// Lead event at an absolute step. `Event::bind` indexes the scene's degree
/// table (`degree + 2`). The motif transposes per phrase and thins at the arc
/// edges so the melody breathes instead of looping verbatim.
pub fn lead_at(session: &Session, params: &Params, step: i64, step_us: i64) -> (r: Option<Event>)
    requires
        known_signature(session.signature),
        step_fits(step_us),
    ensures
        r == lead_of(*session, *params, step, step_us),
{
    if !params.lead_on {
        return None;
    }
    let phrase = div_euclid_i64(step, STEPS_PER_PHRASE);
    let arc = rem_euclid_i64(phrase, 4);
    let cycle = rem_euclid_i64(step, 64);
    let motif = motif_for(&session.signature, params.lead_shape);
    let event = match motif.event_at(cycle) {
        Some(e) => e,
        None => return None,
    };
    // Rest the tail of quiet phrases: the motif states less, not more.
    if (arc == 0 || arc == 3) && !params.lead_busy && event.velocity < 52 {
        return None;
    }
    // Phrase-scale call and answer: even phrases state near home, odd phrases
    // answer shifted. Partitioning by parity guarantees adjacent phrases
    // always differ even when the arrangement cards happen to repeat.
    let options: [i32; 2] = if rem_euclid_i64(phrase, 2) == 0 {
        [0, 2]
    } else {
        [1, -1]
    };
    let transpose = options[(event_hash(session.seed, LANE_LEAD, phrase) % 2) as usize];
    let degree = event.degree as i32 + transpose;
    let bind = clamp_i32(degree + 2, 0, 11) as u8;
    Some(
        Event {
            bind,
            midi: 0,
            level: event.velocity as u32 * 6_200,
            delay_us: micro(session, LANE_LEAD, step, session.signature.tonal_delay_us, step_us),
        },
    )
}

/// Semitones above `root` of the pitch class `pc`, in `0..12`.
pub open spec fn above_root(pc: int, root: int) -> int {
    (pc - root) % 12
}

/// The bass only lands on chord tones: every grid hit's pitch class is the
/// bar chord's root, its fifth, or (a busy bass only) its third, counted up
/// from the root. The downbeat is the root; off it, the riff's hash picks
/// among restating the root, the fifth and, when busy, the third, and the
/// pick that names the fifth sounds the chord's own fifth (diminished in a
/// half-diminished chord).
pub proof fn lemma_bass_lands_on_chord_tones(session: Session, params: Params, step: i64)
    ensures
        ({
            let chord = session.progression.slot((step / 16) % 4).chord;
            let root = chord.root as int;
            let q = chord.quality;
            let d = above_root(bass_pc_of(session, params, step), root);
            let riff = (params.bass_shape as u64) << 32u64;
            let pick = spec_event_hash(session.seed ^ riff, LANE_BASS ^ 0x5e1ec7, (step % 64) as i64) % if params.bass_busy {
                5
            } else {
                4
            };
            &&& 0 <= bass_pc_of(session, params, step) < 12
            &&& d == 0 || d == fifth_of(q) || (params.bass_busy && d == third_of(q))
            &&& step % 16 == 0 ==> d == 0
            &&& step % 16 != 0 && pick == 2 ==> d == fifth_of(q)
            &&& step % 16 != 0 && pick == 4 ==> d == third_of(q)
            &&& step % 16 != 0 && pick != 2 && pick != 4 ==> d == 0
        }),
{
    let chord = session.progression.slot((step / 16) % 4).chord;
    let root = chord.root as int;
    let q = chord.quality;
    assert forall|i: int| 0 <= i < 12 implies #[trigger] above_root((root + i) % 12, root) == i by {
        assert(((root + i) % 12 - root) % 12 == i) by (nonlinear_arith)
            requires
                0 <= i < 12,
                0 <= root,
        {
            vstd::arithmetic::div_mod::lemma_fundamental_div_mod(root + i, 12);
            vstd::arithmetic::div_mod::lemma_fundamental_div_mod((root + i) % 12 - root, 12);
        }
    }
    assert(above_root((root + 0) % 12, root) == 0);
    assert(above_root((root + fifth_of(q)) % 12, root) == fifth_of(q));
    assert(above_root((root + third_of(q)) % 12, root) == third_of(q));
    assert((root + 0) % 12 == root % 12);
}

#[verifier::spinoff_prover]
/// The bass downbeat is always the chord root: every bar opens with a bass
/// hit on the pitch class of the bar's chord root.
pub proof fn lemma_bass_downbeat_is_root(session: Session, params: Params, step: i64, step_us: i64)
    requires
        step % 16 == 0,
    ensures
        bass_of(session, params, step, step_us) matches Some(e) && e.bind == bar_root(session.progression, step / 16)
            % 12,
{
    let x = step as int;
    assert(x % 128 < 120) by {
        vstd::arithmetic::div_mod::lemma_mod_mod(x, 16, 8);
    }
    assert(bass_pc_of(session, params, step) == bar_root(session.progression, step / 16) % 12);
}

/// Approach tones are diatonic: an approach note's pitch class lies on the
/// session's scale, counted up from the tonic.
pub proof fn lemma_approach_is_diatonic(session: Session, step: i64)
    ensures
        ({
            let p = session.progression;
            let tonic = clamp(scale_pitch(p.key(), p.mode(), 0), 55, 84);
            exists|j: int| 0 <= j < 7 && (approach_pc_of(session, step) - tonic) % 12 == scale_intervals_of(p)[j]
        }),
{
    let p = session.progression;
    let next_bar = step / 16 + 1;
    let next_root = bar_root(p, next_bar);
    let key_root = clamp(scale_pitch(p.key(), p.mode(), 0), 55, 84);
    let scale = scale_intervals_of(p);
    lemma_scale_intervals_small(p);
    lemma_snap_small((next_root - 1) as i32, key_root as i32, scale);
    lemma_snap_small((next_root + 2) as i32, key_root as i32, scale);
    let h = spec_event_hash(session.seed, LANE_BASS ^ 0xa99, (next_bar % 4) as i64);
    let chosen_note = if h % 3 == 0 {
        (next_root + 2) as i32
    } else {
        (next_root - 1) as i32
    };
    let (j, m) = choose|j: int, m: int|
        0 <= j < 7 && -200 <= m <= 200 && spec_snap(chosen_note, key_root as i32, scale) == #[trigger] tone_at(
            key_root as int,
            m,
            scale[j] as int,
        );
    let snapped = spec_snap(chosen_note, key_root as i32, scale);
    assert((snapped % 12 - key_root) % 12 == scale[j]) by (nonlinear_arith)
        requires
            snapped == key_root + 12 * m + scale[j],
            0 <= scale[j] < 12,
    ;
}

/// Quiet phrases rest more: wherever the lead plays in a quiet phrase (the
/// first or last of an arc), it plays at the same cycle position of a peak
/// phrase too.
pub proof fn lemma_quiet_phrases_rest_more(session: Session, params: Params, quiet: i64, peak: i64, step_us: i64)
    requires
        quiet % 64 == peak % 64,
        (peak / 128) % 4 == 1 || (peak / 128) % 4 == 2,
    ensures
        lead_of(session, params, quiet, step_us) is Some ==> lead_of(session, params, peak, step_us) is Some,
{
}

/// An anticipation push voices the next chord: a keys strike on the and-of-four
/// binds to the following bar's chord slot.
pub proof fn lemma_push_voices_next_chord(session: Session, params: Params, step: i64, step_us: i64, voice: int)
    requires
        step % 16 == 14,
    ensures
        keys_voice(session, params, step, step_us, voice) matches Some(e) ==> e.bind / 3 == (step / 16 + 1) % 4,
{
}

} // verus!
