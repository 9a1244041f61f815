//! Per-role step patterns of the phase-locked loop engine, and the choices
//! its voices make: which steps sound for each role under the arrangement's
//! parameters, which chord tones the bass and lead take, and which tone
//! profile a seed selects. Every choice is a pure function of mesh time and
//! the shared parameters, so all boxes stay in lockstep.
use crate::arith::{clamp, clamp_i32, div_euclid_i64, rem_euclid_i64};
use crate::music::arrangement::{mix64, Params};
use crate::music::progression::{generated_from, ChordSlot, Progression};
use crate::music::theory::{fifth_of, third_of};
use crate::transport::Transport;
use crate::Micros;
use vstd::prelude::*;

verus! {

pub const TICKS_PER_STEP: i64 = 24;

pub const STEPS_PER_BAR: i64 = 16;

/// Steps a voice looks back over for onsets that still ring.
pub const SCAN_STEPS: i64 = 48;

/// How late the drums sit behind the grid, in microseconds.
pub const DRUM_LAIDBACK_US: i64 = 12_000;

/// Number of tone profiles.
pub const KIT_COUNT: u64 = 4;

/// The tone profile a seed selects, as an index into the profiles: every
/// mesh member makes the same choice.
pub open spec fn spec_kit_index(seed: u64) -> int {
    (crate::music::arrangement::spec_splitmix(seed ^ 0x7669_6265_6b69_7401) % 4) as int
}

pub fn kit_index(seed: u64) -> (r: usize)
    ensures
        r == spec_kit_index(seed),
        r < 4,
{
    let hash = mix64(seed ^ 0x7669_6265_6b69_7401);
    (hash % KIT_COUNT) as usize
}

/// Everything a loop-engine voice needs, resolved once per block: the
/// transport and seed for timing, the arrangement's parameters for pattern
/// density, the tone profile and the progression the parameters reharmonise.
#[derive(Clone, Copy, Debug)]
pub struct BeatCtx {
    pub transport: Transport,
    pub seed: u64,
    pub sample_rate: u32,
    pub params: Params,
    pub kit: usize,
    pub progression: Progression,
}

impl BeatCtx {
    pub fn new(transport: Transport, seed: u64, sample_rate: u32, params: Params, kit: usize) -> (r: Self)
        ensures
            r.transport == transport,
            r.seed == seed,
            r.sample_rate == sample_rate,
            r.params == params,
            r.kit == kit,
            generated_from(r.progression, seed ^ (params.reharm as u64).wrapping_mul(0x2545_f491)),
    {
        let progression = Progression::generate(seed ^ (params.reharm as u64).wrapping_mul(0x2545_f491));
        BeatCtx { transport, seed, sample_rate, params, kit, progression }
    }
}

/// The bar playing at a mesh time.
pub fn bar_at(t: &Transport, mesh_us: Micros) -> (r: i64)
    requires
        t.wf(),
    ensures
        r == t.spec_tick_at(mesh_us) / 384,
{
    div_euclid_i64(t.tick_at(mesh_us), TICKS_PER_STEP * STEPS_PER_BAR)
}

/// One beat, in microseconds, at the transport's tempo.
pub fn beat_us(t: &Transport) -> (r: i64)
    ensures
        r == 60_000_000_000int / if t.bpm_milli < 1 { 1int } else { t.bpm_milli as int },
{
    let bpm: i64 = if t.bpm_milli < 1 {
        1
    } else {
        t.bpm_milli as i64
    };
    60_000_000_000 / bpm
}

/// Every fourth bar carries a fill.
pub fn is_fill_bar(bar: i64) -> (r: bool)
    ensures
        r == (bar % 4 == 3),
{
    rem_euclid_i64(bar, 4) == 3
}

/// The kick's steps: on the downbeat (plus a pickup in fill bars) in half
/// time, else one of five syncopated shapes chosen by the variant, the fill
/// setting and the bar, some with a pickup in fill bars.
pub open spec fn kick_on(s: i64, p: Params, bar: i64) -> bool {
    let fill = bar % 4 == 3;
    if p.half_time {
        s == 0 || (fill && s == 14)
    } else {
        let shape = (p.kick_variant + p.drum_fill + bar % 4) % 5;
        if shape == 1 {
            s == 0 || s == 6 || s == 10 || (fill && s == 14)
        } else if shape == 2 {
            s == 0 || s == 3 || s == 8 || s == 11
        } else if shape == 3 {
            s == 0 || s == 5 || s == 10 || s == 13
        } else if shape == 4 {
            s == 0 || s == 7 || s == 12 || (fill && s == 15)
        } else {
            s == 0 || s == 7 || s == 10
        }
    }
}

pub fn kick_step(s: i64, p: &Params, bar: i64) -> (r: bool)
    requires
        p.kick_variant + p.drum_fill + 3 <= 255,
    ensures
        r == kick_on(s, *p, bar),
{
    if p.half_time {
        return s == 0 || (is_fill_bar(bar) && s == 14);
    }
    let fill = is_fill_bar(bar);
    match (p.kick_variant + p.drum_fill + rem_euclid_i64(bar, 4) as u8) % 5 {
        1 => s == 0 || s == 6 || s == 10 || (fill && s == 14),
        2 => s == 0 || s == 3 || s == 8 || s == 11,
        3 => s == 0 || s == 5 || s == 10 || s == 13,
        4 => s == 0 || s == 7 || s == 12 || (fill && s == 15),
        _ => s == 0 || s == 7 || s == 10,
    }
}

/// The snare's steps: beat three in half time (with pickups in fill bars),
/// else the backbeat, with a pickup in fill bars of odd fill settings.
pub open spec fn snare_on(s: i64, p: Params, bar: i64) -> bool {
    let fill = bar % 4 == 3;
    if p.half_time {
        s == 8 || (fill && (s == 11 || s == 15))
    } else {
        s == 4 || s == 12 || (fill && p.drum_fill % 2 == 1 && s == 15)
    }
}

pub fn snare_step(s: i64, p: &Params, bar: i64) -> (r: bool)
    ensures
        r == snare_on(s, *p, bar),
{
    if p.half_time {
        s == 8 || (is_fill_bar(bar) && (s == 11 || s == 15))
    } else {
        s == 4 || s == 12 || (is_fill_bar(bar) && p.drum_fill % 2 == 1 && s == 15)
    }
}

/// The ghost snare's steps: one of three shapes by the fill setting.
pub open spec fn ghost_on(s: i64, p: Params) -> bool {
    if p.drum_fill % 3 == 1 {
        s == 3 || s == 7 || s == 15
    } else if p.drum_fill % 3 == 2 {
        s == 2 || s == 11 || s == 15
    } else {
        s == 7 || s == 15
    }
}

pub fn ghost_step(s: i64, p: &Params) -> (r: bool)
    ensures
        r == ghost_on(s, *p),
{
    match p.drum_fill % 3 {
        1 => s == 3 || s == 7 || s == 15,
        2 => s == 2 || s == 11 || s == 15,
        _ => s == 7 || s == 15,
    }
}

/// The hats' steps: sparse quarters, a dense grid with a few drops, or
/// (normal density) eighths shaped by the bar.
pub open spec fn hat_on(s: i64, p: Params, bar: i64) -> bool {
    let shape = (p.drum_fill + bar % 4) % 4;
    if p.hat_density == 0 {
        s == 0 || s == 8 || (shape == 2 && s == 12)
    } else if p.hat_density == 2 {
        !((shape == 1 && (s == 3 || s == 11)) || (shape == 2 && (s == 7 || s == 15)))
    } else if shape == 1 {
        s == 0 || s == 2 || s == 6 || s == 8 || s == 10 || s == 14
    } else if shape == 2 {
        s == 0 || s == 4 || s == 6 || s == 8 || s == 12 || s == 14
    } else if shape == 3 {
        s % 2 == 0 || s == 15
    } else {
        s % 2 == 0
    }
}

pub fn hat_step(s: i64, p: &Params, bar: i64) -> (r: bool)
    requires
        p.drum_fill + 3 <= 255,
    ensures
        r == hat_on(s, *p, bar),
{
    let bar_shape = (p.drum_fill + rem_euclid_i64(bar, 4) as u8) % 4;
    match p.hat_density {
        0 => s == 0 || s == 8 || (bar_shape == 2 && s == 12),
        2 => !((bar_shape == 1 && (s == 3 || s == 11)) || (bar_shape == 2 && (s == 7 || s == 15))),
        _ => match bar_shape {
            1 => s == 0 || s == 2 || s == 6 || s == 8 || s == 10 || s == 14,
            2 => s == 0 || s == 4 || s == 6 || s == 8 || s == 12 || s == 14,
            3 => s % 2 == 0 || s == 15,
            _ => s % 2 == 0,
        },
    }
}

/// The keys' steps: the downbeat (and beat four on odd shapes) when sparse,
/// else one of three comping shapes.
pub open spec fn keys_on(s: i64, p: Params) -> bool {
    if p.keys_sparse {
        ((s == 0 || s == 12) && p.keys_shape % 2 == 1) || s == 0
    } else if p.keys_shape % 3 == 1 {
        s == 0 || s == 4 || s == 11
    } else if p.keys_shape % 3 == 2 {
        s == 0 || s == 7 || s == 12 || s == 14
    } else {
        s == 0 || s == 6 || s == 10
    }
}

pub fn keys_step(s: i64, p: &Params) -> (r: bool)
    ensures
        r == keys_on(s, *p),
{
    if p.keys_sparse {
        ((s == 0 || s == 12) && p.keys_shape % 2 == 1) || s == 0
    } else {
        match p.keys_shape % 3 {
            1 => s == 0 || s == 4 || s == 11,
            2 => s == 0 || s == 7 || s == 12 || s == 14,
            _ => s == 0 || s == 6 || s == 10,
        }
    }
}

/// The bass's steps: one of three busy or three sparse shapes.
pub open spec fn bass_on(s: i64, p: Params) -> bool {
    if p.bass_busy {
        if p.bass_shape % 3 == 1 {
            s == 0 || s == 3 || s == 7 || s == 10 || s == 14
        } else if p.bass_shape % 3 == 2 {
            s == 0 || s == 5 || s == 8 || s == 11 || s == 15
        } else {
            s == 0 || s == 4 || s == 8 || s == 10 || s == 14
        }
    } else if p.bass_shape % 3 == 1 {
        s == 0 || s == 7
    } else if p.bass_shape % 3 == 2 {
        s == 0 || s == 10 || s == 14
    } else {
        s == 0 || s == 10
    }
}

pub fn bass_step(s: i64, p: &Params) -> (r: bool)
    ensures
        r == bass_on(s, *p),
{
    if p.bass_busy {
        match p.bass_shape % 3 {
            1 => s == 0 || s == 3 || s == 7 || s == 10 || s == 14,
            2 => s == 0 || s == 5 || s == 8 || s == 11 || s == 15,
            _ => s == 0 || s == 4 || s == 8 || s == 10 || s == 14,
        }
    } else {
        match p.bass_shape % 3 {
            1 => s == 0 || s == 7,
            2 => s == 0 || s == 10 || s == 14,
            _ => s == 0 || s == 10,
        }
    }
}

/// The lead's steps: one of four busy or four sparse shapes.
pub open spec fn lead_on(s: i64, p: Params) -> bool {
    if p.lead_busy {
        if p.lead_shape % 4 == 1 {
            s == 1 || s == 5 || s == 9 || s == 13
        } else if p.lead_shape % 4 == 2 {
            s == 2 || s == 5 || s == 11 || s == 15
        } else if p.lead_shape % 4 == 3 {
            s == 3 || s == 6 || s == 10 || s == 14
        } else {
            s == 2 || s == 6 || s == 10 || s == 14
        }
    } else if p.lead_shape % 4 == 1 {
        s == 2 || s == 11
    } else if p.lead_shape % 4 == 2 {
        s == 5 || s == 13
    } else if p.lead_shape % 4 == 3 {
        s == 3 || s == 10 || s == 14
    } else {
        s == 4 || s == 12
    }
}

pub fn lead_step(s: i64, p: &Params) -> (r: bool)
    ensures
        r == lead_on(s, *p),
{
    if p.lead_busy {
        match p.lead_shape % 4 {
            1 => s == 1 || s == 5 || s == 9 || s == 13,
            2 => s == 2 || s == 5 || s == 11 || s == 15,
            3 => s == 3 || s == 6 || s == 10 || s == 14,
            _ => s == 2 || s == 6 || s == 10 || s == 14,
        }
    } else {
        match p.lead_shape % 4 {
            1 => s == 2 || s == 11,
            2 => s == 5 || s == 13,
            3 => s == 3 || s == 10 || s == 14,
            _ => s == 4 || s == 12,
        }
    }
}

/// The texture pad's steps: the downbeat on even shapes, else the downbeat
/// and beat three.
pub fn texture_step(s: i64, p: &Params) -> (r: bool)
    ensures
        r == if p.texture_shape % 2 == 0 { s == 0 } else { s == 0 || s == 8 },
{
    if p.texture_shape % 2 == 0 {
        s == 0
    } else {
        s == 0 || s == 8
    }
}

/// The chord tone `degree` (root, third, fifth, then the same an octave up,
/// repeating) of a slot's chord, `octave` octaves up, kept between 60 and 84.
pub open spec fn chord_tone_of(slot: ChordSlot, degree: int, octave: int) -> int {
    let q = slot.chord.quality;
    let d = degree % 6;
    let iv = if d == 0 {
        0
    } else if d == 1 {
        third_of(q) as int
    } else if d == 2 {
        fifth_of(q) as int
    } else if d == 3 {
        12
    } else if d == 4 {
        third_of(q) + 12
    } else {
        fifth_of(q) + 12
    };
    clamp(slot.chord.root + iv + octave * 12, 60, 84)
}

/// Lead degrees are the chord's tones: degree `d` in octave `o` sounds the
/// root, the third or the fifth (as `d % 3` is 0, 1 or 2) of the slot's
/// chord, in octave `o` above the root or one more for the upper three of
/// every six degrees, held to MIDI 60..84; and the six degrees climb.
pub proof fn lemma_chord_tones_spell_the_chord(slot: ChordSlot, d: int, o: int)
    ensures
        ({
            let q = slot.chord.quality;
            let root = slot.chord.root as int;
            let up = 12 * (o + (d % 6) / 3);
            let t = chord_tone_of(slot, d, o);
            &&& 60 <= t <= 84
            &&& d % 3 == 0 ==> t == clamp(root + up, 60, 84)
            &&& d % 3 == 1 ==> t == clamp(root + third_of(q) + up, 60, 84)
            &&& d % 3 == 2 ==> t == clamp(root + fifth_of(q) + up, 60, 84)
            &&& d % 6 < 5 ==> t <= chord_tone_of(slot, d + 1, o)
        }),
{
    vstd::arithmetic::div_mod::lemma_fundamental_div_mod(d, 6);
    vstd::arithmetic::div_mod::lemma_fundamental_div_mod(d, 3);
    let k = d % 6;
    assert(d % 3 == k % 3 && (d + 1) % 6 == (if k < 5 { k + 1 } else { 0 })) by (nonlinear_arith)
        requires
            d == 6 * (d / 6) + k,
            0 <= k < 6,
            d == 3 * (d / 3) + d % 3,
            0 <= d % 3 < 3,
    {
        vstd::arithmetic::div_mod::lemma_fundamental_div_mod(d + 1, 6);
    }
    assert(k / 3 == (if k < 3 { 0int } else { 1int }));
}

pub fn chord_tone(slot: &ChordSlot, degree: usize, octave: i32) -> (r: u8)
    requires
        -1000 <= octave <= 1000,
    ensures
        r == chord_tone_of(*slot, degree as int, octave as int),
{
    let third = slot.chord.quality.third();
    let fifth = slot.chord.quality.fifth();
    let intervals: [i32; 6] = [0, third, fifth, 12, third + 12, fifth + 12];
    clamp_i32(slot.chord.root as i32 + intervals[degree % 6] + octave * 12, 60, 84) as u8
}

/// The bass tone `degree` (root, third, fifth, octave, repeating) above the
/// slot's bass note, kept between 28 and 55.
pub open spec fn bass_chord_tone_of(slot: ChordSlot, degree: int) -> int {
    let q = slot.chord.quality;
    let d = degree % 4;
    let iv = if d == 0 {
        0
    } else if d == 1 {
        third_of(q) as int
    } else if d == 2 {
        fifth_of(q) as int
    } else {
        12
    };
    clamp(slot.bass + iv, 28, 55)
}

/// Bass degrees walk the chord up from the slot's bass note: degree `d`
/// sounds the bass note, the chord's third or fifth above it, or its octave
/// (as `d % 4` is 0, 1, 2 or 3), held to MIDI 28..55; the four climb.
pub proof fn lemma_bass_tones_walk_the_chord(slot: ChordSlot, d: int)
    ensures
        ({
            let q = slot.chord.quality;
            let b = slot.bass as int;
            let t = bass_chord_tone_of(slot, d);
            &&& 28 <= t <= 55
            &&& d % 4 == 0 ==> t == clamp(b, 28, 55)
            &&& d % 4 == 1 ==> t == clamp(b + third_of(q), 28, 55)
            &&& d % 4 == 2 ==> t == clamp(b + fifth_of(q), 28, 55)
            &&& d % 4 == 3 ==> t == clamp(b + 12, 28, 55)
            &&& d % 4 < 3 ==> t <= bass_chord_tone_of(slot, d + 1)
        }),
{
    vstd::arithmetic::div_mod::lemma_fundamental_div_mod(d, 4);
    let k = d % 4;
    assert(k < 3 ==> (d + 1) % 4 == k + 1) by (nonlinear_arith)
        requires
            d == 4 * (d / 4) + k,
            0 <= k < 4,
    {
        vstd::arithmetic::div_mod::lemma_fundamental_div_mod(d + 1, 4);
    }
}

pub fn bass_chord_tone(slot: &ChordSlot, degree: usize) -> (r: i32)
    ensures
        r == bass_chord_tone_of(*slot, degree as int),
{
    let intervals: [i32; 4] = [0, slot.chord.quality.third(), slot.chord.quality.fifth(), 12];
    clamp_i32(slot.bass as i32 + intervals[degree % 4], 28, 55)
}

/// The walking bass note on a step of the bar: the walk pattern the bass
/// shape picks, one tone per beat.
pub open spec fn bass_note_of(slot: ChordSlot, step: int, p: Params) -> int {
    let beat = (step / 4) % 4;
    let degree = if p.bass_shape % 3 == 1 {
        beat
    } else if p.bass_shape % 3 == 2 {
        if beat == 0 { 0int } else if beat == 1 { 2int } else if beat == 2 { 0int } else { 1int }
    } else {
        if beat == 0 { 0int } else if beat == 1 { 2int } else if beat == 2 { 1int } else { 2int }
    };
    bass_chord_tone_of(slot, degree)
}

pub fn bass_note(slot: &ChordSlot, step: i64, p: &Params) -> (r: i32)
    requires
        0 <= step,
    ensures
        r == bass_note_of(*slot, step as int, *p),
{
    let walk_a: [usize; 4] = [0, 2, 1, 2];
    let walk_b: [usize; 4] = [0, 1, 2, 3];
    let walk_c: [usize; 4] = [0, 2, 0, 1];
    let pattern = match p.bass_shape % 3 {
        1 => walk_b,
        2 => walk_c,
        _ => walk_a,
    };
    bass_chord_tone(slot, pattern[(step / 4 % 4) as usize])
}

/// The lead's motif degree tables, one per lead shape.
pub open spec fn lead_motif(shape: int, ix: int) -> int {
    let m: Seq<int> = if shape == 0 {
        seq![0, 1, 2, 1, 0, 2, 3, 1]
    } else if shape == 1 {
        seq![2, 1, 0, 1, 4, 2, 1, 0]
    } else if shape == 2 {
        seq![0, 2, 1, 3, 2, 0, 1, 2]
    } else {
        seq![1, 2, 4, 2, 1, 0, 2, 1]
    };
    m[ix]
}

/// Where the lead's motif stands on a step: each pair of steps moves one
/// note along, turned by the phrase and the bar's parity (all modulo the
/// motif's eight notes).
pub open spec fn lead_ix(phrase: i64, bar: i64, step: i64) -> int {
    (((crate::arith::trunc_div(step as int, 2) as i64) as u64).wrapping_add((phrase as u64).wrapping_add((bar as u64) & 1)) % 8) as int
}

/// The lead note on a step: the motif's chord degree an octave up.
pub fn lead_note(slot: &ChordSlot, phrase: i64, bar: i64, step: i64, p: &Params) -> (r: u8)
    ensures
        r == chord_tone_of(*slot, lead_motif((p.lead_shape % 4) as int, lead_ix(phrase, bar, step)), 1),
{
    let motifs: [[usize; 8]; 4] = [
        [0, 1, 2, 1, 0, 2, 3, 1],
        [2, 1, 0, 1, 4, 2, 1, 0],
        [0, 2, 1, 3, 2, 0, 1, 2],
        [1, 2, 4, 2, 1, 0, 2, 1],
    ];
    let shape = (p.lead_shape % 4) as usize;
    let phrase_turn = (phrase as u64).wrapping_add((bar as u64) & 1);
    let ix = (((step / 2) as u64).wrapping_add(phrase_turn) % 8) as usize;
    let degree = motifs[shape][ix];
    proof {
        assert(degree as int == lead_motif(shape as int, ix as int));
    }
    chord_tone(slot, degree, 1)
}

/// The per-sample noise index at a mesh time: the sample count since mesh
/// zero, cut to 32 bits.
pub fn noise_index(mesh_us: Micros, sample_rate: u32) -> (r: u32)
    ensures
        r == ((mesh_us as int * sample_rate as int) / 1_000_000) as u32 || mesh_us < 0,
        mesh_us >= 0 ==> r == ((mesh_us as int * sample_rate as int) / 1_000_000) as u32,
{
    let m = mesh_us as i128;
    let sr = sample_rate as i128;
    proof {
        assert(-0x8000_0000_0000_0000 * 0x1_0000_0000 <= m * sr <= 0x8000_0000_0000_0000 * 0x1_0000_0000)
            by (nonlinear_arith)
            requires
                -0x8000_0000_0000_0000 <= m < 0x8000_0000_0000_0000,
                0 <= sr < 0x1_0000_0000,
        ;
        if m >= 0 {
            assert(m * sr >= 0) by (nonlinear_arith)
                requires
                    m >= 0,
                    sr >= 0,
            ;
        }
    }
    ((m * sr) / 1_000_000) as u32
}

} // verus!
