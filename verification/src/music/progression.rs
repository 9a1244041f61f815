//! Deterministic jazz-flavoured chord progressions with voice leading.
//!
//! A small grammar of lofi-idiomatic templates (ii-V-i, i-VI-III-VII, modal
//! vamps, I-vi-ii-V) over a seeded key. Voicings are threaded chord to chord
//! so the colour tones move smoothly rather than jumping octaves.
use crate::arith::{clamp, clamp_i32, div_euclid_i32, rem_euclid_i32};
use crate::music::arrangement::{spec_splitmix, splitmix};
use crate::music::theory::{
    lemma_voicing_fits, spec_center, spec_voicing, Chord, ChordQuality, Voicing,
};
use vstd::prelude::*;

verus! {

/// Comfortable key roots (mid register): A D Bb E C G F Eb. The roots span
/// flats and sharps so sessions do not all share one pitch collection.
pub const KEYS: [u8; 8] = [57, 50, 46, 52, 48, 55, 53, 51];

/// The scale a template's melodies draw from.
#[derive(Clone, Copy, Debug, PartialEq, Eq, Structural)]
pub enum Mode {
    Major,
    Dorian,
    Aeolian,
    HarmonicMinor,
}

/// Scale degrees (semitones above the tonic) of a mode.
pub open spec fn intervals_of(m: Mode) -> Seq<i32> {
    match m {
        Mode::Major => seq![0, 2, 4, 5, 7, 9, 11],
        Mode::Dorian => seq![0, 2, 3, 5, 7, 9, 10],
        Mode::Aeolian => seq![0, 2, 3, 5, 7, 8, 10],
        Mode::HarmonicMinor => seq![0, 2, 3, 5, 7, 8, 11],
    }
}

impl Mode {
    pub fn intervals(self) -> (r: [i32; 7])
        ensures
            r@ == intervals_of(self),
    {
        let r = match self {
            Mode::Major => [0, 2, 4, 5, 7, 9, 11],
            Mode::Dorian => [0, 2, 3, 5, 7, 9, 10],
            Mode::Aeolian => [0, 2, 3, 5, 7, 8, 10],
            Mode::HarmonicMinor => [0, 2, 3, 5, 7, 8, 11],
        };
        assert(r@ == intervals_of(self));
        r
    }
}

/// One bar per entry: (semitones above the key root, quality), and the mode.
#[derive(Clone, Copy)]
pub struct Template {
    pub chords: [(i32, ChordQuality); 4],
    pub mode: Mode,
}

/// Number of templates.
pub const TEMPLATE_COUNT: u32 = 6;

/// Template `i` (of six): Dorian ii-V vamp, Aeolian i-VI-III-VII, harmonic
/// minor ii-V-i, major I-vi-ii-V, harmonic minor vamp, major vamp.
pub open spec fn template_spec(i: int) -> Template {
    if i == 0 {
        Template {
            chords: [(0, ChordQuality::Min9), (5, ChordQuality::Min7), (10, ChordQuality::Dom9), (0, ChordQuality::Min9)],
            mode: Mode::Dorian,
        }
    } else if i == 1 {
        Template {
            chords: [(0, ChordQuality::Min9), (8, ChordQuality::Maj7), (3, ChordQuality::Maj9), (10, ChordQuality::Dom9)],
            mode: Mode::Aeolian,
        }
    } else if i == 2 {
        Template {
            chords: [(2, ChordQuality::HalfDim7), (7, ChordQuality::Dom9), (0, ChordQuality::Min9), (0, ChordQuality::Min9)],
            mode: Mode::HarmonicMinor,
        }
    } else if i == 3 {
        Template {
            chords: [(0, ChordQuality::Maj9), (9, ChordQuality::Min7), (2, ChordQuality::Min7), (7, ChordQuality::Dom9)],
            mode: Mode::Major,
        }
    } else if i == 4 {
        Template {
            chords: [(0, ChordQuality::Min9), (5, ChordQuality::Min9), (0, ChordQuality::Min9), (7, ChordQuality::Dom9)],
            mode: Mode::HarmonicMinor,
        }
    } else {
        Template {
            chords: [(0, ChordQuality::Maj9), (5, ChordQuality::Maj7), (0, ChordQuality::Maj9), (7, ChordQuality::Dom9)],
            mode: Mode::Major,
        }
    }
}

/// The template at `i` (indices past the last give the last).
pub fn template(i: u32) -> (r: Template)
    ensures
        r.mode == template_spec(i as int).mode,
        r.chords@ == template_spec(i as int).chords@,
{
    let r = if i == 0 {
        Template {
            chords: [(0, ChordQuality::Min9), (5, ChordQuality::Min7), (10, ChordQuality::Dom9), (0, ChordQuality::Min9)],
            mode: Mode::Dorian,
        }
    } else if i == 1 {
        Template {
            chords: [(0, ChordQuality::Min9), (8, ChordQuality::Maj7), (3, ChordQuality::Maj9), (10, ChordQuality::Dom9)],
            mode: Mode::Aeolian,
        }
    } else if i == 2 {
        Template {
            chords: [(2, ChordQuality::HalfDim7), (7, ChordQuality::Dom9), (0, ChordQuality::Min9), (0, ChordQuality::Min9)],
            mode: Mode::HarmonicMinor,
        }
    } else if i == 3 {
        Template {
            chords: [(0, ChordQuality::Maj9), (9, ChordQuality::Min7), (2, ChordQuality::Min7), (7, ChordQuality::Dom9)],
            mode: Mode::Major,
        }
    } else if i == 4 {
        Template {
            chords: [(0, ChordQuality::Min9), (5, ChordQuality::Min9), (0, ChordQuality::Min9), (7, ChordQuality::Dom9)],
            mode: Mode::HarmonicMinor,
        }
    } else {
        Template {
            chords: [(0, ChordQuality::Maj9), (5, ChordQuality::Maj7), (0, ChordQuality::Maj9), (7, ChordQuality::Dom9)],
            mode: Mode::Major,
        }
    };
    assert(r.chords@ == template_spec(i as int).chords@);
    r
}

/// Chords per progression.
pub const MAX_CHORDS: usize = 4;

/// One bar of a progression: the chord, its voicing and the bass note.
#[derive(Clone, Copy, Debug, PartialEq, Eq)]
pub struct ChordSlot {
    pub chord: Chord,
    pub voicing: Voicing,
    pub bass: u8,
}

/// A generated progression: four bars over one key in one mode.
#[derive(Clone, Copy, Debug, PartialEq, Eq)]
pub struct Progression {
    slots: [ChordSlot; MAX_CHORDS],
    len: usize,
    key: u8,
    mode: Mode,
}

/// The 64-bit mixer truncated to its low 32 bits.
pub open spec fn mix32(x: u64) -> u32 {
    spec_splitmix(x) as u32
}

/// The template a seed selects.
pub open spec fn template_of(seed: u64) -> Template {
    template_spec((mix32(seed) % 6) as int)
}

/// The key root a seed selects.
pub open spec fn key_of(seed: u64) -> u8 {
    KEYS@[(mix32(seed ^ 0x9e37_79b9) % 8) as int]
}

/// The chord of bar `i`: the template's offset above the key, its root kept
/// in the mid register.
pub open spec fn chord_at(t: Template, key: u8, i: int) -> Chord {
    Chord { root: clamp(key + t.chords@[i].0, 36, 72) as u8, quality: t.chords@[i].1 }
}

/// The voicing of bar `i`: the first around middle E, each later one around
/// the center of the one before.
pub open spec fn voicing_at(t: Template, key: u8, i: nat) -> Seq<u8>
    decreases i,
{
    if i == 0 {
        spec_voicing(chord_at(t, key, 0), 64)
    } else {
        spec_voicing(chord_at(t, key, i as int), spec_center(voicing_at(t, key, (i - 1) as nat)))
    }
}

/// A pitch class in the bass register.
pub open spec fn low_note(note: int) -> u8 {
    clamp(note % 12 + 36, 28, 48) as u8
}

/// Bar `i` of the progression over `key` from template `t`.
pub open spec fn slot_is(s: ChordSlot, t: Template, key: u8, i: int) -> bool {
    &&& s.chord == chord_at(t, key, i)
    &&& s.voicing.notes@ == voicing_at(t, key, i as nat)
    &&& s.bass == low_note(key + t.chords@[i].0)
}

/// The note of a tonic-relative diatonic degree before the register clamp.
pub open spec fn scale_pitch(key: u8, mode: Mode, degree: int) -> int {
    60 + key % 12 + intervals_of(mode)[degree % 7] + 12 * (degree / 7)
}

/// The progression a seed generates: the seed's key, its template's mode,
/// and each slot as the template places it in that key.
pub open spec fn generated_from(p: Progression, seed: u64) -> bool {
    &&& p.key() == key_of(seed)
    &&& p.mode() == template_of(seed).mode
    &&& p.count() == MAX_CHORDS
    &&& forall|i: int| 0 <= i < 4 ==> slot_is(#[trigger] p.slot(i), template_of(seed), key_of(seed), i)
}

impl Progression {
    #[verifier::type_invariant]
    spec fn inv(self) -> bool {
        self.len == MAX_CHORDS
    }

    pub closed spec fn slot(self, i: int) -> ChordSlot {
        self.slots@[i]
    }

    pub closed spec fn key(self) -> u8 {
        self.key
    }

    pub closed spec fn mode(self) -> Mode {
        self.mode
    }

    pub closed spec fn count(self) -> usize {
        self.len
    }

    /// Build a progression deterministically from a seed.
    pub fn generate(seed: u64) -> (r: Self)
        ensures
            generated_from(r, seed),
    {
        let template = template(splitmix32(seed) % TEMPLATE_COUNT);
        let key = KEYS[(splitmix32(seed ^ 0x9e37_79b9) % 8) as usize];
        let filler = ChordSlot {
            chord: Chord { root: key, quality: ChordQuality::Min7 },
            voicing: Voicing { notes: [60; 4] },
            bass: 36,
        };
        let mut slots = [filler; MAX_CHORDS];
        let mut previous: Option<Voicing> = None;
        let mut ix: usize = 0;
        while ix < MAX_CHORDS
            invariant
                ix <= 4,
                template.chords@ == template_of(seed).chords@,
                template.mode == template_of(seed).mode,
                key == key_of(seed),
                forall|i: int| 0 <= i < ix ==> slot_is(#[trigger] slots@[i], template_of(seed), key, i),
                ix == 0 ==> previous is None,
                ix > 0 ==> (previous matches Some(v) && v.notes@ == voicing_at(template_of(seed), key, (ix - 1) as nat)),
            decreases 4 - ix,
        {
            let (offset, quality) = template.chords[ix];
            let root = clamp_i32(key as i32 + offset, 36, 72) as u8;
            let chord = Chord { root, quality };
            let voicing = match previous {
                Some(v) => chord.voicing_near(&v),
                None => {
                    proof {
                        lemma_voicing_fits(chord, 64);
                    }
                    chord.voicing(64)
                },
            };
            previous = Some(voicing);
            let slot = ChordSlot { chord, voicing, bass: place_low(key as i32 + offset) };
            slots[ix] = slot;
            ix = ix + 1;
        }
        Self { slots, len: MAX_CHORDS, key, mode: template.mode }
    }

    /// Two progressions with the same key, mode and four slots are the same
    /// progression.
    pub proof fn lemma_same_slots(a: Progression, b: Progression)
        requires
            a.key() == b.key(),
            a.mode() == b.mode(),
            a.count() == b.count(),
            forall|i: int| 0 <= i < MAX_CHORDS ==> #[trigger] a.slot(i) == b.slot(i),
        ensures
            a == b,
    {
        assert forall|i: int| 0 <= i < MAX_CHORDS implies a.slots[i] == b.slots[i] by {
            vstd::array::lemma_array_index(a.slots, i);
            vstd::array::lemma_array_index(b.slots, i);
            assert(a.slot(i) == b.slot(i));
        }
        assert(a.slots =~= b.slots);
    }

    pub fn len(&self) -> (r: usize)
        ensures
            r == self.count(),
            r == MAX_CHORDS,
    {
        proof {
            use_type_invariant(self);
        }
        self.len
    }

    pub fn is_empty(&self) -> (r: bool)
        ensures
            r == (self.count() == 0),
            !r,
    {
        proof {
            use_type_invariant(self);
        }
        self.len == 0
    }

    /// The bar's slot, the progression repeating in both directions.
    pub fn slot_for_bar(&self, bar: i64) -> (r: &ChordSlot)
        ensures
            *r == self.slot(bar as int % 4),
    {
        proof {
            use_type_invariant(self);
        }
        let ix = crate::arith::rem_euclid_i64(bar, self.len as i64);
        &self.slots[ix as usize]
    }

    /// Place a tonic-relative diatonic degree in the lead register. A motif
    /// keeps its contour while the chord progression moves underneath.
    pub fn scale_note(&self, degree: i8) -> (r: u8)
        ensures
            r == clamp(scale_pitch(self.key(), self.mode(), degree as int), 55, 84),
    {
        let degree = degree as i32;
        let index = rem_euclid_i32(degree, 7);
        let octave = div_euclid_i32(degree, 7);
        let tonic = 60 + rem_euclid_i32(self.key as i32, 12);
        let intervals = self.mode.intervals();
        clamp_i32(tonic + intervals[index as usize] + octave * 12, 55, 84) as u8
    }
}

/// Place a pitch class low, in the bass register (MIDI 36 to 47).
fn place_low(note: i32) -> (r: u8)
    ensures
        r == low_note(note as int),
        36 <= r <= 47,
{
    let class = rem_euclid_i32(note, 12);
    clamp_i32(class + 36, 28, 48) as u8
}

fn splitmix32(x: u64) -> (r: u32)
    ensures
        r == mix32(x),
{
    splitmix(x) as u32
}

/// Scale degrees climb: each degree sounds strictly above the one before it
/// (before the register clamp), so the clamped notes never descend.
pub proof fn lemma_scale_ascends(key: u8, mode: Mode, degree: int)
    ensures
        scale_pitch(key, mode, degree) < scale_pitch(key, mode, degree + 1),
        clamp(scale_pitch(key, mode, degree), 55, 84) <= clamp(scale_pitch(key, mode, degree + 1), 55, 84),
{
    let i = degree % 7;
    let o = degree / 7;
    vstd::arithmetic::div_mod::lemma_fundamental_div_mod(degree, 7);
    if i < 6 {
        assert((degree + 1) % 7 == i + 1 && (degree + 1) / 7 == o) by (nonlinear_arith)
            requires
                degree == 7 * o + i,
                0 <= i < 6,
        ;
    } else {
        assert((degree + 1) % 7 == 0 && (degree + 1) / 7 == o + 1) by (nonlinear_arith)
            requires
                degree == 7 * o + 6,
        ;
    }
}

/// The whole and half steps climbing a mode from its tonic: major
/// W W H W W W H, dorian W H W W W H W, aeolian W H W W H W W, harmonic
/// minor W H W W H (augmented second) H.
pub open spec fn mode_steps(m: Mode) -> Seq<int> {
    match m {
        Mode::Major => seq![2, 2, 1, 2, 2, 2, 1],
        Mode::Dorian => seq![2, 1, 2, 2, 2, 1, 2],
        Mode::Aeolian => seq![2, 1, 2, 2, 1, 2, 2],
        Mode::HarmonicMinor => seq![2, 1, 2, 2, 1, 3, 1],
    }
}

/// Each mode is spelled by its steps: degree 0 is the tonic (middle C plus
/// the key's pitch class), and each degree lies the mode's whole or half
/// step above the one below it, the pattern repeating every octave. So a
/// major scale has its major third four semitones and its leading tone
/// eleven semitones above the tonic, and the minor modes a minor third.
pub proof fn lemma_modes_climb_by_their_steps(key: u8, mode: Mode, d: int)
    ensures
        scale_pitch(key, mode, 0) == 60 + key % 12,
        scale_pitch(key, mode, d + 1) - scale_pitch(key, mode, d) == mode_steps(mode)[d % 7],
        scale_pitch(key, mode, 2) - scale_pitch(key, mode, 0) == (if mode == Mode::Major { 4int } else { 3int }),
        scale_pitch(key, mode, 6) - scale_pitch(key, mode, 0) == (if mode == Mode::Major || mode == Mode::HarmonicMinor {
            11int
        } else {
            10int
        }),
{
    let i = d % 7;
    let o = d / 7;
    vstd::arithmetic::div_mod::lemma_fundamental_div_mod(d, 7);
    if i < 6 {
        assert((d + 1) % 7 == i + 1 && (d + 1) / 7 == o) by (nonlinear_arith)
            requires
                d == 7 * o + i,
                0 <= i < 6,
        ;
    } else {
        assert((d + 1) % 7 == 0 && (d + 1) / 7 == o + 1) by (nonlinear_arith)
            requires
                d == 7 * o + 6,
        ;
    }
    assert(0int % 7 == 0 && 0int / 7 == 0 && 2int % 7 == 2 && 2int / 7 == 0 && 6int % 7 == 6 && 6int / 7 == 0);
}

/// Scale notes follow the degrees: a higher degree never sounds lower (and,
/// before the register clamp, sounds strictly higher), every note lies in
/// MIDI 55 to 84, and seven degrees up is an octave up before the clamp.
pub proof fn lemma_scale_notes_ordered(key: u8, mode: Mode, d1: int, d2: int)
    ensures
        d1 < d2 ==> scale_pitch(key, mode, d1) < scale_pitch(key, mode, d2),
        d1 <= d2 ==> clamp(scale_pitch(key, mode, d1), 55, 84) <= clamp(scale_pitch(key, mode, d2), 55, 84),
        55 <= clamp(scale_pitch(key, mode, d1), 55, 84) <= 84,
        scale_pitch(key, mode, d1 + 7) == scale_pitch(key, mode, d1) + 12,
    decreases d2 - d1,
{
    vstd::arithmetic::div_mod::lemma_fundamental_div_mod(d1, 7);
    let i = d1 % 7;
    let o = d1 / 7;
    assert((d1 + 7) % 7 == i && (d1 + 7) / 7 == o + 1) by (nonlinear_arith)
        requires
            d1 == 7 * o + i,
            0 <= i < 7,
    ;
    if d1 < d2 {
        lemma_scale_ascends(key, mode, d1);
        lemma_scale_notes_ordered(key, mode, d1 + 1, d2);
    }
}

/// All four notes of a voicing lie in the keys register, MIDI 48 to 84.
pub open spec fn in_register(v: Seq<u8>) -> bool {
    &&& 48 <= v[0] <= 84
    &&& 48 <= v[1] <= 84
    &&& 48 <= v[2] <= 84
    &&& 48 <= v[3] <= 84
}

/// Every bar of the progression over `key` from template `t` is voiced in
/// register.
pub open spec fn voiced_in_register(t: Template, key: u8) -> bool {
    &&& in_register(voicing_at(t, key, 0))
    &&& in_register(voicing_at(t, key, 1))
    &&& in_register(voicing_at(t, key, 2))
    &&& in_register(voicing_at(t, key, 3))
}

/// Template 0's voicings over each key, bar by bar, stay in register.
#[verifier::spinoff_prover]
#[verifier::rlimit(40)]
proof fn lemma_template_0_voiced(k: int)
    requires
        0 <= k < 8,
    ensures
        voiced_in_register(template_spec(0), KEYS@[k]),
{
    let tp = template_spec(0);
    if k == 0 {
        assert(KEYS@[0] == 57);
        assert(voicing_at(tp, 57, 0) == seq![60u8, 67u8, 71u8, 64u8]);
        assert(voicing_at(tp, 57, 1) == seq![65u8, 60u8, 64u8, 69u8]);
        assert(voicing_at(tp, 57, 2) == seq![59u8, 65u8, 69u8, 62u8]);
        assert(voicing_at(tp, 57, 3) == seq![60u8, 67u8, 71u8, 64u8]);
    } else if k == 1 {
        assert(KEYS@[1] == 50);
        assert(voicing_at(tp, 50, 0) == seq![65u8, 60u8, 64u8, 57u8]);
        assert(voicing_at(tp, 50, 1) == seq![58u8, 65u8, 69u8, 62u8]);
        assert(voicing_at(tp, 50, 2) == seq![64u8, 58u8, 62u8, 67u8]);
        assert(voicing_at(tp, 50, 3) == seq![65u8, 60u8, 64u8, 57u8]);
    } else if k == 2 {
        assert(KEYS@[2] == 46);
        assert(voicing_at(tp, 46, 0) == seq![61u8, 68u8, 72u8, 65u8]);
        assert(voicing_at(tp, 46, 1) == seq![66u8, 61u8, 65u8, 70u8]);
        assert(voicing_at(tp, 46, 2) == seq![60u8, 66u8, 70u8, 63u8]);
        assert(voicing_at(tp, 46, 3) == seq![61u8, 68u8, 72u8, 65u8]);
    } else if k == 3 {
        assert(KEYS@[3] == 52);
        assert(voicing_at(tp, 52, 0) == seq![67u8, 62u8, 66u8, 59u8]);
        assert(voicing_at(tp, 52, 1) == seq![60u8, 67u8, 71u8, 64u8]);
        assert(voicing_at(tp, 52, 2) == seq![66u8, 60u8, 64u8, 69u8]);
        assert(voicing_at(tp, 52, 3) == seq![67u8, 62u8, 66u8, 59u8]);
    } else if k == 4 {
        assert(KEYS@[4] == 48);
        assert(voicing_at(tp, 48, 0) == seq![63u8, 70u8, 62u8, 67u8]);
        assert(voicing_at(tp, 48, 1) == seq![68u8, 63u8, 67u8, 60u8]);
        assert(voicing_at(tp, 48, 2) == seq![62u8, 68u8, 72u8, 65u8]);
        assert(voicing_at(tp, 48, 3) == seq![63u8, 70u8, 74u8, 67u8]);
    } else if k == 5 {
        assert(KEYS@[5] == 55);
        assert(voicing_at(tp, 55, 0) == seq![70u8, 65u8, 69u8, 62u8]);
        assert(voicing_at(tp, 55, 1) == seq![63u8, 70u8, 74u8, 67u8]);
        assert(voicing_at(tp, 55, 2) == seq![69u8, 63u8, 67u8, 72u8]);
        assert(voicing_at(tp, 55, 3) == seq![70u8, 65u8, 69u8, 62u8]);
    } else if k == 6 {
        assert(KEYS@[6] == 53);
        assert(voicing_at(tp, 53, 0) == seq![68u8, 63u8, 67u8, 60u8]);
        assert(voicing_at(tp, 53, 1) == seq![61u8, 68u8, 72u8, 65u8]);
        assert(voicing_at(tp, 53, 2) == seq![67u8, 61u8, 65u8, 70u8]);
        assert(voicing_at(tp, 53, 3) == seq![68u8, 63u8, 67u8, 60u8]);
    } else if k == 7 {
        assert(KEYS@[7] == 51);
        assert(voicing_at(tp, 51, 0) == seq![66u8, 61u8, 65u8, 58u8]);
        assert(voicing_at(tp, 51, 1) == seq![59u8, 66u8, 70u8, 63u8]);
        assert(voicing_at(tp, 51, 2) == seq![65u8, 59u8, 63u8, 68u8]);
        assert(voicing_at(tp, 51, 3) == seq![66u8, 61u8, 65u8, 58u8]);
    }
}

/// Template 1's voicings over each key, bar by bar, stay in register.
#[verifier::spinoff_prover]
#[verifier::rlimit(40)]
proof fn lemma_template_1_voiced(k: int)
    requires
        0 <= k < 8,
    ensures
        voiced_in_register(template_spec(1), KEYS@[k]),
{
    let tp = template_spec(1);
    if k == 0 {
        assert(KEYS@[0] == 57);
        assert(voicing_at(tp, 57, 0) == seq![60u8, 67u8, 71u8, 64u8]);
        assert(voicing_at(tp, 57, 1) == seq![69u8, 64u8, 67u8, 60u8]);
        assert(voicing_at(tp, 57, 2) == seq![64u8, 71u8, 74u8, 67u8]);
        assert(voicing_at(tp, 57, 3) == seq![71u8, 65u8, 69u8, 62u8]);
    } else if k == 1 {
        assert(KEYS@[1] == 50);
        assert(voicing_at(tp, 50, 0) == seq![65u8, 60u8, 64u8, 57u8]);
        assert(voicing_at(tp, 50, 1) == seq![62u8, 57u8, 60u8, 65u8]);
        assert(voicing_at(tp, 50, 2) == seq![57u8, 64u8, 67u8, 60u8]);
        assert(voicing_at(tp, 50, 3) == seq![64u8, 58u8, 62u8, 55u8]);
    } else if k == 2 {
        assert(KEYS@[2] == 46);
        assert(voicing_at(tp, 46, 0) == seq![61u8, 68u8, 72u8, 65u8]);
        assert(voicing_at(tp, 46, 1) == seq![70u8, 65u8, 68u8, 61u8]);
        assert(voicing_at(tp, 46, 2) == seq![65u8, 72u8, 75u8, 68u8]);
        assert(voicing_at(tp, 46, 3) == seq![72u8, 66u8, 70u8, 63u8]);
    } else if k == 3 {
        assert(KEYS@[3] == 52);
        assert(voicing_at(tp, 52, 0) == seq![67u8, 62u8, 66u8, 59u8]);
        assert(voicing_at(tp, 52, 1) == seq![64u8, 59u8, 62u8, 67u8]);
        assert(voicing_at(tp, 52, 2) == seq![59u8, 66u8, 69u8, 62u8]);
        assert(voicing_at(tp, 52, 3) == seq![66u8, 60u8, 64u8, 57u8]);
    } else if k == 4 {
        assert(KEYS@[4] == 48);
        assert(voicing_at(tp, 48, 0) == seq![63u8, 70u8, 62u8, 67u8]);
        assert(voicing_at(tp, 48, 1) == seq![60u8, 67u8, 70u8, 63u8]);
        assert(voicing_at(tp, 48, 2) == seq![67u8, 62u8, 65u8, 58u8]);
        assert(voicing_at(tp, 48, 3) == seq![62u8, 68u8, 72u8, 65u8]);
    } else if k == 5 {
        assert(KEYS@[5] == 55);
        assert(voicing_at(tp, 55, 0) == seq![70u8, 65u8, 69u8, 62u8]);
        assert(voicing_at(tp, 55, 1) == seq![67u8, 62u8, 65u8, 70u8]);
        assert(voicing_at(tp, 55, 2) == seq![62u8, 69u8, 72u8, 65u8]);
        assert(voicing_at(tp, 55, 3) == seq![69u8, 63u8, 67u8, 60u8]);
    } else if k == 6 {
        assert(KEYS@[6] == 53);
        assert(voicing_at(tp, 53, 0) == seq![68u8, 63u8, 67u8, 60u8]);
        assert(voicing_at(tp, 53, 1) == seq![65u8, 60u8, 63u8, 68u8]);
        assert(voicing_at(tp, 53, 2) == seq![60u8, 67u8, 70u8, 63u8]);
        assert(voicing_at(tp, 53, 3) == seq![67u8, 61u8, 65u8, 58u8]);
    } else if k == 7 {
        assert(KEYS@[7] == 51);
        assert(voicing_at(tp, 51, 0) == seq![66u8, 61u8, 65u8, 58u8]);
        assert(voicing_at(tp, 51, 1) == seq![63u8, 58u8, 61u8, 66u8]);
        assert(voicing_at(tp, 51, 2) == seq![58u8, 65u8, 68u8, 61u8]);
        assert(voicing_at(tp, 51, 3) == seq![65u8, 59u8, 63u8, 56u8]);
    }
}

/// Template 2's voicings over each key, bar by bar, stay in register.
#[verifier::spinoff_prover]
#[verifier::rlimit(40)]
proof fn lemma_template_2_voiced(k: int)
    requires
        0 <= k < 8,
    ensures
        voiced_in_register(template_spec(2), KEYS@[k]),
{
    let tp = template_spec(2);
    if k == 0 {
        assert(KEYS@[0] == 57);
        assert(voicing_at(tp, 57, 0) == seq![62u8, 69u8, 73u8, 65u8]);
        assert(voicing_at(tp, 57, 1) == seq![68u8, 62u8, 66u8, 71u8]);
        assert(voicing_at(tp, 57, 2) == seq![72u8, 67u8, 71u8, 64u8]);
        assert(voicing_at(tp, 57, 3) == seq![72u8, 67u8, 71u8, 64u8]);
    } else if k == 1 {
        assert(KEYS@[1] == 50);
        assert(voicing_at(tp, 50, 0) == seq![67u8, 62u8, 66u8, 58u8]);
        assert(voicing_at(tp, 50, 1) == seq![61u8, 67u8, 71u8, 64u8]);
        assert(voicing_at(tp, 50, 2) == seq![65u8, 60u8, 64u8, 69u8]);
        assert(voicing_at(tp, 50, 3) == seq![65u8, 60u8, 64u8, 57u8]);
    } else if k == 2 {
        assert(KEYS@[2] == 46);
        assert(voicing_at(tp, 46, 0) == seq![63u8, 70u8, 62u8, 66u8]);
        assert(voicing_at(tp, 46, 1) == seq![69u8, 63u8, 67u8, 60u8]);
        assert(voicing_at(tp, 46, 2) == seq![61u8, 68u8, 72u8, 65u8]);
        assert(voicing_at(tp, 46, 3) == seq![61u8, 68u8, 72u8, 65u8]);
    } else if k == 3 {
        assert(KEYS@[3] == 52);
        assert(voicing_at(tp, 52, 0) == seq![69u8, 64u8, 68u8, 60u8]);
        assert(voicing_at(tp, 52, 1) == seq![63u8, 69u8, 73u8, 66u8]);
        assert(voicing_at(tp, 52, 2) == seq![67u8, 62u8, 66u8, 71u8]);
        assert(voicing_at(tp, 52, 3) == seq![67u8, 62u8, 66u8, 59u8]);
    } else if k == 4 {
        assert(KEYS@[4] == 48);
        assert(voicing_at(tp, 48, 0) == seq![65u8, 60u8, 64u8, 68u8]);
        assert(voicing_at(tp, 48, 1) == seq![59u8, 65u8, 69u8, 62u8]);
        assert(voicing_at(tp, 48, 2) == seq![63u8, 58u8, 62u8, 67u8]);
        assert(voicing_at(tp, 48, 3) == seq![63u8, 58u8, 62u8, 55u8]);
    } else if k == 5 {
        assert(KEYS@[5] == 55);
        assert(voicing_at(tp, 55, 0) == seq![60u8, 67u8, 71u8, 63u8]);
        assert(voicing_at(tp, 55, 1) == seq![66u8, 60u8, 64u8, 69u8]);
        assert(voicing_at(tp, 55, 2) == seq![70u8, 65u8, 69u8, 62u8]);
        assert(voicing_at(tp, 55, 3) == seq![70u8, 65u8, 69u8, 62u8]);
    } else if k == 6 {
        assert(KEYS@[6] == 53);
        assert(voicing_at(tp, 53, 0) == seq![70u8, 65u8, 69u8, 61u8]);
        assert(voicing_at(tp, 53, 1) == seq![64u8, 70u8, 74u8, 67u8]);
        assert(voicing_at(tp, 53, 2) == seq![68u8, 63u8, 67u8, 72u8]);
        assert(voicing_at(tp, 53, 3) == seq![68u8, 63u8, 67u8, 60u8]);
    } else if k == 7 {
        assert(KEYS@[7] == 51);
        assert(voicing_at(tp, 51, 0) == seq![68u8, 63u8, 67u8, 59u8]);
        assert(voicing_at(tp, 51, 1) == seq![62u8, 68u8, 72u8, 65u8]);
        assert(voicing_at(tp, 51, 2) == seq![66u8, 61u8, 65u8, 70u8]);
        assert(voicing_at(tp, 51, 3) == seq![66u8, 61u8, 65u8, 58u8]);
    }
}

/// Template 3's voicings over each key, bar by bar, stay in register.
#[verifier::spinoff_prover]
#[verifier::rlimit(40)]
proof fn lemma_template_3_voiced(k: int)
    requires
        0 <= k < 8,
    ensures
        voiced_in_register(template_spec(3), KEYS@[k]),
{
    let tp = template_spec(3);
    if k == 0 {
        assert(KEYS@[0] == 57);
        assert(voicing_at(tp, 57, 0) == seq![61u8, 68u8, 71u8, 64u8]);
        assert(voicing_at(tp, 57, 1) == seq![69u8, 64u8, 68u8, 61u8]);
        assert(voicing_at(tp, 57, 2) == seq![62u8, 69u8, 73u8, 66u8]);
        assert(voicing_at(tp, 57, 3) == seq![68u8, 62u8, 66u8, 71u8]);
    } else if k == 1 {
        assert(KEYS@[1] == 50);
        assert(voicing_at(tp, 50, 0) == seq![66u8, 61u8, 64u8, 57u8]);
        assert(voicing_at(tp, 50, 1) == seq![62u8, 57u8, 61u8, 66u8]);
        assert(voicing_at(tp, 50, 2) == seq![67u8, 62u8, 66u8, 59u8]);
        assert(voicing_at(tp, 50, 3) == seq![61u8, 67u8, 71u8, 64u8]);
    } else if k == 2 {
        assert(KEYS@[2] == 46);
        assert(voicing_at(tp, 46, 0) == seq![62u8, 69u8, 72u8, 65u8]);
        assert(voicing_at(tp, 46, 1) == seq![70u8, 65u8, 69u8, 62u8]);
        assert(voicing_at(tp, 46, 2) == seq![63u8, 70u8, 74u8, 67u8]);
        assert(voicing_at(tp, 46, 3) == seq![69u8, 63u8, 67u8, 72u8]);
    } else if k == 3 {
        assert(KEYS@[3] == 52);
        assert(voicing_at(tp, 52, 0) == seq![68u8, 63u8, 66u8, 59u8]);
        assert(voicing_at(tp, 52, 1) == seq![64u8, 59u8, 63u8, 68u8]);
        assert(voicing_at(tp, 52, 2) == seq![69u8, 64u8, 68u8, 61u8]);
        assert(voicing_at(tp, 52, 3) == seq![63u8, 69u8, 73u8, 66u8]);
    } else if k == 4 {
        assert(KEYS@[4] == 48);
        assert(voicing_at(tp, 48, 0) == seq![64u8, 59u8, 62u8, 67u8]);
        assert(voicing_at(tp, 48, 1) == seq![60u8, 67u8, 71u8, 64u8]);
        assert(voicing_at(tp, 48, 2) == seq![65u8, 60u8, 64u8, 69u8]);
        assert(voicing_at(tp, 48, 3) == seq![59u8, 65u8, 69u8, 62u8]);
    } else if k == 5 {
        assert(KEYS@[5] == 55);
        assert(voicing_at(tp, 55, 0) == seq![59u8, 66u8, 69u8, 62u8]);
        assert(voicing_at(tp, 55, 1) == seq![67u8, 62u8, 66u8, 59u8]);
        assert(voicing_at(tp, 55, 2) == seq![60u8, 67u8, 71u8, 64u8]);
        assert(voicing_at(tp, 55, 3) == seq![66u8, 60u8, 64u8, 69u8]);
    } else if k == 6 {
        assert(KEYS@[6] == 53);
        assert(voicing_at(tp, 53, 0) == seq![69u8, 64u8, 67u8, 60u8]);
        assert(voicing_at(tp, 53, 1) == seq![65u8, 60u8, 64u8, 69u8]);
        assert(voicing_at(tp, 53, 2) == seq![70u8, 65u8, 69u8, 62u8]);
        assert(voicing_at(tp, 53, 3) == seq![64u8, 70u8, 74u8, 67u8]);
    } else if k == 7 {
        assert(KEYS@[7] == 51);
        assert(voicing_at(tp, 51, 0) == seq![67u8, 62u8, 65u8, 58u8]);
        assert(voicing_at(tp, 51, 1) == seq![63u8, 58u8, 62u8, 67u8]);
        assert(voicing_at(tp, 51, 2) == seq![68u8, 63u8, 67u8, 60u8]);
        assert(voicing_at(tp, 51, 3) == seq![62u8, 68u8, 72u8, 65u8]);
    }
}

/// Template 4's voicings over each key, bar by bar, stay in register.
#[verifier::spinoff_prover]
#[verifier::rlimit(40)]
proof fn lemma_template_4_voiced(k: int)
    requires
        0 <= k < 8,
    ensures
        voiced_in_register(template_spec(4), KEYS@[k]),
{
    let tp = template_spec(4);
    if k == 0 {
        assert(KEYS@[0] == 57);
        assert(voicing_at(tp, 57, 0) == seq![60u8, 67u8, 71u8, 64u8]);
        assert(voicing_at(tp, 57, 1) == seq![65u8, 60u8, 64u8, 69u8]);
        assert(voicing_at(tp, 57, 2) == seq![60u8, 67u8, 71u8, 64u8]);
        assert(voicing_at(tp, 57, 3) == seq![68u8, 62u8, 66u8, 59u8]);
    } else if k == 1 {
        assert(KEYS@[1] == 50);
        assert(voicing_at(tp, 50, 0) == seq![65u8, 60u8, 64u8, 57u8]);
        assert(voicing_at(tp, 50, 1) == seq![58u8, 65u8, 69u8, 62u8]);
        assert(voicing_at(tp, 50, 2) == seq![65u8, 60u8, 64u8, 57u8]);
        assert(voicing_at(tp, 50, 3) == seq![61u8, 67u8, 59u8, 64u8]);
    } else if k == 2 {
        assert(KEYS@[2] == 46);
        assert(voicing_at(tp, 46, 0) == seq![61u8, 68u8, 72u8, 65u8]);
        assert(voicing_at(tp, 46, 1) == seq![66u8, 61u8, 65u8, 70u8]);
        assert(voicing_at(tp, 46, 2) == seq![61u8, 68u8, 72u8, 65u8]);
        assert(voicing_at(tp, 46, 3) == seq![69u8, 63u8, 67u8, 60u8]);
    } else if k == 3 {
        assert(KEYS@[3] == 52);
        assert(voicing_at(tp, 52, 0) == seq![67u8, 62u8, 66u8, 59u8]);
        assert(voicing_at(tp, 52, 1) == seq![60u8, 67u8, 71u8, 64u8]);
        assert(voicing_at(tp, 52, 2) == seq![67u8, 62u8, 66u8, 59u8]);
        assert(voicing_at(tp, 52, 3) == seq![63u8, 69u8, 61u8, 66u8]);
    } else if k == 4 {
        assert(KEYS@[4] == 48);
        assert(voicing_at(tp, 48, 0) == seq![63u8, 70u8, 62u8, 67u8]);
        assert(voicing_at(tp, 48, 1) == seq![68u8, 63u8, 67u8, 60u8]);
        assert(voicing_at(tp, 48, 2) == seq![63u8, 70u8, 62u8, 67u8]);
        assert(voicing_at(tp, 48, 3) == seq![71u8, 65u8, 69u8, 62u8]);
    } else if k == 5 {
        assert(KEYS@[5] == 55);
        assert(voicing_at(tp, 55, 0) == seq![70u8, 65u8, 69u8, 62u8]);
        assert(voicing_at(tp, 55, 1) == seq![63u8, 70u8, 74u8, 67u8]);
        assert(voicing_at(tp, 55, 2) == seq![70u8, 65u8, 69u8, 62u8]);
        assert(voicing_at(tp, 55, 3) == seq![66u8, 72u8, 64u8, 69u8]);
    } else if k == 6 {
        assert(KEYS@[6] == 53);
        assert(voicing_at(tp, 53, 0) == seq![68u8, 63u8, 67u8, 60u8]);
        assert(voicing_at(tp, 53, 1) == seq![61u8, 68u8, 72u8, 65u8]);
        assert(voicing_at(tp, 53, 2) == seq![68u8, 63u8, 67u8, 60u8]);
        assert(voicing_at(tp, 53, 3) == seq![64u8, 70u8, 62u8, 67u8]);
    } else if k == 7 {
        assert(KEYS@[7] == 51);
        assert(voicing_at(tp, 51, 0) == seq![66u8, 61u8, 65u8, 58u8]);
        assert(voicing_at(tp, 51, 1) == seq![59u8, 66u8, 70u8, 63u8]);
        assert(voicing_at(tp, 51, 2) == seq![66u8, 61u8, 65u8, 58u8]);
        assert(voicing_at(tp, 51, 3) == seq![62u8, 68u8, 60u8, 65u8]);
    }
}

/// Template 5's voicings over each key, bar by bar, stay in register.
#[verifier::spinoff_prover]
#[verifier::rlimit(40)]
proof fn lemma_template_5_voiced(k: int)
    requires
        0 <= k < 8,
    ensures
        voiced_in_register(template_spec(5), KEYS@[k]),
{
    let tp = template_spec(5);
    if k == 0 {
        assert(KEYS@[0] == 57);
        assert(voicing_at(tp, 57, 0) == seq![61u8, 68u8, 71u8, 64u8]);
        assert(voicing_at(tp, 57, 1) == seq![66u8, 61u8, 64u8, 69u8]);
        assert(voicing_at(tp, 57, 2) == seq![61u8, 68u8, 71u8, 64u8]);
        assert(voicing_at(tp, 57, 3) == seq![68u8, 62u8, 66u8, 59u8]);
    } else if k == 1 {
        assert(KEYS@[1] == 50);
        assert(voicing_at(tp, 50, 0) == seq![66u8, 61u8, 64u8, 57u8]);
        assert(voicing_at(tp, 50, 1) == seq![59u8, 66u8, 69u8, 62u8]);
        assert(voicing_at(tp, 50, 2) == seq![66u8, 61u8, 64u8, 57u8]);
        assert(voicing_at(tp, 50, 3) == seq![61u8, 67u8, 71u8, 64u8]);
    } else if k == 2 {
        assert(KEYS@[2] == 46);
        assert(voicing_at(tp, 46, 0) == seq![62u8, 69u8, 72u8, 65u8]);
        assert(voicing_at(tp, 46, 1) == seq![67u8, 62u8, 65u8, 70u8]);
        assert(voicing_at(tp, 46, 2) == seq![62u8, 69u8, 72u8, 65u8]);
        assert(voicing_at(tp, 46, 3) == seq![69u8, 63u8, 67u8, 60u8]);
    } else if k == 3 {
        assert(KEYS@[3] == 52);
        assert(voicing_at(tp, 52, 0) == seq![68u8, 63u8, 66u8, 59u8]);
        assert(voicing_at(tp, 52, 1) == seq![61u8, 68u8, 71u8, 64u8]);
        assert(voicing_at(tp, 52, 2) == seq![68u8, 63u8, 66u8, 59u8]);
        assert(voicing_at(tp, 52, 3) == seq![63u8, 69u8, 73u8, 66u8]);
    } else if k == 4 {
        assert(KEYS@[4] == 48);
        assert(voicing_at(tp, 48, 0) == seq![64u8, 59u8, 62u8, 67u8]);
        assert(voicing_at(tp, 48, 1) == seq![69u8, 64u8, 67u8, 60u8]);
        assert(voicing_at(tp, 48, 2) == seq![64u8, 71u8, 74u8, 67u8]);
        assert(voicing_at(tp, 48, 3) == seq![71u8, 65u8, 69u8, 62u8]);
    } else if k == 5 {
        assert(KEYS@[5] == 55);
        assert(voicing_at(tp, 55, 0) == seq![59u8, 66u8, 69u8, 62u8]);
        assert(voicing_at(tp, 55, 1) == seq![64u8, 59u8, 62u8, 67u8]);
        assert(voicing_at(tp, 55, 2) == seq![59u8, 66u8, 69u8, 62u8]);
        assert(voicing_at(tp, 55, 3) == seq![66u8, 60u8, 64u8, 57u8]);
    } else if k == 6 {
        assert(KEYS@[6] == 53);
        assert(voicing_at(tp, 53, 0) == seq![69u8, 64u8, 67u8, 60u8]);
        assert(voicing_at(tp, 53, 1) == seq![62u8, 69u8, 72u8, 65u8]);
        assert(voicing_at(tp, 53, 2) == seq![69u8, 64u8, 67u8, 60u8]);
        assert(voicing_at(tp, 53, 3) == seq![64u8, 70u8, 74u8, 67u8]);
    } else if k == 7 {
        assert(KEYS@[7] == 51);
        assert(voicing_at(tp, 51, 0) == seq![67u8, 62u8, 65u8, 58u8]);
        assert(voicing_at(tp, 51, 1) == seq![60u8, 67u8, 70u8, 63u8]);
        assert(voicing_at(tp, 51, 2) == seq![67u8, 62u8, 65u8, 58u8]);
        assert(voicing_at(tp, 51, 3) == seq![62u8, 68u8, 72u8, 65u8]);
    }
}

/// Each template's voicings over each key stay in register.
proof fn lemma_template_voiced(t: int, k: int)
    requires
        0 <= t < 6,
        0 <= k < 8,
    ensures
        voiced_in_register(template_spec(t), KEYS@[k]),
{
    if t == 0 {
        lemma_template_0_voiced(k);
    } else if t == 1 {
        lemma_template_1_voiced(k);
    } else if t == 2 {
        lemma_template_2_voiced(k);
    } else if t == 3 {
        lemma_template_3_voiced(k);
    } else if t == 4 {
        lemma_template_4_voiced(k);
    } else {
        lemma_template_5_voiced(k);
    }
}

/// Whatever the seed and the bar, negative bars too, the bar's slot is one
/// of the four, repeating every four bars, voiced in the keys register over
/// a bass note in MIDI 28 to 48.
pub proof fn lemma_every_bar_in_register(p: Progression, seed: u64, bar: int)
    requires
        generated_from(p, seed),
    ensures
        0 <= bar % 4 < 4,
        p.slot(bar % 4) == p.slot((bar + 4) % 4),
        in_register(p.slot(bar % 4).voicing.notes@),
        28 <= p.slot(bar % 4).bass <= 48,
{
    lemma_generated_in_register(p, seed);
    assert((bar + 4) % 4 == bar % 4) by (nonlinear_arith);
}

/// Every bar of a generated progression is voiced in the keys register,
/// MIDI 48 to 84, over a bass note in MIDI 28 to 48: whatever the seed.
pub proof fn lemma_generated_in_register(p: Progression, seed: u64)
    requires
        generated_from(p, seed),
    ensures
        forall|i: int| 0 <= i < 4 ==> in_register(#[trigger] p.slot(i).voicing.notes@) && 28 <= p.slot(i).bass <= 48,
{
    let t = (mix32(seed) % 6) as int;
    let k = (mix32(seed ^ 0x9e37_79b9) % 8) as int;
    lemma_template_voiced(t, k);
    let tp = template_of(seed);
    let key = key_of(seed);
    assert forall|i: int| 0 <= i < 4 implies in_register(#[trigger] p.slot(i).voicing.notes@) && 28 <= p.slot(i).bass
        <= 48 by {
        assert(slot_is(p.slot(i), tp, key, i));
        if i == 0 {
            assert(in_register(voicing_at(tp, key, 0)));
        } else if i == 1 {
            assert(in_register(voicing_at(tp, key, 1)));
        } else if i == 2 {
            assert(in_register(voicing_at(tp, key, 2)));
        } else {
            assert(in_register(voicing_at(tp, key, 3)));
        }
    }
}

} // verus!
