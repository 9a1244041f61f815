//! The simple seeded step generator: per bar a seventh chord, per role and
//! sixteenth step an optional note. Everything is a hash of (seed, bar, step).
use crate::hash::{fmix32, mix32};
use vstd::prelude::*;

verus! {

/// The voices the step generator writes for.
#[derive(Clone, Copy, Debug, PartialEq, Eq, Structural)]
pub enum VoiceRole {
    Kick,
    Bass,
    Chord(u8),
    Lead,
    Texture,
}

/// One generated note.
#[derive(Clone, Copy, Debug, PartialEq, Eq, Structural)]
pub struct NoteEvent {
    pub midi_note: u8,
    pub velocity: u8,
    pub gate_ticks: u16,
}

/// A bar's seventh chord, spelled as four MIDI notes.
#[derive(Clone, Copy, Debug, PartialEq, Eq, Structural)]
pub struct BarChord {
    pub root: u8,
    pub third: u8,
    pub fifth: u8,
    pub seventh: u8,
}

/// Chord tone `ix`: root, third, fifth, and the seventh for anything higher.
pub open spec fn degree_of(c: BarChord, ix: int) -> u8 {
    if ix == 0 {
        c.root
    } else if ix == 1 {
        c.third
    } else if ix == 2 {
        c.fifth
    } else {
        c.seventh
    }
}

impl BarChord {
    pub fn degree(self, ix: usize) -> (r: u8)
        ensures
            r == degree_of(self, ix as int),
    {
        match ix {
            0 => self.root,
            1 => self.third,
            2 => self.fifth,
            _ => self.seventh,
        }
    }
}

/// The hash of (seed, bar, step, salt): bar in the high word, step in the
/// second byte, salt in the first, through the finaliser's low 32 bits.
pub open spec fn spec_hash4(seed: u64, bar: u32, step: u8, salt: u8) -> u32 {
    fmix32(seed ^ ((bar as u64) << 32u64) ^ ((step as u64) << 8u64) ^ (salt as u64))
}

pub fn hash4(seed: u64, bar: u32, step: u8, salt: u8) -> (r: u32)
    ensures
        r == spec_hash4(seed, bar, step, salt),
{
    mix32(seed ^ ((bar as u64) << 32u64) ^ ((step as u64) << 8u64) ^ (salt as u64))
}

/// The bar's hash (step and salt zero).
pub open spec fn spec_hash2(seed: u64, bar: u32) -> u32 {
    spec_hash4(seed, bar, 0, 0)
}

pub fn hash2(seed: u64, bar: u32) -> (r: u32)
    ensures
        r == spec_hash2(seed, bar),
{
    hash4(seed, bar, 0, 0)
}

/// A `numerator` in `denominator` chance drawn from the step's hash.
pub open spec fn spec_chance(seed: u64, bar: u32, step: u8, numerator: u32, denominator: u32) -> bool {
    spec_hash4(seed, bar, step, 0) % denominator < numerator
}

pub fn chance(seed: u64, bar: u32, step: u8, numerator: u32, denominator: u32) -> (r: bool)
    requires
        denominator > 0,
    ensures
        r == spec_chance(seed, bar, step, numerator, denominator),
{
    hash4(seed, bar, step, 0) % denominator < numerator
}

/// Roots the bar chords are built on.
pub const ROOTS: [u8; 8] = [45, 48, 50, 52, 53, 55, 57, 60];

/// The bar's chord: a hashed root, minor or major by another hash bit.
pub open spec fn spec_chord_for_bar(seed: u64, bar: u32) -> BarChord {
    let root = ROOTS@[(spec_hash2(seed, bar) & 7) as int];
    let minor = spec_hash2(seed ^ 0x9e37_79b9, bar) & 1 == 0;
    BarChord {
        root,
        third: (root + if minor { 3int } else { 4int }) as u8,
        fifth: (root + 7) as u8,
        seventh: (root + if minor { 10int } else { 11int }) as u8,
    }
}

pub fn chord_for_bar(seed: u64, bar: u32) -> (r: BarChord)
    ensures
        r == spec_chord_for_bar(seed, bar),
{
    let h = hash2(seed, bar);
    proof {
        assert(h & 7 < 8) by (bit_vector);
    }
    let root = ROOTS[(h & 7) as usize];
    let minor = hash2(seed ^ 0x9e37_79b9, bar) & 1 == 0;
    let third = root + if minor {
        3
    } else {
        4
    };
    BarChord { root, third, fifth: root + 7, seventh: root + if minor {
        10
    } else {
        11
    } }
}

/// `u8::saturating_add`.
pub open spec fn sat_add_u8(a: u8, b: u8) -> u8 {
    if a + b > 255 {
        255
    } else {
        (a + b) as u8
    }
}

/// What a role plays on a step of a bar: kick on every beat and sometimes
/// the last sixteenth, bass roots on the beats, chord tones on the two
/// half-bars, an occasional lead tone on off-sixteenths, and a texture tone
/// on the second and fourth beats.
pub open spec fn spec_role_note(seed: u64, bar: u32, step: u8, role: VoiceRole) -> Option<NoteEvent> {
    let chord = spec_chord_for_bar(seed, bar);
    match role {
        VoiceRole::Kick => if step % 4 == 0 || (step == 14 && spec_chance(seed, bar, step, 3, 10)) {
            Some(NoteEvent { midi_note: 36, velocity: 115, gate_ticks: 6 })
        } else {
            None
        },
        VoiceRole::Bass => if step % 4 == 0 {
            Some(NoteEvent { midi_note: chord.root, velocity: 96, gate_ticks: 18 })
        } else {
            None
        },
        VoiceRole::Chord(voice) => if step == 0 || step == 8 {
            Some(NoteEvent { midi_note: sat_add_u8(degree_of(chord, (voice % 4) as int), 12), velocity: 72, gate_ticks: 36 })
        } else {
            None
        },
        VoiceRole::Lead => if step % 2 == 1 && spec_chance(seed, bar, step, 4, 10) {
            Some(
                NoteEvent {
                    midi_note: sat_add_u8(degree_of(chord, (spec_hash4(seed, bar, step, 9) % 4) as int), 24),
                    velocity: 64,
                    gate_ticks: 9,
                },
            )
        } else {
            None
        },
        VoiceRole::Texture => if step == 4 || step == 12 {
            Some(NoteEvent { midi_note: sat_add_u8(degree_of(chord, 2), 24), velocity: 40, gate_ticks: 48 })
        } else {
            None
        },
    }
}

pub fn role_note(seed: u64, bar: u32, step: u8, role: VoiceRole) -> (r: Option<NoteEvent>)
    ensures
        r == spec_role_note(seed, bar, step, role),
{
    let chord = chord_for_bar(seed, bar);
    match role {
        VoiceRole::Kick => {
            if step % 4 == 0 || (step == 14 && chance(seed, bar, step, 3, 10)) {
                Some(NoteEvent { midi_note: 36, velocity: 115, gate_ticks: 6 })
            } else {
                None
            }
        },
        VoiceRole::Bass => {
            if step % 4 == 0 {
                Some(NoteEvent { midi_note: chord.root, velocity: 96, gate_ticks: 18 })
            } else {
                None
            }
        },
        VoiceRole::Chord(voice) => {
            if step == 0 || step == 8 {
                let note = chord.degree((voice as usize) % 4).saturating_add(12);
                Some(NoteEvent { midi_note: note, velocity: 72, gate_ticks: 36 })
            } else {
                None
            }
        },
        VoiceRole::Lead => {
            if step % 2 == 1 && chance(seed, bar, step, 4, 10) {
                let degree = (hash4(seed, bar, step, 9) % 4) as usize;
                Some(NoteEvent { midi_note: chord.degree(degree).saturating_add(24), velocity: 64, gate_ticks: 9 })
            } else {
                None
            }
        },
        VoiceRole::Texture => {
            if step == 4 || step == 12 {
                Some(NoteEvent { midi_note: chord.degree(2).saturating_add(24), velocity: 40, gate_ticks: 48 })
            } else {
                None
            }
        },
    }
}

/// The bass plays the bar chord's root on every beat and is silent between
/// beats: the chord's lowest tone, one of the chord roots, seven semitones
/// below the chord's fifth, and an octave below the first chord voice struck
/// on the bar's downbeat.
pub proof fn lemma_bass_plays_the_root(seed: u64, bar: u32, step: u8)
    ensures
        (spec_role_note(seed, bar, step, VoiceRole::Bass) is Some) == (step % 4 == 0),
        step % 4 == 0 ==> ({
            let c = spec_chord_for_bar(seed, bar);
            let n = spec_role_note(seed, bar, step, VoiceRole::Bass)->0;
            &&& n.midi_note == c.root
            &&& n.velocity == 96 && n.gate_ticks == 18
            &&& ROOTS@.contains(n.midi_note)
            &&& n.midi_note + 7 == c.fifth
            &&& n.midi_note < c.third < c.fifth < c.seventh
            &&& spec_role_note(seed, bar, 0, VoiceRole::Chord(0)) matches Some(k) && k.midi_note == n.midi_note + 12
        }),
{
    let h = spec_hash2(seed, bar);
    assert(h & 7 < 8) by (bit_vector);
    let root = ROOTS@[(h & 7) as int];
    assert(ROOTS@.contains(root));
    assert(forall|i: int| 0 <= i < 8 ==> 45 <= #[trigger] ROOTS@[i] <= 60);
}

/// Every role plays the bar's chord: the kick is MIDI 36 on every beat (and
/// nowhere but the beats and the last sixteenth); a chord voice `v` strikes
/// chord tone `v % 4` an octave up on the two half-bars; the lead, only on
/// off-sixteenths, plays a chord tone two octaves up; the texture sounds
/// the fifth two octaves up on the second and fourth beats.
pub proof fn lemma_roles_play_the_bar_chord(seed: u64, bar: u32, step: u8, voice: u8)
    ensures
        ({
            let c = spec_chord_for_bar(seed, bar);
            let tones = seq![c.root, c.third, c.fifth, c.seventh];
            &&& step % 4 == 0 ==> spec_role_note(seed, bar, step, VoiceRole::Kick) == Some(
                NoteEvent { midi_note: 36, velocity: 115, gate_ticks: 6 },
            )
            &&& spec_role_note(seed, bar, step, VoiceRole::Kick) is Some ==> step % 4 == 0 || step == 14
            &&& (spec_role_note(seed, bar, step, VoiceRole::Chord(voice)) is Some) == (step == 0 || step == 8)
            &&& spec_role_note(seed, bar, step, VoiceRole::Chord(voice)) matches Some(n) ==> n.midi_note == tones[
                (voice % 4) as int] + 12 && n.velocity == 72 && n.gate_ticks == 36
            &&& spec_role_note(seed, bar, step, VoiceRole::Lead) matches Some(n) ==> step % 2 == 1 && n.velocity == 64
                && exists|i: int| 0 <= i < 4 && n.midi_note == #[trigger] tones[i] + 24
            &&& (spec_role_note(seed, bar, step, VoiceRole::Texture) is Some) == (step == 4 || step == 12)
            &&& spec_role_note(seed, bar, step, VoiceRole::Texture) matches Some(n) ==> n.midi_note == c.root + 31
        }),
{
    let h = spec_hash2(seed, bar);
    assert(h & 7 < 8) by (bit_vector);
    assert(forall|i: int| 0 <= i < 8 ==> 45 <= #[trigger] ROOTS@[i] <= 60);
    let c = spec_chord_for_bar(seed, bar);
    let tones = seq![c.root, c.third, c.fifth, c.seventh];
    if let Some(n) = spec_role_note(seed, bar, step, VoiceRole::Lead) {
        let ix = (spec_hash4(seed, bar, step, 9) % 4) as int;
        assert(n.midi_note == tones[ix] + 24);
    }
}

} // verus!
