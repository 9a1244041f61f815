//! Reviewed musical content: compact groove signatures and scale-degree
//! motifs distilled from reference performances.
//!
//! The catalogue stores four-bar grids (one bit per sixteenth), motif
//! contours and micro-timing measurements. Lookup is fixed-size and
//! deterministic. The signatures' production measurements (tone, drive,
//! gains) are floating point and live with the audio path.
use crate::arith::{spec_max, spec_min};
use crate::hash::{fmix64, mix};
use vstd::prelude::*;

verus! {

/// One motif note.
#[derive(Clone, Copy, Debug, PartialEq, Eq, Structural)]
pub struct NoteEvent {
    /// Sixteenth-note position in a four-bar phrase (`0..64`).
    pub step: u8,
    /// Diatonic degree relative to the progression tonic; may cross octaves.
    pub degree: i8,
    /// MIDI-like velocity retained as a compact dynamic contour.
    pub velocity: u8,
}

/// A four-bar grid: bit `s` set when sixteenth `s` of the cycle sounds.
#[derive(Clone, Copy, Debug, PartialEq, Eq, Structural)]
pub struct StepPattern {
    bits: u64,
}

/// Whether `step` (taken round the 64-step cycle) is set in `bits`.
pub open spec fn step_set(bits: u64, step: int) -> bool {
    bits & (1u64 << ((step % 64) as u64)) != 0
}

impl StepPattern {
    pub closed spec fn bits(self) -> u64 {
        self.bits
    }

    pub fn new(bits: u64) -> (r: Self)
        ensures
            r.bits() == bits,
    {
        Self { bits }
    }

    pub fn active(self, step: i64) -> (r: bool)
        ensures
            r == step_set(self.bits(), step as int),
    {
        let s = crate::arith::rem_euclid_i64(step, 64);
        self.bits & (1u64 << (s as u64)) != 0
    }
}

/// The grid with the given steps set.
pub open spec fn bits_of(values: Seq<u8>) -> u64
    decreases values.len(),
{
    if values.len() == 0 {
        0
    } else {
        bits_of(values.drop_last()) | (1u64 << (values.last() as u64))
    }
}

/// All steps lie in the 64-step cycle.
pub open spec fn in_cycle(values: Seq<u8>) -> bool {
    forall|i: int| 0 <= i < values.len() ==> #[trigger] values[i] < 64
}

/// A grid from its steps (each below 64).
pub fn steps(values: &[u8]) -> (r: StepPattern)
    requires
        in_cycle(values@),
    ensures
        r.bits() == bits_of(values@),
{
    let mut bits: u64 = 0;
    let mut index: usize = 0;
    while index < values.len()
        invariant
            index <= values@.len(),
            bits == bits_of(values@.subrange(0, index as int)),
            in_cycle(values@),
        decreases values@.len() - index,
    {
        assert(values@.subrange(0, index + 1).drop_last() == values@.subrange(0, index as int));
        bits = bits | (1u64 << (values[index] as u64));
        index = index + 1;
    }
    assert(values@.subrange(0, values@.len() as int) == values@);
    StepPattern::new(bits)
}

/// A step is set in a grid exactly when it is one of the grid's steps.
pub proof fn lemma_bits_of(values: Seq<u8>, k: u8)
    requires
        in_cycle(values),
        k < 64,
    ensures
        (bits_of(values) & (1u64 << (k as u64)) != 0) <==> values.contains(k),
    decreases values.len(),
{
    if values.len() > 0 {
        let rest = values.drop_last();
        let v = values.last();
        assert(in_cycle(rest));
        lemma_bits_of(rest, k);
        let a = bits_of(rest);
        assert(((a | (1u64 << (v as u64))) & (1u64 << (k as u64)) != 0) <==> (a & (1u64 << (k as u64)) != 0 || v
            == k)) by (bit_vector)
            requires
                v < 64,
                k < 64,
        ;
        if values.contains(k) {
            let j = choose|j: int| 0 <= j < values.len() && values[j] == k;
            if j < values.len() - 1 {
                assert(rest[j] == k);
            }
        }
        if rest.contains(k) {
            let j = choose|j: int| 0 <= j < rest.len() && rest[j] == k;
            assert(values[j] == k);
        }
    } else {
        assert(0u64 & (1u64 << (k as u64)) == 0) by (bit_vector);
    }
}

/// Steps of the Floating A motif.
pub const FLOATING_A_STEPS: [u8; 8] = [4, 12, 20, 28, 36, 43, 52, 60];

/// Degrees of the Floating A motif.
pub const FLOATING_A_DEGREES: [i8; 8] = [4, 3, 2, 0, 2, 3, 1, 0];

/// Velocities of the Floating A motif.
pub const FLOATING_A_VELOCITIES: [u8; 8] = [62, 54, 58, 50, 64, 56, 52, 48];

/// Steps of the Windowlight motif.
pub const WINDOWLIGHT_STEPS: [u8; 10] = [1, 14, 15, 17, 24, 31, 33, 36, 41, 47];

/// Degrees of the Windowlight motif.
pub const WINDOWLIGHT_DEGREES: [i8; 10] = [2, 0, 1, 2, 2, 0, 1, 4, 2, 4];

/// Velocities of the Windowlight motif.
pub const WINDOWLIGHT_VELOCITIES: [u8; 10] = [66, 54, 61, 68, 56, 51, 64, 53, 59, 62];

/// Steps of the Polaroid motif.
pub const POLAROID_STEPS: [u8; 9] = [2, 7, 13, 18, 26, 34, 42, 50, 58];

/// Degrees of the Polaroid motif.
pub const POLAROID_DEGREES: [i8; 9] = [1, 5, 4, 3, 4, 3, 2, 1, 0];

/// Velocities of the Polaroid motif.
pub const POLAROID_VELOCITIES: [u8; 9] = [57, 64, 53, 60, 49, 63, 55, 52, 47];

/// Steps of the Last Train motif.
pub const LAST_TRAIN_STEPS: [u8; 9] = [3, 10, 14, 22, 29, 38, 45, 54, 61];

/// Degrees of the Last Train motif.
pub const LAST_TRAIN_DEGREES: [i8; 9] = [4, 3, 2, 1, 2, 4, 3, 1, 0];

/// Velocities of the Last Train motif.
pub const LAST_TRAIN_VELOCITIES: [u8; 9] = [60, 51, 56, 48, 62, 58, 54, 50, 45];

/// Steps of the Blue Hour motif.
pub const BLUE_HOUR_STEPS: [u8; 9] = [5, 9, 17, 25, 30, 37, 46, 55, 62];

/// Degrees of the Blue Hour motif.
pub const BLUE_HOUR_DEGREES: [i8; 9] = [2, 3, 4, 2, 1, 2, 0, -1, 0];

/// Velocities of the Blue Hour motif.
pub const BLUE_HOUR_VELOCITIES: [u8; 9] = [55, 61, 58, 50, 47, 62, 53, 48, 44];

/// Steps of the Soft Focus motif.
pub const SOFT_FOCUS_STEPS: [u8; 9] = [2, 8, 15, 21, 31, 34, 40, 48, 57];

/// Degrees of the Soft Focus motif.
pub const SOFT_FOCUS_DEGREES: [i8; 9] = [0, 2, 1, 4, 3, 2, 4, 3, 1];

/// Velocities of the Soft Focus motif.
pub const SOFT_FOCUS_VELOCITIES: [u8; 9] = [52, 59, 50, 63, 48, 57, 61, 51, 47];

/// Number of motifs.
pub const MOTIF_COUNT: usize = 6;

/// The steps of motif `i` (of six).
pub open spec fn motif_steps(i: int) -> Seq<u8> {
    if i == 0 {
        FLOATING_A_STEPS@
    } else if i == 1 {
        WINDOWLIGHT_STEPS@
    } else if i == 2 {
        POLAROID_STEPS@
    } else if i == 3 {
        LAST_TRAIN_STEPS@
    } else if i == 4 {
        BLUE_HOUR_STEPS@
    } else {
        SOFT_FOCUS_STEPS@
    }
}

/// The degrees of motif `i`.
pub open spec fn motif_degrees(i: int) -> Seq<i8> {
    if i == 0 {
        FLOATING_A_DEGREES@
    } else if i == 1 {
        WINDOWLIGHT_DEGREES@
    } else if i == 2 {
        POLAROID_DEGREES@
    } else if i == 3 {
        LAST_TRAIN_DEGREES@
    } else if i == 4 {
        BLUE_HOUR_DEGREES@
    } else {
        SOFT_FOCUS_DEGREES@
    }
}

/// The velocities of motif `i`.
pub open spec fn motif_velocities(i: int) -> Seq<u8> {
    if i == 0 {
        FLOATING_A_VELOCITIES@
    } else if i == 1 {
        WINDOWLIGHT_VELOCITIES@
    } else if i == 2 {
        POLAROID_VELOCITIES@
    } else if i == 3 {
        LAST_TRAIN_VELOCITIES@
    } else if i == 4 {
        BLUE_HOUR_VELOCITIES@
    } else {
        SOFT_FOCUS_VELOCITIES@
    }
}

/// The notes of motif `i`, in step order.
pub open spec fn motif_events(i: int) -> Seq<NoteEvent> {
    Seq::new(
        motif_steps(i).len(),
        |j: int| NoteEvent { step: motif_steps(i)[j], degree: motif_degrees(i)[j], velocity: motif_velocities(i)[j] },
    )
}

/// A contour of scale-degree notes over four bars, and the grid of its steps.
#[derive(Clone, Debug)]
pub struct Motif {
    pub name: &'static str,
    pub events: Vec<NoteEvent>,
    pattern: StepPattern,
}

/// The first note on `step`, if any.
pub open spec fn first_on(events: Seq<NoteEvent>, step: int) -> Option<NoteEvent>
    decreases events.len(),
{
    if events.len() == 0 {
        None
    } else if events[0].step == step {
        Some(events[0])
    } else {
        first_on(events.drop_first(), step)
    }
}

impl Motif {
    pub closed spec fn pattern_bits(self) -> u64 {
        self.pattern.bits()
    }

    /// The motif's notes.
    pub closed spec fn notes(self) -> Seq<NoteEvent> {
        self.events@
    }

    pub fn active_at(&self, step: i64) -> (r: bool)
        ensures
            r == step_set(self.pattern_bits(), step as int),
    {
        self.pattern.active(step)
    }

    pub fn event_at(&self, step: i64) -> (r: Option<NoteEvent>)
        ensures
            r == first_on(self.notes(), step as int % 64),
    {
        let phase_step = crate::arith::rem_euclid_i64(step, 64) as u8;
        let mut i: usize = 0;
        assert(self.events@.subrange(0, self.events@.len() as int) == self.events@);
        while i < self.events.len()
            invariant
                i <= self.events@.len(),
                phase_step == step as int % 64,
                first_on(self.events@, step as int % 64) == first_on(self.events@.subrange(i as int, self.events@.len() as int), step as int % 64),
            decreases self.events@.len() - i,
        {
            let e = self.events[i];
            let ghost rest = self.events@.subrange(i as int, self.events@.len() as int);
            assert(rest.drop_first() == self.events@.subrange(i + 1, self.events@.len() as int));
            if e.step == phase_step {
                return Some(e);
            }
            i = i + 1;
        }
        None
    }
}

/// The notes of a motif from its columns.
fn events_from(step_list: &[u8], degrees: &[i8], velocities: &[u8]) -> (r: Vec<NoteEvent>)
    requires
        degrees@.len() == step_list@.len(),
        velocities@.len() == step_list@.len(),
    ensures
        r@ == Seq::new(
            step_list@.len(),
            |j: int| NoteEvent { step: step_list@[j], degree: degrees@[j], velocity: velocities@[j] },
        ),
{
    let mut out: Vec<NoteEvent> = Vec::new();
    let mut i: usize = 0;
    while i < step_list.len()
        invariant
            i <= step_list@.len(),
            degrees@.len() == step_list@.len(),
            velocities@.len() == step_list@.len(),
            out@ == Seq::new(
                i as nat,
                |j: int| NoteEvent { step: step_list@[j], degree: degrees@[j], velocity: velocities@[j] },
            ),
        decreases step_list@.len() - i,
    {
        out.push(NoteEvent { step: step_list[i], degree: degrees[i], velocity: velocities[i] });
        i = i + 1;
    }
    out
}

/// Motif `index` (of six; later indices give the last).
pub fn motif(index: usize) -> (r: Motif)
    ensures
        r.notes() == motif_events(if index < 5 { index as int } else { 5 }),
        r.pattern_bits() == bits_of(motif_steps(if index < 5 { index as int } else { 5 })),
{
    proof {
        lemma_motif_tables();
    }
    match index {
        0 => Motif { name: "FLOATING A", events: events_from(&FLOATING_A_STEPS, &FLOATING_A_DEGREES, &FLOATING_A_VELOCITIES), pattern: steps(&FLOATING_A_STEPS) },
        1 => Motif { name: "WINDOWLIGHT", events: events_from(&WINDOWLIGHT_STEPS, &WINDOWLIGHT_DEGREES, &WINDOWLIGHT_VELOCITIES), pattern: steps(&WINDOWLIGHT_STEPS) },
        2 => Motif { name: "POLAROID", events: events_from(&POLAROID_STEPS, &POLAROID_DEGREES, &POLAROID_VELOCITIES), pattern: steps(&POLAROID_STEPS) },
        3 => Motif { name: "LAST TRAIN", events: events_from(&LAST_TRAIN_STEPS, &LAST_TRAIN_DEGREES, &LAST_TRAIN_VELOCITIES), pattern: steps(&LAST_TRAIN_STEPS) },
        4 => Motif { name: "BLUE HOUR", events: events_from(&BLUE_HOUR_STEPS, &BLUE_HOUR_DEGREES, &BLUE_HOUR_VELOCITIES), pattern: steps(&BLUE_HOUR_STEPS) },
        _ => Motif { name: "SOFT FOCUS", events: events_from(&SOFT_FOCUS_STEPS, &SOFT_FOCUS_DEGREES, &SOFT_FOCUS_VELOCITIES), pattern: steps(&SOFT_FOCUS_STEPS) },
    }
}

/// The motif tables: each column has one entry per note and every step lies
/// in the cycle.
proof fn lemma_motif_tables()
    ensures
        forall|i: int|
            0 <= i < 6 ==> #[trigger] motif_degrees(i).len() == motif_steps(i).len() && motif_velocities(i).len()
                == motif_steps(i).len() && in_cycle(motif_steps(i)),
{
    assert forall|i: int| 0 <= i < 6 implies #[trigger] motif_degrees(i).len() == motif_steps(i).len()
        && motif_velocities(i).len() == motif_steps(i).len() && in_cycle(motif_steps(i)) by {
        let s = motif_steps(i);
        assert forall|j: int| 0 <= j < s.len() implies #[trigger] s[j] < 64 by {}
    }
}

pub const FLOATING_KICK: [u8; 12] = [0, 7, 10, 16, 23, 26, 32, 39, 42, 48, 55, 58];
pub const FLOATING_SNARE: [u8; 8] = [4, 12, 20, 28, 36, 44, 52, 60];
pub const FLOATING_HATS: [u8; 22] = [2, 4, 6, 10, 12, 14, 18, 20, 22, 26, 30, 34, 36, 38, 42, 44, 46, 50, 54, 58, 60, 62];
pub const FLOATING_BASS: [u8; 8] = [0, 10, 16, 26, 32, 42, 48, 58];
pub const FLOATING_APPROACH: [u8; 4] = [14, 30, 46, 62];
pub const WINDOWLIGHT_KICK: [u8; 12] = [0, 7, 14, 16, 22, 26, 32, 39, 42, 48, 55, 58];
pub const WINDOWLIGHT_SNARE: [u8; 8] = [4, 12, 20, 28, 36, 44, 52, 60];
pub const WINDOWLIGHT_HATS: [u8; 19] = [2, 6, 8, 10, 14, 18, 22, 24, 26, 30, 34, 38, 40, 42, 46, 50, 54, 58, 62];
pub const WINDOWLIGHT_BASS: [u8; 8] = [0, 7, 16, 23, 32, 39, 48, 55];
pub const WINDOWLIGHT_APPROACH: [u8; 4] = [14, 30, 46, 62];
pub const POLAROID_KICK: [u8; 12] = [0, 6, 8, 16, 22, 24, 32, 38, 40, 48, 54, 56];
pub const POLAROID_SNARE: [u8; 8] = [4, 12, 20, 28, 36, 44, 52, 60];
pub const POLAROID_HATS: [u8; 16] = [2, 6, 10, 14, 18, 22, 26, 30, 34, 38, 42, 46, 50, 54, 58, 62];
pub const POLAROID_BASS: [u8; 8] = [0, 8, 16, 24, 32, 40, 48, 56];
pub const POLAROID_APPROACH: [u8; 4] = [15, 31, 47, 63];

/// The integer measurements of a reference groove: four-bar grids per lane,
/// the motif it favours, each lane's micro-timing pocket, humanisation and
/// swing.
#[derive(Clone, Copy, Debug)]
pub struct GrooveSignature {
    pub name: &'static str,
    pub kick: StepPattern,
    pub snare: StepPattern,
    pub hats: StepPattern,
    pub bass: StepPattern,
    pub bass_approach: StepPattern,
    pub motif: u8,
    pub kick_delay_us: i64,
    pub snare_delay_us: i64,
    pub hat_delay_us: i64,
    pub tonal_delay_us: i64,
    pub humanize_us: i64,
    pub swing_percent: u8,
}

/// Number of signatures.
pub const SIGNATURE_COUNT: u64 = 3;

/// The lane delays and humanisation of signature `i` (of three): kick,
/// snare, hat, tonal, humanise.
pub open spec fn signature_timing(i: int) -> (i64, i64, i64, i64, i64) {
    if i == 0 {
        (4_000, 4_000, 4_000, 4_000, 700)
    } else if i == 1 {
        (7_000, 7_000, 7_000, 7_000, 900)
    } else {
        (6_000, 6_000, 6_000, 6_000, 800)
    }
}

/// Signature `i` agrees with its table entry: timing, motif and swing.
pub open spec fn signature_is(g: GrooveSignature, i: int) -> bool {
    let t = signature_timing(i);
    &&& g.kick_delay_us == t.0
    &&& g.snare_delay_us == t.1
    &&& g.hat_delay_us == t.2
    &&& g.tonal_delay_us == t.3
    &&& g.humanize_us == t.4
    &&& g.motif == i
    &&& g.swing_percent == if i == 0 { 17u8 } else if i == 1 { 20u8 } else { 18u8 }
}

/// Reference signature `index` (of three; later indices give the last):
/// FLOATING (open hats, restrained kick), WINDOWLIGHT (later kick pocket,
/// busier answer), POLAROID (steady three-kick bars, late hats).
pub fn signature(index: u64) -> (r: GrooveSignature)
    ensures
        signature_is(r, if index < 2 { index as int } else { 2 }),
{
    match index {
        0 => GrooveSignature {
            name: "FLOATING",
            kick: steps(&FLOATING_KICK),
            snare: steps(&FLOATING_SNARE),
            hats: steps(&FLOATING_HATS),
            bass: steps(&FLOATING_BASS),
            bass_approach: steps(&FLOATING_APPROACH),
            motif: 0,
            kick_delay_us: 4000,
            snare_delay_us: 4000,
            hat_delay_us: 4000,
            tonal_delay_us: 4000,
            humanize_us: 700,
            swing_percent: 17,
        },
        1 => GrooveSignature {
            name: "WINDOWLIGHT",
            kick: steps(&WINDOWLIGHT_KICK),
            snare: steps(&WINDOWLIGHT_SNARE),
            hats: steps(&WINDOWLIGHT_HATS),
            bass: steps(&WINDOWLIGHT_BASS),
            bass_approach: steps(&WINDOWLIGHT_APPROACH),
            motif: 1,
            kick_delay_us: 7000,
            snare_delay_us: 7000,
            hat_delay_us: 7000,
            tonal_delay_us: 7000,
            humanize_us: 900,
            swing_percent: 20,
        },
        _ => GrooveSignature {
            name: "POLAROID",
            kick: steps(&POLAROID_KICK),
            snare: steps(&POLAROID_SNARE),
            hats: steps(&POLAROID_HATS),
            bass: steps(&POLAROID_BASS),
            bass_approach: steps(&POLAROID_APPROACH),
            motif: 2,
            kick_delay_us: 6000,
            snare_delay_us: 6000,
            hat_delay_us: 6000,
            tonal_delay_us: 6000,
            humanize_us: 800,
            swing_percent: 18,
        },
    }
}

/// The signature a seed selects.
pub open spec fn signature_index(seed: u64) -> int {
    (fmix64(seed ^ 0x7369_676e_6174_7572) % 3) as int
}

pub fn signature_for(seed: u64) -> (r: GrooveSignature)
    ensures
        signature_is(r, signature_index(seed)),
{
    signature(mix(seed ^ 0x7369_676e_6174_7572) % SIGNATURE_COUNT)
}

/// The motif a signature plays under a variation: its own motif shifted by
/// the variation, round the six motifs.
pub fn motif_for(signature: &GrooveSignature, variation: u8) -> (r: Motif)
    ensures
        r.notes() == motif_events((signature.motif as int + variation as int) % 6),
        r.pattern_bits() == bits_of(motif_steps((signature.motif as int + variation as int) % 6)),
{
    motif((signature.motif as usize + variation as usize) % MOTIF_COUNT)
}

/// The largest lane delay minus the smallest.
pub open spec fn delay_spread(g: GrooveSignature) -> int {
    let hi = spec_max(spec_max(g.kick_delay_us as int, g.snare_delay_us as int), spec_max(g.hat_delay_us as int, g.tonal_delay_us as int));
    let lo = spec_min(spec_min(g.kick_delay_us as int, g.snare_delay_us as int), spec_min(g.hat_delay_us as int, g.tonal_delay_us as int));
    hi - lo
}

/// Distributed roles share a tight timing pocket: in every signature the
/// lanes' delays lie within 2 ms of each other and humanisation stays within
/// 1 ms.
pub proof fn lemma_tight_pocket(g: GrooveSignature, i: int)
    requires
        0 <= i < 3,
        signature_is(g, i),
    ensures
        delay_spread(g) <= 2_000,
        g.humanize_us <= 1_000,
{
}

/// Motif content is bounded and ordered: seven to twelve notes, in strictly
/// rising steps inside the cycle, and a step is active in the motif's grid
/// exactly when a note starts there.
pub proof fn lemma_motif_content(i: int, step: int)
    requires
        0 <= i < 6,
    ensures
        7 <= motif_events(i).len() <= 12,
        forall|a: int, b: int| 0 <= a < b < motif_events(i).len() ==> #[trigger] motif_events(i)[a].step < #[trigger] motif_events(i)[b].step,
        forall|a: int| 0 <= a < motif_events(i).len() ==> #[trigger] motif_events(i)[a].step < 64,
        step_set(bits_of(motif_steps(i)), step) <==> first_on(motif_events(i), step % 64) is Some,
{
    lemma_motif_tables();
    let s = motif_steps(i);
    let k = (step % 64) as u8;
    lemma_bits_of(s, k);
    lemma_first_on(motif_events(i), step % 64);
    if s.contains(k) {
        let j = choose|j: int| 0 <= j < s.len() && s[j] == k;
        assert(motif_events(i)[j].step == k);
    }
    if exists|j: int| 0 <= j < motif_events(i).len() && motif_events(i)[j].step == step % 64 {
        let j = choose|j: int| 0 <= j < motif_events(i).len() && motif_events(i)[j].step == step % 64;
        assert(s[j] == k);
    }
}

/// The first note on a step exists exactly when some note starts there.
proof fn lemma_first_on(events: Seq<NoteEvent>, step: int)
    ensures
        first_on(events, step) is Some <==> exists|j: int| 0 <= j < events.len() && events[j].step == step,
    decreases events.len(),
{
    if events.len() > 0 {
        lemma_first_on(events.drop_first(), step);
        if exists|j: int| 0 <= j < events.len() && events[j].step == step {
            let j = choose|j: int| 0 <= j < events.len() && events[j].step == step;
            if j > 0 {
                assert(events.drop_first()[j - 1].step == step);
            }
        }
        if exists|j: int| 0 <= j < events.drop_first().len() && events.drop_first()[j].step == step {
            let j = choose|j: int| 0 <= j < events.drop_first().len() && events.drop_first()[j].step == step;
            assert(events[j + 1].step == step);
        }
    }
}

} // verus!
