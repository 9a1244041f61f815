//! Pitch, chord and scale theory for the procedural composer. Every function
//! here is integer arithmetic on MIDI note numbers, so host and firmware agree.
use crate::arith::{clamp, clamp_i32, div_euclid_i32, rem_euclid_i32};
use vstd::prelude::*;

verus! {

/// The jazz/lofi chord vocabulary. Values are the colour tones we voice; the
/// root is voiced separately by the bass.
#[derive(Clone, Copy, Debug, PartialEq, Eq, Structural)]
pub enum ChordQuality {
    Maj7,
    Maj9,
    Maj69,
    Min7,
    Min9,
    Min11,
    Dom7,
    Dom9,
    HalfDim7,
}

/// Semitones of the third above the root: minor for the minor family.
pub open spec fn third_of(q: ChordQuality) -> i32 {
    match q {
        ChordQuality::Min7 | ChordQuality::Min9 | ChordQuality::Min11 | ChordQuality::HalfDim7 => 3,
        _ => 4,
    }
}

/// Semitones of the fifth: diminished only for the half-diminished chord.
pub open spec fn fifth_of(q: ChordQuality) -> i32 {
    match q {
        ChordQuality::HalfDim7 => 6,
        _ => 7,
    }
}

/// Semitones of the seventh: major for the major family, minor otherwise.
pub open spec fn seventh_of(q: ChordQuality) -> i32 {
    match q {
        ChordQuality::Maj7 | ChordQuality::Maj9 | ChordQuality::Maj69 => 11,
        _ => 10,
    }
}

/// Semitones of the extension on top: the 6 of a 6/9 chord, else the 9.
pub open spec fn extension_of(q: ChordQuality) -> i32 {
    match q {
        ChordQuality::Maj69 => 9,
        _ => 14,
    }
}

impl ChordQuality {
    /// Semitone of the third above the root (minor 3 or major 3).
    pub fn third(self) -> (r: i32)
        ensures
            r == third_of(self),
    {
        match self {
            ChordQuality::Min7 | ChordQuality::Min9 | ChordQuality::Min11 | ChordQuality::HalfDim7 => 3,
            _ => 4,
        }
    }

    /// Semitone of the fifth (diminished or perfect).
    pub fn fifth(self) -> (r: i32)
        ensures
            r == fifth_of(self),
    {
        match self {
            ChordQuality::HalfDim7 => 6,
            _ => 7,
        }
    }

    /// Semitone of the seventh (minor 7 or major 7).
    pub fn seventh(self) -> (r: i32)
        ensures
            r == seventh_of(self),
    {
        match self {
            ChordQuality::Maj7 | ChordQuality::Maj9 | ChordQuality::Maj69 => 11,
            _ => 10,
        }
    }

    /// Semitone of the extension we like on top (9th, or 6th for 6/9 chords).
    pub fn extension(self) -> (r: i32)
        ensures
            r == extension_of(self),
    {
        match self {
            ChordQuality::Maj69 => 9,
            _ => 14,
        }
    }
}

/// A chord: root MIDI note and quality.
#[derive(Clone, Copy, Debug, PartialEq, Eq, Structural)]
pub struct Chord {
    pub root: u8,
    pub quality: ChordQuality,
}

/// Four voiced MIDI notes (the colour tones, octave-placed).
#[derive(Clone, Copy, Debug, PartialEq, Eq)]
pub struct Voicing {
    pub notes: [u8; 4],
}

impl Voicing {
    /// The voiced notes, in voicing order.
    pub fn iter(&self) -> (r: [u8; 4])
        ensures
            r@ == self.notes@,
    {
        self.notes
    }
}

/// The note of pitch class `pc` nearest `center` (ties go up), before the
/// MIDI range clamp.
pub open spec fn spec_place(pc: int, center: int) -> int {
    let class = pc % 12;
    class + 12 * ((center - class + 6) / 12)
}

/// `place_near` computes its intermediate values without overflow.
pub open spec fn place_fits(pc: i32, center: i32) -> bool {
    let class = pc as int % 12;
    let t = center - class + 6;
    &&& i32::MIN <= t
    &&& t <= i32::MAX
    &&& i32::MIN <= 12 * (t / 12)
    &&& class + 12 * (t / 12) <= i32::MAX
}

/// The placed note as a MIDI number.
pub open spec fn placed(pc: int, center: int) -> u8 {
    clamp(spec_place(pc, center), 0, 127) as u8
}

/// The MIDI note with the same pitch class as `pc` placed nearest `center`.
pub fn place_near(pc: i32, center: i32) -> (r: u8)
    requires
        place_fits(pc, center),
    ensures
        r == placed(pc as int, center as int),
{
    let class = rem_euclid_i32(pc, 12);
    let k = div_euclid_i32(center - class + 6, 12);
    clamp_i32(class + 12 * k, 0, 127) as u8
}

/// Placing a pitch class keeps it and lands within a tritone of the center:
/// between five below and six above.
pub proof fn lemma_place_near_center(pc: int, center: int)
    ensures
        spec_place(pc, center) % 12 == pc % 12,
        center - 5 <= spec_place(pc, center) <= center + 6,
{
    let class = pc % 12;
    let t = center - class + 6;
    let k = t / 12;
    assert(12 * k <= t < 12 * k + 12) by (nonlinear_arith)
        requires
            k == t / 12,
    ;
    assert((class + 12 * k) % 12 == class) by (nonlinear_arith)
        requires
            0 <= class < 12,
    ;
}

/// Small pitches and centers never overflow a placement.
pub proof fn lemma_place_fits(pc: i32, center: i32)
    requires
        -100_000 <= pc <= 100_000,
        -100_000 <= center <= 100_000,
    ensures
        place_fits(pc, center),
{
    let class = pc as int % 12;
    let t = center - class + 6;
    assert(12 * (t / 12) <= t && 12 * (t / 12) > t - 12) by (nonlinear_arith);
}

/// The colour tones of `c` voiced around `center`: third and seventh at the
/// center, the extension a little above, the fifth a little below.
pub open spec fn spec_voicing(c: Chord, center: int) -> Seq<u8> {
    let r = c.root as int;
    let q = c.quality;
    seq![
        placed(r + third_of(q), center),
        placed(r + seventh_of(q), center),
        placed(r + extension_of(q), center + 3),
        placed(r + fifth_of(q), center - 2),
    ]
}

/// Voicing around `center` computes without overflow.
pub open spec fn voicing_fits(c: Chord, center: i32) -> bool {
    let r = c.root as i32;
    let q = c.quality;
    &&& center + 3 <= i32::MAX
    &&& i32::MIN <= center - 2
    &&& place_fits((r + third_of(q)) as i32, center)
    &&& place_fits((r + seventh_of(q)) as i32, center)
    &&& place_fits((r + extension_of(q)) as i32, (center + 3) as i32)
    &&& place_fits((r + fifth_of(q)) as i32, (center - 2) as i32)
}

/// The average of four notes, rounded down.
pub open spec fn spec_center(notes: Seq<u8>) -> int {
    (notes[0] + notes[1] + notes[2] + notes[3]) / 4
}

impl Chord {
    /// Voice the colour tones (3rd, 7th, extension, 5th) close to `center`, for
    /// smooth voice leading. The caller threads `center` between chords.
    pub fn voicing(self, center: i32) -> (v: Voicing)
        requires
            voicing_fits(self, center),
        ensures
            v.notes@ == spec_voicing(self, center as int),
    {
        let r = self.root as i32;
        let q = self.quality;
        let notes = [
            place_near(r + q.third(), center),
            place_near(r + q.seventh(), center),
            place_near(r + q.extension(), center + 3),
            place_near(r + q.fifth(), center - 2),
        ];
        let v = Voicing { notes };
        assert(v.notes@ == spec_voicing(self, center as int));
        v
    }

    /// Average of a voicing's notes, used as the next chord's target center.
    pub fn center_of(voicing: &Voicing) -> (r: i32)
        ensures
            r == spec_center(voicing.notes@),
            0 <= r <= 255,
    {
        let n = voicing.notes;
        let sum: i32 = n[0] as i32 + n[1] as i32 + n[2] as i32 + n[3] as i32;
        sum / 4
    }

    /// Voice this chord around the center of the previous voicing.
    pub fn voicing_near(self, previous: &Voicing) -> (v: Voicing)
        ensures
            v.notes@ == spec_voicing(self, spec_center(previous.notes@)),
    {
        let center = Chord::center_of(previous);
        proof {
            lemma_voicing_fits(self, center);
        }
        self.voicing(center)
    }
}

/// Every chord can be voiced around a center in the MIDI range and well beyond.
pub proof fn lemma_voicing_fits(c: Chord, center: i32)
    requires
        -10_000 <= center <= 10_000,
    ensures
        voicing_fits(c, center),
{
    let r = c.root as i32;
    let q = c.quality;
    lemma_place_fits((r + third_of(q)) as i32, center);
    lemma_place_fits((r + seventh_of(q)) as i32, center);
    lemma_place_fits((r + extension_of(q)) as i32, (center + 3) as i32);
    lemma_place_fits((r + fifth_of(q)) as i32, (center - 2) as i32);
}

/// A voicing lands near its center: every tone keeps its pitch class, and as
/// long as the placements stay in the MIDI range the four notes lie between
/// seven below and nine above the center.
pub proof fn lemma_voicing_near_center(c: Chord, center: int)
    requires
        7 <= center <= 118,
    ensures
        forall|i: int| 0 <= i < 4 ==> center - 7 <= #[trigger] spec_voicing(c, center)[i] <= center + 9,
{
    let r = c.root as int;
    let q = c.quality;
    lemma_place_near_center(r + third_of(q), center);
    lemma_place_near_center(r + seventh_of(q), center);
    lemma_place_near_center(r + extension_of(q), center + 3);
    lemma_place_near_center(r + fifth_of(q), center - 2);
}

/// Minor/Dorian scale degrees (semitones) used for bass passing tones and leads.
pub const DORIAN: [i32; 7] = [0, 2, 3, 5, 7, 9, 10];

/// The least of the first `n` scale degrees at or above `rel`, if any.
pub open spec fn degree_up(scale: Seq<i32>, rel: int, n: nat) -> Option<i32>
    decreases n,
{
    if n == 0 {
        None
    } else {
        let prev = degree_up(scale, rel, (n - 1) as nat);
        let deg = scale[n - 1];
        if deg >= rel && (prev is None || deg < prev->0) {
            Some(deg)
        } else {
            prev
        }
    }
}

/// The least of the first `n` scale degrees (the first degree when `n` is
/// at most one).
pub open spec fn lowest_degree(scale: Seq<i32>, n: nat) -> i32
    decreases n,
{
    if n <= 1 {
        scale[0]
    } else {
        let prev = lowest_degree(scale, (n - 1) as nat);
        if scale[n - 1] < prev {
            scale[n - 1]
        } else {
            prev
        }
    }
}

/// The degree the snap lands on, counted from the note's octave above the
/// key root: the least degree at or above the note's place in its octave,
/// or else the lowest degree of the next octave.
pub open spec fn snap_offset(scale: Seq<i32>, rel: int) -> int {
    match degree_up(scale, rel, scale.len()) {
        Some(deg) => deg as int,
        None => 12 + lowest_degree(scale, scale.len()),
    }
}

/// `snap_to_scale` computes without overflow.
pub open spec fn snap_fits(note: i32, key_root: i32, scale: Seq<i32>) -> bool {
    let d = note - key_root;
    let base = key_root + 12 * (d / 12);
    &&& scale.len() > 0
    &&& i32::MIN <= d <= i32::MAX
    &&& i32::MIN <= 12 * (d / 12)
    &&& i32::MIN <= base <= i32::MAX
    &&& i32::MIN <= snap_offset(scale, d % 12) <= i32::MAX
    &&& i32::MIN <= base + snap_offset(scale, d % 12) <= i32::MAX
}

/// The note snapped up to the scale: in the note's octave above the key
/// root, the least degree at or above it, else the next octave's lowest.
pub open spec fn spec_snap(note: i32, key_root: i32, scale: Seq<i32>) -> int {
    let d = note - key_root;
    key_root + 12 * (d / 12) + snap_offset(scale, d % 12)
}

/// The scale tone `deg` semitones above the key root's `m`-th octave.
pub open spec fn tone_at(key_root: int, m: int, deg: int) -> int {
    key_root + 12 * m + deg
}

proof fn lemma_degree_up(scale: Seq<i32>, rel: int, n: nat)
    requires
        n <= scale.len(),
    ensures
        degree_up(scale, rel, n) matches Some(u) ==> u >= rel && exists|j: int| 0 <= j < n && scale[j] == u,
        degree_up(scale, rel, n) matches Some(u) ==> forall|j: int| 0 <= j < n && scale[j] >= rel ==> u <= scale[j],
        degree_up(scale, rel, n) is None ==> forall|j: int| 0 <= j < n ==> scale[j] < rel,
    decreases n,
{
    if n > 0 {
        lemma_degree_up(scale, rel, (n - 1) as nat);
    }
}

proof fn lemma_lowest_degree(scale: Seq<i32>, n: nat)
    requires
        1 <= n <= scale.len(),
    ensures
        exists|j: int| 0 <= j < n && scale[j] == lowest_degree(scale, n),
        forall|j: int| 0 <= j < n ==> lowest_degree(scale, n) <= scale[j],
    decreases n,
{
    if n > 1 {
        lemma_lowest_degree(scale, (n - 1) as nat);
        if scale[n - 1] < lowest_degree(scale, (n - 1) as nat) {
            assert(scale[n - 1] == lowest_degree(scale, n));
        }
    } else {
        assert(scale[0] == lowest_degree(scale, n));
    }
}

/// The snap lands on a degree of the scale, in the note's octave or the next.
pub proof fn lemma_snap_on_degree(note: i32, key_root: i32, scale: Seq<i32>)
    requires
        scale.len() > 0,
    ensures
        exists|j: int, m: int|
            0 <= j < scale.len() && (m == (note - key_root) / 12 || m == (note - key_root) / 12 + 1) && spec_snap(
                note,
                key_root,
                scale,
            ) == #[trigger] tone_at(key_root as int, m, scale[j] as int),
{
    let d = note - key_root;
    lemma_degree_up(scale, d % 12, scale.len());
    lemma_lowest_degree(scale, scale.len());
    let q = d / 12;
    match degree_up(scale, d % 12, scale.len()) {
        Some(u) => {
            let j = choose|j: int| 0 <= j < scale.len() && scale[j] == u;
            assert(spec_snap(note, key_root, scale) == tone_at(key_root as int, q, scale[j] as int));
        },
        None => {
            let j = choose|j: int| 0 <= j < scale.len() && scale[j] == lowest_degree(scale, scale.len());
            assert(spec_snap(note, key_root, scale) == tone_at(key_root as int, q + 1, scale[j] as int));
        },
    }
}

/// Snapping goes up to the next scale tone: for a scale of degrees inside
/// the octave, the snapped note is a scale tone at or above the note, and no
/// scale tone lies at or above the note and below it.
pub proof fn lemma_snap_is_next_tone_up(note: i32, key_root: i32, scale: Seq<i32>)
    requires
        scale.len() > 0,
        forall|i: int| 0 <= i < scale.len() ==> 0 <= #[trigger] scale[i] < 12,
    ensures
        spec_snap(note, key_root, scale) >= note,
        exists|j: int| 0 <= j < scale.len() && (spec_snap(note, key_root, scale) - key_root) % 12 == scale[j],
        forall|k: int, j: int|
            0 <= j < scale.len() && #[trigger] tone_at(key_root as int, k, scale[j] as int) >= note ==> spec_snap(
                note,
                key_root,
                scale,
            ) <= tone_at(key_root as int, k, scale[j] as int),
{
    let d = note - key_root;
    let q = d / 12;
    let rel = d % 12;
    lemma_degree_up(scale, rel, scale.len());
    lemma_lowest_degree(scale, scale.len());
    lemma_snap_on_degree(note, key_root, scale);
    let (j0, m0) = choose|j: int, m: int|
        0 <= j < scale.len() && (m == q || m == q + 1) && spec_snap(note, key_root, scale) == #[trigger] tone_at(
            key_root as int,
            m,
            scale[j] as int,
        );
    assert((spec_snap(note, key_root, scale) - key_root) % 12 == scale[j0]) by (nonlinear_arith)
        requires
            spec_snap(note, key_root, scale) - key_root == 12 * m0 + scale[j0],
            0 <= scale[j0] < 12,
    ;
    assert forall|k: int, j: int|
        0 <= j < scale.len() && #[trigger] tone_at(key_root as int, k, scale[j] as int) >= note implies spec_snap(
            note,
            key_root,
            scale,
        ) <= tone_at(key_root as int, k, scale[j] as int) by {
        if k < q {
            assert(12 * k + scale[j] < 12 * q);
        } else if k == q {
            assert(scale[j] >= rel);
        }
    }
}

/// The note snapped up to the scale: the nearest scale tone at or above
/// `note` for the given key root and scale.
pub fn snap_to_scale(note: i32, key_root: i32, scale: &[i32]) -> (r: i32)
    requires
        snap_fits(note, key_root, scale@),
    ensures
        r == spec_snap(note, key_root, scale@),
{
    let rel = rem_euclid_i32(note - key_root, 12);
    let octave = div_euclid_i32(note - key_root, 12);
    let mut up: Option<i32> = None;
    let mut low = scale[0];
    let mut i: usize = 0;
    while i < scale.len()
        invariant
            i <= scale@.len(),
            scale@.len() > 0,
            rel == (note - key_root) % 12,
            up == degree_up(scale@, rel as int, i as nat),
            low == lowest_degree(scale@, if i == 0 { 1 } else { i as nat }),
        decreases scale@.len() - i,
    {
        let deg = scale[i];
        match up {
            Some(u) => {
                if deg >= rel && deg < u {
                    up = Some(deg);
                }
            },
            None => {
                if deg >= rel {
                    up = Some(deg);
                }
            },
        }
        if deg < low {
            low = deg;
        }
        i = i + 1;
    }
    let offset = match up {
        Some(u) => u,
        None => 12 + low,
    };
    key_root + octave * 12 + offset
}

} // verus!
