//! The integer groove synthesiser: drums, bass, chords and an arpeggio drawn
//! straight from transport position, section and seed, one 16-bit sample at a
//! time.
//!
//! Its arithmetic is plain 32- and 64-bit integer arithmetic, which overflows
//! for extreme inputs (a transport of a few milli-BPM puts phases far outside a
//! step). Each voice is therefore specified as an `Option`: `None` exactly
//! where some operation would overflow, and the sample otherwise.
use crate::arith::{clamp, clamp_i32, rem_euclid_i64, sat_sub_i64, saturating_sub_i64, spec_max, trunc_div};
use crate::event::Section;
use crate::hash::{fmix32, mix32};
use crate::transport::Transport;
use crate::Micros;
use vstd::prelude::*;

verus! {

/// Transport ticks per sixteenth step.
pub const TICKS_PER_STEP: i64 = 24;

/// Which layer of the groove to render.
#[derive(Clone, Copy, Debug, PartialEq, Eq, Structural)]
pub enum GroovePart {
    Full,
    Drums,
    Harmony,
    Bass,
    ArpUp,
    ArpDown,
}

#[derive(Clone, Copy, Debug, PartialEq, Eq, Structural)]
pub struct GrooveConfig {
    pub sample_rate: u32,
    pub seed: u64,
    pub part: GroovePart,
}

/// Direction of the arpeggio through the chord.
#[derive(Clone, Copy, Debug, PartialEq, Eq, Structural)]
pub enum ArpDirection {
    Up,
    Down,
}

pub open spec fn in_i32(x: int) -> bool {
    i32::MIN <= x <= i32::MAX
}

pub open spec fn in_i64(x: int) -> bool {
    i64::MIN <= x <= i64::MAX
}

/// The sum of two voices, unless either overflowed or the sum does.
pub open spec fn add_voices(a: Option<i32>, b: Option<i32>) -> Option<i32> {
    match (a, b) {
        (Some(x), Some(y)) => if in_i32(x + y) { Some((x + y) as i32) } else { None },
        _ => None,
    }
}

/// Semitone frequencies (Hz, rounded) from MIDI 48 to 96.
pub const MIDI_TABLE: [u32; 49] = [
    131, 139, 147, 156, 165, 175, 185, 196, 208, 220, 233, 247, 262, 277, 294, 311, 330, 349,
    370, 392, 415, 440, 466, 494, 523, 554, 587, 622, 659, 698, 740, 784, 831, 880, 932, 988,
    1047, 1109, 1175, 1245, 1319, 1397, 1480, 1568, 1661, 1760, 1865, 1976, 2093,
];

/// The note's frequency, the note held to MIDI 48..=96.
pub open spec fn midi_hz(note: u8) -> u32 {
    MIDI_TABLE@[clamp(note as int, 48, 96) - 48]
}

pub fn midi_frequency_hz(note: u8) -> (r: u32)
    ensures
        r == midi_hz(note),
        131 <= r <= 2093,
{
    let clamped: u8 = if note < 48 {
        48
    } else if note > 96 {
        96
    } else {
        note
    };
    let r = MIDI_TABLE[(clamped - 48) as usize];
    assert(forall|i: int| 0 <= i < 49 ==> 131 <= #[trigger] MIDI_TABLE@[i] <= 2093);
    r
}

/// `u32::saturating_add_signed`.
pub open spec fn sat_add_signed(x: u32, d: i32) -> u32 {
    clamp(x + d, 0, u32::MAX as int) as u32
}

pub fn saturating_add_signed(x: u32, d: i32) -> (r: u32)
    ensures
        r == sat_add_signed(x, d),
{
    if d >= 0 {
        x.saturating_add(d as u32)
    } else if (x as i64) + (d as i64) < 0 {
        0
    } else {
        ((x as i64) + (d as i64)) as u32
    }
}

/// The bar's chord (root, third, fifth, minor seventh): the root changes every
/// two bars, the third is minor or major per bar.
pub open spec fn chord_of(seed: u64, bar: u32) -> Seq<u8> {
    let root = crate::generator::ROOTS@[(fmix32(seed ^ ((bar / 2) as u64)) & 7) as int];
    let minor = fmix32(seed ^ 0x9e37_79b9 ^ (bar as u64)) & 1 == 0;
    seq![root, (root + if minor { 3int } else { 4int }) as u8, (root + 7) as u8, (root + 10) as u8]
}

pub fn chord_notes(seed: u64, bar: u32) -> (r: [u8; 4])
    ensures
        r@ == chord_of(seed, bar),
        forall|i: int| 0 <= i < 4 ==> 45 <= #[trigger] r@[i] <= 70,
{
    let h = mix32(seed ^ ((bar / 2) as u64));
    proof {
        assert(h & 7 < 8) by (bit_vector);
    }
    let root = crate::generator::ROOTS[(h & 7) as usize];
    let minor = mix32(seed ^ 0x9e37_79b9 ^ (bar as u64)) & 1 == 0;
    let r = [root, root + if minor {
        3
    } else {
        4
    }, root + 7, root + 10];
    assert(r@ == chord_of(seed, bar));
    r
}

/// A linear decay envelope: `amp` scaled by the share of `total` remaining.
pub open spec fn decay_of(remaining: i64, total: i64, amp: i32) -> i32 {
    trunc_div(spec_max(remaining as int, 0) * amp, spec_max(total as int, 1)) as i32
}

pub fn decay(remaining: i64, total: i64, amp: i32) -> (r: i32)
    ensures
        r == decay_of(remaining, total, amp),
{
    let rem: i64 = if remaining > 0 {
        remaining
    } else {
        0
    };
    let tot: i64 = if total > 1 {
        total
    } else {
        1
    };
    let a = rem as i128;
    let b = amp as i128;
    assert(-0x8000_0000_0000_0000_0000_0000 <= a * b <= 0x8000_0000_0000_0000_0000_0000) by (nonlinear_arith)
        requires
            0 <= a <= 0x7fff_ffff_ffff_ffff,
            -0x8000_0000 <= b <= 0x7fff_ffff,
    ;
    let prod = a * b;
    (prod / (tot as i128)) as i32
}

/// The period in microseconds of a waveform at `freq` (at least 1 Hz).
pub open spec fn period_of(freq: u32) -> int {
    1_000_000int / (if freq < 1 { 1int } else { freq as int })
}

/// A triangle wave at `freq` with peak `amp`.
pub open spec fn tri_of(time: i64, freq: u32, amp: i32) -> Option<i32> {
    let period = period_of(freq);
    if period == 0 {
        None
    } else {
        let p = time as int % period;
        let q = spec_max(period / 4, 1);
        if p < q {
            let a = p * amp;
            let v = -amp + trunc_div(a * 2, q);
            if in_i32(a) && in_i32(a * 2) && amp != i32::MIN && in_i32(v) { Some(v as i32) } else { None }
        } else if p < q * 3 {
            let a = (p - q) * amp;
            let v = amp - trunc_div(a * 2, q * 2);
            if in_i32(a) && in_i32(a * 2) && in_i32(v) { Some(v as i32) } else { None }
        } else {
            let a = (p - q * 3) * amp;
            let v = -amp + trunc_div(a * 2, q);
            if in_i32(a) && in_i32(a * 2) && amp != i32::MIN && in_i32(v) { Some(v as i32) } else { None }
        }
    }
}

fn period_us(freq_hz: u32) -> (r: i64)
    ensures
        r == period_of(freq_hz),
        0 <= r <= 1_000_000,
{
    let f: u32 = if freq_hz < 1 {
        1
    } else {
        freq_hz
    };
    (1_000_000u32 / f) as i64
}

pub fn tri(time_us: Micros, freq_hz: u32, amp: i32) -> (r: Option<i32>)
    ensures
        r == tri_of(time_us, freq_hz, amp),
{
    let period = period_us(freq_hz);
    if period == 0 {
        return None;
    }
    let p = rem_euclid_i64(time_us, period);
    let quarter: i64 = if period / 4 > 1 {
        period / 4
    } else {
        1
    };
    let amp_w = amp as i64;
    proof {
        assert(-0x10_0000_0000_0000 <= p * amp_w <= 0x10_0000_0000_0000) by (nonlinear_arith)
            requires
                0 <= p <= 1_000_000,
                -0x8000_0000 <= amp_w <= 0x7fff_ffff,
        ;
    }
    if p < quarter {
        let a = p * amp_w;
        if !(fits_i32(a) && fits_i32(a * 2) && amp != i32::MIN) {
            return None;
        }
        let v = -amp_w + a * 2 / quarter;
        if fits_i32(v) {
            Some(v as i32)
        } else {
            None
        }
    } else if p < quarter * 3 {
        proof {
            assert(-0x10_0000_0000_0000 <= (p - quarter) * amp_w <= 0x10_0000_0000_0000) by (nonlinear_arith)
                requires
                    0 <= p - quarter <= 1_000_000,
                    -0x8000_0000 <= amp_w <= 0x7fff_ffff,
            ;
        }
        let a = (p - quarter) * amp_w;
        if !(fits_i32(a) && fits_i32(a * 2)) {
            return None;
        }
        let v = amp_w - a * 2 / (quarter * 2);
        if fits_i32(v) {
            Some(v as i32)
        } else {
            None
        }
    } else {
        proof {
            assert(-0x10_0000_0000_0000 <= (p - quarter * 3) * amp_w <= 0x10_0000_0000_0000) by (nonlinear_arith)
                requires
                    0 <= p - quarter * 3 <= 1_000_000,
                    -0x8000_0000 <= amp_w <= 0x7fff_ffff,
            ;
        }
        let a = (p - quarter * 3) * amp_w;
        if !(fits_i32(a) && fits_i32(a * 2) && amp != i32::MIN) {
            return None;
        }
        let v = -amp_w + a * 2 / quarter;
        if fits_i32(v) {
            Some(v as i32)
        } else {
            None
        }
    }
}

/// A square wave at `freq` with peak `amp`.
pub open spec fn square_of(time: i64, freq: u32, amp: i32) -> Option<i32> {
    let period = period_of(freq);
    if period == 0 {
        None
    } else if time as int % period < period / 2 {
        Some(amp)
    } else if amp == i32::MIN {
        None
    } else {
        Some((-amp) as i32)
    }
}

pub fn square(time_us: Micros, freq_hz: u32, amp: i32) -> (r: Option<i32>)
    ensures
        r == square_of(time_us, freq_hz, amp),
{
    let period = period_us(freq_hz);
    if period == 0 {
        None
    } else if rem_euclid_i64(time_us, period) < period / 2 {
        Some(amp)
    } else if amp == i32::MIN {
        None
    } else {
        Some(-amp)
    }
}

/// Seeded white noise, held for one `bucket`, scaled to `amp`.
pub open spec fn noise_of(seed: u64, bucket: i64, amp: i32) -> Option<i32> {
    let raw = fmix32(seed ^ (bucket as u64));
    let v = ((raw & 0xffff) as int - 0x8000) * amp;
    if in_i32(v) { Some(trunc_div(v, 0x8000) as i32) } else { None }
}

pub fn noise_i32(seed: u64, bucket: Micros, amp: i32) -> (r: Option<i32>)
    ensures
        r == noise_of(seed, bucket, amp),
{
    let raw = mix32(seed ^ bucket as u64);
    proof {
        assert(((raw as i32) & 0xffff) as int == (raw & 0xffff) as int) by (bit_vector);
        assert(0 <= (raw & 0xffff) <= 0xffff) by (bit_vector);
    }
    let low = ((raw as i32) & 0xffff) as i64;
    let amp_w = amp as i64;
    proof {
        assert(-0x1_0000_0000_0000 <= (low - 0x8000) * amp_w <= 0x1_0000_0000_0000) by (nonlinear_arith)
            requires
                -0x8000 <= low - 0x8000 <= 0x8000,
                -0x8000_0000 <= amp_w <= 0x7fff_ffff,
        ;
    }
    let v = (low - 0x8000) * amp_w;
    if fits_i32(v) {
        Some((v / 0x8000) as i32)
    } else {
        None
    }
}

/// Whether a value fits in an `i32`.
fn fits_i32(x: i64) -> (r: bool)
    ensures
        r == in_i32(x as int),
{
    i32::MIN as i64 <= x && x <= i32::MAX as i64
}

/// The sum of two voices, unless either overflowed or the sum does.
fn add_voice(a: Option<i32>, b: Option<i32>) -> (r: Option<i32>)
    ensures
        r == add_voices(a, b),
{
    match (a, b) {
        (Some(x), Some(y)) => {
            let sum = x as i64 + y as i64;
            if fits_i32(sum) {
                Some(sum as i32)
            } else {
                None
            }
        },
        _ => None,
    }
}

/// Drop the low bits of a sample: keep `16 - bits` bits' worth of headroom
/// (at most 15 bits dropped).
pub open spec fn crush_shift(bits: u8) -> u32 {
    let s: int = if 16 - bits < 0 { 0 } else { 16 - bits };
    if s > 15 { 15 } else { s as u32 }
}

pub fn bitcrush(sample: i32, bits: u8) -> (r: i32)
    ensures
        r == (sample >> crush_shift(bits)) << crush_shift(bits),
{
    let s = 16u8.saturating_sub(bits);
    let shift: u32 = if s > 15 {
        15
    } else {
        s as u32
    };
    (sample >> shift) << shift
}

/// The kick: a falling triangle sweep over the first 170 ms of its step.
pub open spec fn kick_of(phase: i64) -> Option<i32> {
    if phase > 170_000 {
        Some(0)
    } else if !in_i64(170_000 - phase) {
        None
    } else {
        let env = decay_of((170_000 - phase) as i64, 170_000, 8_500);
        let m = (spec_max(170_000 - phase, 0) as u32) * 70;
        if m > u32::MAX {
            None
        } else {
            tri_of(phase, (48 + m / 170_000) as u32, env)
        }
    }
}

fn kick(phase_us: Micros) -> (r: Option<i32>)
    ensures
        r == kick_of(phase_us),
{
    if phase_us > 170_000 {
        return Some(0);
    }
    if phase_us < 170_000 - i64::MAX {
        return None;
    }
    let rest = 170_000 - phase_us;
    let env = decay(rest, 170_000, 8_500);
    let m: i64 = if rest > 0 {
        rest
    } else {
        0
    };
    let scaled = (m as u32) as u64 * 70;
    if scaled > u32::MAX as u64 {
        return None;
    }
    let freq = 48 + (scaled / 170_000) as u32;
    tri(phase_us, freq, env)
}

/// The snare: seeded noise plus a 185 Hz triangle body over 130 ms.
pub open spec fn snare_of(root: i64, phase: i64, seed: u64) -> Option<i32> {
    if phase > 130_000 {
        Some(0)
    } else if !in_i64(130_000 - phase) {
        None
    } else {
        let env = decay_of((130_000 - phase) as i64, 130_000, 4_800);
        add_voices(
            noise_of(seed, trunc_div(root as int, 54) as i64, env),
            tri_of(phase, 185, trunc_div(env as int, 3) as i32),
        )
    }
}

fn snare(root_time_us: Micros, phase_us: Micros, seed: u64) -> (r: Option<i32>)
    ensures
        r == snare_of(root_time_us, phase_us, seed),
{
    if phase_us > 130_000 {
        return Some(0);
    }
    if phase_us < 130_000 - i64::MAX {
        return None;
    }
    let env = decay(130_000 - phase_us, 130_000, 4_800);
    add_voice(noise_i32(seed, root_time_us / 54, env), tri(phase_us, 185, env / 3))
}

/// The hat: the difference of two noise sources over 42 ms.
pub open spec fn hat_of(root: i64, phase: i64, seed: u64) -> Option<i32> {
    if phase > 42_000 {
        Some(0)
    } else if !in_i64(42_000 - phase) {
        None
    } else {
        let env = decay_of((42_000 - phase) as i64, 42_000, 2_300);
        match (
            noise_of(seed ^ 0x000a_11ce, trunc_div(root as int, 17) as i64, env),
            noise_of(seed ^ 0x5eed, trunc_div(root as int, 31) as i64, env),
        ) {
            (Some(a), Some(b)) => if in_i32(a - b) { Some(trunc_div(a - b, 2) as i32) } else { None },
            _ => None,
        }
    }
}

fn hat(root_time_us: Micros, phase_us: Micros, seed: u64) -> (r: Option<i32>)
    ensures
        r == hat_of(root_time_us, phase_us, seed),
{
    if phase_us > 42_000 {
        return Some(0);
    }
    if phase_us < 42_000 - i64::MAX {
        return None;
    }
    let env = decay(42_000 - phase_us, 42_000, 2_300);
    match (noise_i32(seed ^ 0x000a_11ce, root_time_us / 17, env), noise_i32(seed ^ 0x5eed, root_time_us / 31, env)) {
        (Some(a), Some(b)) => {
            let d = a as i64 - b as i64;
            if fits_i32(d) {
                Some((d / 2) as i32)
            } else {
                None
            }
        },
        _ => None,
    }
}

/// The drum layer: kick on 0, 7 and 10 (and 14 in a drop), snare on the
/// backbeats, hats on the eighths (every sixteenth in a drop), and a
/// half-time snare pickup on the last sixteenth of a drop.
pub open spec fn drums_of(root: i64, step: u8, phase: i64, section: Section, seed: u64) -> Option<i32> {
    let drop = section == Section::Drop;
    let k = if step == 0 || step == 7 || step == 10 || (drop && step == 14) { kick_of(phase) } else { Some(0i32) };
    let s = if step == 4 || step == 12 { snare_of(root, phase, seed) } else { Some(0i32) };
    let h = if step % 2 == 0 || (drop && step % 2 != 0) { hat_of(root, phase, seed) } else { Some(0i32) };
    let p = if step == 15 && drop { snare_of(root, trunc_div(phase as int, 2) as i64, seed ^ 0x51a7) } else { Some(0i32) };
    add_voices(add_voices(add_voices(k, s), h), p)
}

fn drums(root_time_us: Micros, step: u8, phase_us: Micros, section: Section, seed: u64) -> (r: Option<i32>)
    ensures
        r == drums_of(root_time_us, step, phase_us, section, seed),
{
    let drop = section == Section::Drop;
    let k = if step == 0 || step == 7 || step == 10 || (drop && step == 14) {
        kick(phase_us)
    } else {
        Some(0)
    };
    let s = if step == 4 || step == 12 {
        snare(root_time_us, phase_us, seed)
    } else {
        Some(0)
    };
    let h = if step % 2 == 0 || (drop && step % 2 != 0) {
        hat(root_time_us, phase_us, seed)
    } else {
        Some(0)
    };
    let p = if step == 15 && drop {
        snare(root_time_us, phase_us / 2, seed ^ 0x51a7)
    } else {
        Some(0)
    };
    add_voice(add_voice(add_voice(k, s), h), p)
}

/// The bass note of a step, if the step plays one: the root on 0 and 1, the
/// fifth on 6 and 7, the third on 10 and the seventh on 14 in a drop, all an
/// octave down.
pub open spec fn bass_note_of(step: u8, chord: Seq<u8>, section: Section) -> Option<u8> {
    if step == 0 || step == 1 {
        Some((chord[0] - 12) as u8)
    } else if step == 6 || step == 7 {
        Some((chord[2] - 12) as u8)
    } else if step == 10 {
        Some((chord[1] - 12) as u8)
    } else if step == 14 && section == Section::Drop {
        Some((chord[3] - 12) as u8)
    } else {
        None
    }
}

/// The bass plays the bar's chord an octave down and only its tones: over
/// the groove's own chord for a seed and bar, the first two steps of the
/// bar sound the chord's root (its lowest tone, a fifth below its fifth)
/// twelve semitones lower, and any bass note is one of the chord's tones
/// twelve semitones lower.
pub proof fn lemma_bass_is_the_chord_an_octave_down(seed: u64, bar: u32, step: u8, section: Section)
    ensures
        ({
            let c = chord_of(seed, bar);
            &&& bass_note_of(step, c, section) matches Some(n) ==> exists|i: int| 0 <= i < 4 && n + 12 == #[trigger] c[i]
            &&& (step == 0 || step == 1) ==> (bass_note_of(step, c, section) matches Some(n) && n + 12 == c[0]
                && n + 19 == c[2] && n + 12 < c[1] && n % 12 == c[0] % 12)
        }),
{
    let c = chord_of(seed, bar);
    let h = fmix32(seed ^ ((bar / 2) as u64));
    assert(h & 7 < 8) by (bit_vector);
    assert(forall|i: int| 0 <= i < 8 ==> 45 <= #[trigger] crate::generator::ROOTS@[i] <= 60);
    assert(45 <= c[0] <= 60);
    if let Some(n) = bass_note_of(step, c, section) {
        if step == 0 || step == 1 {
            assert(n + 12 == c[0]);
        } else if step == 6 || step == 7 {
            assert(n + 12 == c[2]);
        } else if step == 10 {
            assert(n + 12 == c[1]);
        } else {
            assert(n + 12 == c[3]);
        }
    }
}

/// Chord notes the voices can build on (every tone well inside a byte).
pub open spec fn chord_ok(chord: Seq<u8>) -> bool {
    &&& chord.len() == 4
    &&& forall|i: int| 0 <= i < 4 ==> 12 <= #[trigger] chord[i] <= 200
}

/// The bass: triangle plus a sub-octave square over 220 ms.
pub open spec fn bass_of(root: i64, step: u8, phase: i64, chord: Seq<u8>, section: Section) -> Option<i32> {
    match bass_note_of(step, chord, section) {
        None => Some(0),
        Some(note) => if phase > 220_000 {
            Some(0)
        } else if !in_i64(220_000 - phase) {
            None
        } else {
            let env = decay_of((220_000 - phase) as i64, 220_000, 3_200);
            let freq = midi_hz(note);
            match add_voices(tri_of(root, freq, env), square_of(root, freq / 2, trunc_div(env as int, 4) as i32)) {
                Some(v) => Some(trunc_div(v as int, 2) as i32),
                None => None,
            }
        },
    }
}

fn bass(root_time_us: Micros, step: u8, phase_us: Micros, chord: [u8; 4], section: Section) -> (r: Option<i32>)
    requires
        chord_ok(chord@),
    ensures
        r == bass_of(root_time_us, step, phase_us, chord@, section),
{
    let note = if step == 0 || step == 1 {
        chord[0] - 12
    } else if step == 6 || step == 7 {
        chord[2] - 12
    } else if step == 10 {
        chord[1] - 12
    } else if step == 14 && section == Section::Drop {
        chord[3] - 12
    } else {
        return Some(0);
    };
    if phase_us > 220_000 {
        return Some(0);
    }
    if phase_us < 220_000 - i64::MAX {
        return None;
    }
    let env = decay(220_000 - phase_us, 220_000, 3_200);
    let freq = midi_frequency_hz(note);
    match add_voice(tri(root_time_us, freq, env), square(root_time_us, freq / 2, env / 4)) {
        Some(v) => Some(v / 2),
        None => None,
    }
}

/// Whether the chord sounds on this step of the section.
pub open spec fn harmony_active(step: u8, section: Section) -> bool {
    match section {
        Section::Intro => step == 8,
        Section::Groove => step == 0 || step == 8,
        Section::Drop => step == 0 || step == 4 || step == 8 || step == 12,
        Section::Breakdown => step == 0,
    }
}

/// The chord voice: the four tones an octave up, slightly detuned by a slow
/// wobble of up to two Hz.
pub open spec fn harmony_of(root: i64, step: u8, phase: i64, chord: Seq<u8>, section: Section) -> Option<i32> {
    if !harmony_active(step, section) || phase > 360_000 {
        Some(0)
    } else if !in_i64(360_000 - phase) {
        None
    } else {
        let env = decay_of((360_000 - phase) as i64, 360_000, 1_700);
        let wobble = (trunc_div(root as int, 120_000) % 5 - 2) as i32;
        let amp = trunc_div(env as int, 5) as i32;
        let tone = |i: int| tri_of(root, sat_add_signed(midi_hz((chord[i] + 12) as u8), wobble), amp);
        match add_voices(add_voices(add_voices(add_voices(Some(0i32), tone(0)), tone(1)), tone(2)), tone(3)) {
            Some(v) => Some(trunc_div(v as int, 2) as i32),
            None => None,
        }
    }
}

fn harmony(root_time_us: Micros, step: u8, phase_us: Micros, chord: [u8; 4], section: Section) -> (r: Option<i32>)
    requires
        chord_ok(chord@),
    ensures
        r == harmony_of(root_time_us, step, phase_us, chord@, section),
{
    let active = match section {
        Section::Intro => step == 8,
        Section::Groove => step == 0 || step == 8,
        Section::Drop => step == 0 || step == 4 || step == 8 || step == 12,
        Section::Breakdown => step == 0,
    };
    if !active || phase_us > 360_000 {
        return Some(0);
    }
    if phase_us < 360_000 - i64::MAX {
        return None;
    }
    let env = decay(360_000 - phase_us, 360_000, 1_700);
    let wobble = (rem_euclid_i64(root_time_us / 120_000, 5) - 2) as i32;
    let amp = env / 5;
    let ghost tone = |i: int| tri_of(root_time_us, sat_add_signed(midi_hz((chord@[i] + 12) as u8), wobble), amp);
    let mut out: Option<i32> = Some(0);
    let mut i: usize = 0;
    while i < 4
        invariant
            i <= 4,
            chord_ok(chord@),
            tone == (|i: int| tri_of(root_time_us, sat_add_signed(midi_hz((chord@[i] + 12) as u8), wobble), amp)),
            out == {
                let t = tone;
                if i == 0 {
                    Some(0i32)
                } else if i == 1 {
                    add_voices(Some(0i32), t(0))
                } else if i == 2 {
                    add_voices(add_voices(Some(0i32), t(0)), t(1))
                } else if i == 3 {
                    add_voices(add_voices(add_voices(Some(0i32), t(0)), t(1)), t(2))
                } else {
                    add_voices(add_voices(add_voices(add_voices(Some(0i32), t(0)), t(1)), t(2)), t(3))
                }
            },
        decreases 4 - i,
    {
        let freq = saturating_add_signed(midi_frequency_hz(chord[i] + 12), wobble);
        out = add_voice(out, tri(root_time_us, freq, amp));
        i = i + 1;
    }
    match out {
        Some(v) => Some(v / 2),
        None => None,
    }
}

/// How long an arpeggio note rings in each section.
pub open spec fn gate_of(section: Section) -> i64 {
    match section {
        Section::Intro => 80_000,
        Section::Groove => 120_000,
        Section::Drop => 170_000,
        Section::Breakdown => 220_000,
    }
}

/// The arpeggio: the chord tone of the step (up or down the chord), an
/// octave up, two in the second half of a drop.
pub open spec fn arp_of(root: i64, step: u8, phase: i64, chord: Seq<u8>, dir: ArpDirection, section: Section) -> Option<i32> {
    let gate = gate_of(section);
    if phase > gate {
        Some(0)
    } else if !in_i64(gate - phase) {
        None
    } else {
        let ix = match dir {
            ArpDirection::Up => (step % 4) as int,
            ArpDirection::Down => 3 - (step % 4) as int,
        };
        let octave: int = if section == Section::Drop && step >= 8 { 24 } else { 12 };
        let env = decay_of((gate - phase) as i64, gate, 1_600);
        tri_of(root, midi_hz((chord[ix] + octave) as u8), env)
    }
}

fn arp(root_time_us: Micros, step: u8, phase_us: Micros, chord: [u8; 4], direction: ArpDirection, section: Section) -> (r: Option<i32>)
    requires
        chord_ok(chord@),
    ensures
        r == arp_of(root_time_us, step, phase_us, chord@, direction, section),
{
    let gate_us: i64 = match section {
        Section::Intro => 80_000,
        Section::Groove => 120_000,
        Section::Drop => 170_000,
        Section::Breakdown => 220_000,
    };
    if phase_us > gate_us {
        return Some(0);
    }
    if phase_us < gate_us - i64::MAX {
        return None;
    }
    let ix = match direction {
        ArpDirection::Up => (step % 4) as usize,
        ArpDirection::Down => (3 - step % 4) as usize,
    };
    let octave: u8 = if section == Section::Drop && step >= 8 {
        24
    } else {
        12
    };
    let env = decay(gate_us - phase_us, gate_us, 1_600);
    tri(root_time_us, midi_frequency_hz(chord[ix] + octave), env)
}

/// Where a sample falls: its sixteenth step in the bar, its bar, and its
/// microseconds into the step.
pub open spec fn position_of(root: i64, t: Transport) -> Option<(u8, u32, i64)> {
    let tick = t.spec_tick_at(root);
    let step = (trunc_div(tick as int, TICKS_PER_STEP as int) % 16) as u8;
    let tick_in_step = tick % TICKS_PER_STEP;
    let bar = spec_max(trunc_div(tick as int, TICKS_PER_STEP * 16), 0) as u32;
    if !in_i64(tick - tick_in_step) {
        None
    } else {
        let start = t.spec_root_time_for_tick((tick - tick_in_step) as i64);
        Some((step, bar, sat_sub_i64(root, start)))
    }
}

/// The unclamped mix of a part at one position.
pub open spec fn mix_of(root: i64, step: u8, phase: i64, chord: Seq<u8>, section: Section, cfg: GrooveConfig) -> Option<i32> {
    match cfg.part {
        GroovePart::Full => add_voices(
            add_voices(
                add_voices(
                    add_voices(Some(0i32), drums_of(root, step, phase, section, cfg.seed)),
                    bass_of(root, step, phase, chord, section),
                ),
                harmony_of(root, step, phase, chord, section),
            ),
            match arp_of(root, step, phase, chord, ArpDirection::Up, section) {
                Some(a) => Some(trunc_div(a as int, 2) as i32),
                None => None,
            },
        ),
        GroovePart::Drums => add_voices(Some(0i32), drums_of(root, step, phase, section, cfg.seed)),
        GroovePart::Harmony => add_voices(Some(0i32), harmony_of(root, step, phase, chord, section)),
        GroovePart::Bass => add_voices(Some(0i32), bass_of(root, step, phase, chord, section)),
        GroovePart::ArpUp => add_voices(Some(0i32), arp_of(root, step, phase, chord, ArpDirection::Up, section)),
        GroovePart::ArpDown => add_voices(Some(0i32), arp_of(root, step, phase, chord, ArpDirection::Down, section)),
    }
}

/// The 16-bit sample at `root_time_us`: the part's mix, crushed to 7 bits of
/// headroom and clamped to the sample range; `None` where the arithmetic
/// overflows.
pub open spec fn groove_sample(root: i64, t: Transport, section: Section, cfg: GrooveConfig) -> Option<i16> {
    match position_of(root, t) {
        None => None,
        Some((step, bar, phase)) => match mix_of(root, step, phase, chord_of(cfg.seed, bar), section, cfg) {
            None => None,
            Some(out) => {
                let crushed = (out >> crush_shift(7)) << crush_shift(7);
                Some(clamp(crushed as int, i16::MIN as int, i16::MAX as int) as i16)
            },
        },
    }
}

/// The 16-bit sample at `root_time_us`, or `None` where its arithmetic
/// overflows.
pub fn try_sample_i16(root_time_us: Micros, transport: Transport, section: Section, cfg: GrooveConfig) -> (r: Option<i16>)
    requires
        transport.wf(),
    ensures
        r == groove_sample(root_time_us, transport, section, cfg),
{
    let tick = transport.tick_at(root_time_us);
    let step = rem_euclid_i64(tick / TICKS_PER_STEP, 16) as u8;
    let tick_in_step = rem_euclid_i64(tick, TICKS_PER_STEP);
    let whole_bars = tick / (TICKS_PER_STEP * 16);
    let bar = (if whole_bars > 0 {
        whole_bars
    } else {
        0
    }) as u32;
    if tick < i64::MIN + tick_in_step {
        return None;
    }
    let step_start_us = transport.root_time_for_tick(tick - tick_in_step);
    let step_phase_us = saturating_sub_i64(root_time_us, step_start_us);
    let chord = chord_notes(cfg.seed, bar);
    assert(chord_ok(chord@));
    let mix = match cfg.part {
        GroovePart::Full => {
            let arp_half = match arp(root_time_us, step, step_phase_us, chord, ArpDirection::Up, section) {
                Some(a) => Some(a / 2),
                None => None,
            };
            add_voice(
                add_voice(
                    add_voice(add_voice(Some(0), drums(root_time_us, step, step_phase_us, section, cfg.seed)), bass(root_time_us, step, step_phase_us, chord, section)),
                    harmony(root_time_us, step, step_phase_us, chord, section),
                ),
                arp_half,
            )
        },
        GroovePart::Drums => add_voice(Some(0), drums(root_time_us, step, step_phase_us, section, cfg.seed)),
        GroovePart::Harmony => add_voice(Some(0), harmony(root_time_us, step, step_phase_us, chord, section)),
        GroovePart::Bass => add_voice(Some(0), bass(root_time_us, step, step_phase_us, chord, section)),
        GroovePart::ArpUp => add_voice(Some(0), arp(root_time_us, step, step_phase_us, chord, ArpDirection::Up, section)),
        GroovePart::ArpDown => add_voice(Some(0), arp(root_time_us, step, step_phase_us, chord, ArpDirection::Down, section)),
    };
    match mix {
        Some(out) => {
            let crushed = bitcrush(out, 7);
            Some(clamp_i32(crushed, -32768, 32767) as i16)
        },
        None => None,
    }
}

/// The 16-bit sample at `root_time_us`, where its arithmetic stays in range.
pub fn sample_i16(root_time_us: Micros, transport: Transport, section: Section, cfg: GrooveConfig) -> (r: i16)
    requires
        transport.wf(),
        groove_sample(root_time_us, transport, section, cfg) is Some,
    ensures
        groove_sample(root_time_us, transport, section, cfg) == Some(r),
{
    match try_sample_i16(root_time_us, transport, section, cfg) {
        Some(v) => v,
        None => 0,
    }
}

} // verus!
