//! Flash-resident mu-law samples.
//!
//! Samples are mono, headerless G.711 mu-law at a declared source rate: one
//! byte per source frame, with quiet tails better preserved than by linear
//! 8-bit PCM. The gain is kept as the catalogue stores it, a Q15 fraction.
use vstd::arithmetic::power2::pow2;
use vstd::prelude::*;

verus! {

/// A mu-law sample: its bytes, source rate and Q15 gain.
#[derive(Clone, Copy, Debug)]
pub struct Sample {
    data: &'static [u8],
    sample_rate: u32,
    gain_q15: u16,
}

impl Sample {
    pub closed spec fn bytes(self) -> Seq<u8> {
        self.data@
    }

    pub closed spec fn rate(self) -> u32 {
        self.sample_rate
    }

    pub closed spec fn gain(self) -> u16 {
        self.gain_q15
    }

    pub fn mulaw(data: &'static [u8], sample_rate: u32, gain_q15: u16) -> (r: Self)
        ensures
            r.bytes() == data@,
            r.rate() == sample_rate,
            r.gain() == gain_q15,
    {
        Self { data, sample_rate, gain_q15 }
    }

    pub fn len(&self) -> (r: usize)
        ensures
            r == self.bytes().len(),
    {
        self.data.len()
    }

    pub fn is_empty(&self) -> (r: bool)
        ensures
            r == (self.bytes().len() == 0),
    {
        self.data.len() == 0
    }

    pub fn sample_rate(&self) -> (r: u32)
        ensures
            r == self.rate(),
    {
        self.sample_rate
    }

    /// The gain as a Q15 fraction (32768 is unity).
    pub fn gain_q15(&self) -> (r: u16)
        ensures
            r == self.gain(),
    {
        self.gain_q15
    }

    /// The mu-law bytes.
    pub fn data(&self) -> (r: &'static [u8])
        ensures
            r@ == self.bytes(),
    {
        self.data
    }
}

/// The 16-bit PCM value a mu-law byte stands for.
pub open spec fn mulaw_pcm(encoded: u8) -> int {
    let code = !encoded;
    let exponent = (code >> 4u8) & 7;
    let mantissa = code & 0x0f;
    let magnitude = ((mantissa as int) * 8 + 0x84) * pow2(exponent as nat) - 0x84;
    if code & 0x80 != 0 { -magnitude } else { magnitude }
}

pub fn decode_mulaw(encoded: u8) -> (r: i32)
    ensures
        r == mulaw_pcm(encoded),
        -32_124 <= r <= 32_124,
{
    let code = !encoded;
    let exponent = ((code >> 4u8) & 0x07) as u32;
    let mantissa = (code & 0x0f) as u32;
    proof {
        assert(exponent <= 7 && mantissa <= 15) by (bit_vector)
            requires
                exponent == ((code >> 4u8) & 0x07) as u32,
                mantissa == (code & 0x0f) as u32,
        ;
        vstd::arithmetic::power2::lemma2_to64();
        assert(pow2(exponent as nat) <= 128);
        let base = (mantissa * 8 + 0x84) as u32;
        assert(base * pow2(exponent as nat) <= 252 * 128) by (nonlinear_arith)
            requires
                base <= 252,
                pow2(exponent as nat) <= 128,
        ;
        vstd::bits::lemma_u32_shl_is_mul(base, exponent);
    }
    let magnitude = (((mantissa * 8 + 0x84) << exponent) as i32) - 0x84;
    if code & 0x80 != 0 {
        -magnitude
    } else {
        magnitude
    }
}

/// The mu-law exponent of a biased magnitude: the highest of bits 14 down to
/// 8 that is set (counted as 7 down to 1), else 0.
pub open spec fn mulaw_exponent(magnitude: i32, e: u8) -> u8
    decreases e,
{
    if e > 0 && magnitude & (0x80i32 << e) == 0 {
        mulaw_exponent(magnitude, (e - 1) as u8)
    } else {
        e
    }
}

/// The mu-law byte of a 16-bit PCM value: sign, exponent and the four bits
/// below the leading one of the biased, clipped magnitude, all inverted.
pub open spec fn mulaw_code(pcm: i16) -> u8 {
    let negative = pcm < 0;
    let sign: u8 = if negative { 0x80 } else { 0 };
    let m0: int = if negative { -pcm } else { pcm as int };
    let magnitude = ((if m0 > 32_635 { 32_635 } else { m0 }) + 0x84) as i32;
    let exponent = mulaw_exponent(magnitude, 7);
    let mantissa = ((magnitude >> ((exponent + 3) as i32)) & 0x0f) as u8;
    !(sign | (exponent << 4u8) | mantissa)
}

pub fn encode_mulaw(pcm: i16) -> (r: u8)
    ensures
        r == mulaw_code(pcm),
{
    let mut magnitude = pcm as i32;
    let sign: u8 = if magnitude < 0 {
        magnitude = -magnitude;
        0x80
    } else {
        0
    };
    magnitude = (if magnitude > 32_635 {
        32_635
    } else {
        magnitude
    }) + 0x84;
    let mut exponent: u8 = 7;
    let mut mask: i32 = 0x4000;
    assert((0x80i32 << 7u8) == 0x4000) by (bit_vector);
    while exponent > 0 && magnitude & mask == 0
        invariant
            exponent <= 7,
            mask == 0x80i32 << exponent,
            mulaw_exponent(magnitude, exponent) == mulaw_exponent(magnitude, 7),
        decreases exponent,
    {
        proof {
            assert((0x80i32 << exponent) >> 1i32 == 0x80i32 << ((exponent - 1) as u8)) by (bit_vector)
                requires
                    1 <= exponent <= 7,
            ;
        }
        exponent = exponent - 1;
        mask = mask >> 1i32;
    }
    let mantissa = ((magnitude >> ((exponent + 3) as i32)) & 0x0f) as u8;
    !(sign | (exponent << 4u8) | mantissa)
}

/// Silence has the canonical mu-law code 0xFF, and both silence codes decode
/// to zero.
pub proof fn lemma_mulaw_silence()
    ensures
        mulaw_code(0) == 0xff,
        mulaw_pcm(0xff) == 0,
        mulaw_pcm(0x7f) == 0,
{
    let m: i32 = 0x84;
    assert(m & (0x80i32 << 7u8) == 0 && m & (0x80i32 << 6u8) == 0 && m & (0x80i32 << 5u8) == 0 && m & (0x80i32
        << 4u8) == 0 && m & (0x80i32 << 3u8) == 0 && m & (0x80i32 << 2u8) == 0 && m & (0x80i32 << 1u8) == 0)
        by (bit_vector)
        requires
            m == 0x84,
    ;
    reveal_with_fuel(mulaw_exponent, 8);
    assert(mulaw_exponent(m, 7) == 0);
    assert(((m >> 3i32) & 0x0f) as u8 == 0 && !(0u8 | (0u8 << 4u8) | 0u8) == 0xff) by (bit_vector)
        requires
            m == 0x84,
    ;
    assert(!(0xffu8) == 0 && !(0x7fu8) == 0x80 && (0u8 >> 4u8) & 7 == 0 && 0u8 & 0x0f == 0 && (0x80u8 >> 4u8) & 7
        == 0 && 0x80u8 & 0x0f == 0 && 0u8 & 0x80 == 0 && 0x80u8 & 0x80 != 0) by (bit_vector);
    vstd::arithmetic::power2::lemma2_to64();
}

/// Encoding keeps the sign: the code's top bit is clear exactly for negative
/// samples.
pub proof fn lemma_mulaw_sign(pcm: i16)
    ensures
        (mulaw_code(pcm) & 0x80 == 0) <==> pcm < 0,
{
    let negative = pcm < 0;
    let sign: u8 = if negative { 0x80 } else { 0 };
    let m0: int = if negative { -pcm } else { pcm as int };
    let magnitude = ((if m0 > 32_635 { 32_635 } else { m0 }) + 0x84) as i32;
    let exponent = mulaw_exponent(magnitude, 7);
    lemma_mulaw_exponent_bound(magnitude, 7);
    let mantissa = ((magnitude >> ((exponent + 3) as i32)) & 0x0f) as u8;
    assert(mantissa <= 15) by (bit_vector)
        requires
            mantissa == ((magnitude >> ((exponent + 3) as i32)) & 0x0f) as u8,
    ;
    assert((!(sign | (exponent << 4u8) | mantissa) & 0x80 == 0) <==> sign == 0x80) by (bit_vector)
        requires
            exponent <= 7,
            mantissa <= 15,
            sign == 0 || sign == 0x80,
    ;
}

proof fn lemma_mulaw_exponent_bound(magnitude: i32, e: u8)
    ensures
        mulaw_exponent(magnitude, e) <= e,
    decreases e,
{
    if e > 0 {
        lemma_mulaw_exponent_bound(magnitude, (e - 1) as u8);
    }
}

} // verus!
