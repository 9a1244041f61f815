//! The canonical 44-byte-header PCM WAV container for stereo 16-bit audio.
use crate::le::{put_u16, put_u32, put_u8};
use vstd::bytes::{spec_u16_to_le_bytes, spec_u32_to_le_bytes};
use vstd::prelude::*;

verus! {

#[derive(Clone, Copy, Debug, PartialEq, Eq, Structural)]
pub struct StereoSample {
    pub left: i16,
    pub right: i16,
}

/// The bytes of an ASCII tag.
pub open spec fn tag(a: u8, b: u8, c: u8, d: u8) -> Seq<u8> {
    seq![a, b, c, d]
}

/// The interleaved little-endian sample data.
pub open spec fn sample_bytes(s: Seq<StereoSample>) -> Seq<u8>
    decreases s.len(),
{
    if s.len() == 0 {
        seq![]
    } else {
        sample_bytes(s.drop_last()) + spec_u16_to_le_bytes(s.last().left as u16) + spec_u16_to_le_bytes(
            s.last().right as u16,
        )
    }
}

/// The WAV file: the header, then the samples.
pub open spec fn wav_file(rate: u32, s: Seq<StereoSample>) -> Seq<u8> {
    wav_header(rate, s.len()) + sample_bytes(s)
}

/// The RIFF header, a 16-byte PCM format chunk (stereo, 16-bit, `rate` Hz),
/// and the data chunk's header for `n` frames.
pub open spec fn wav_header(rate: u32, n: nat) -> Seq<u8> {
    let data_len = (n * 4) as u32;
    tag(82, 73, 70, 70) + spec_u32_to_le_bytes((36 + data_len) as u32) + tag(87, 65, 86, 69) + tag(102, 109, 116, 32)
        + spec_u32_to_le_bytes(16) + spec_u16_to_le_bytes(1) + spec_u16_to_le_bytes(2) + spec_u32_to_le_bytes(rate)
        + spec_u32_to_le_bytes((rate * 4) as u32) + spec_u16_to_le_bytes(4) + spec_u16_to_le_bytes(16) + tag(
        100,
        97,
        116,
        97,
    ) + spec_u32_to_le_bytes(data_len)
}

/// The WAV file's bytes (the header's sizes are 32-bit, so the sample count
/// and rate must fit them).
pub fn wav_bytes(sample_rate: u32, samples: &[StereoSample]) -> (r: Vec<u8>)
    requires
        36 + samples@.len() * 4 <= u32::MAX,
        sample_rate * 4 <= u32::MAX,
    ensures
        r@ == wav_file(sample_rate, samples@),
{
    let data_len = samples.len() as u32 * 4;
    let mut out: Vec<u8> = Vec::new();
    put_u8(&mut out, 82);
    put_u8(&mut out, 73);
    put_u8(&mut out, 70);
    put_u8(&mut out, 70);
    put_u32(&mut out, 36 + data_len);
    put_u8(&mut out, 87);
    put_u8(&mut out, 65);
    put_u8(&mut out, 86);
    put_u8(&mut out, 69);
    put_u8(&mut out, 102);
    put_u8(&mut out, 109);
    put_u8(&mut out, 116);
    put_u8(&mut out, 32);
    put_u32(&mut out, 16);
    put_u16(&mut out, 1);
    put_u16(&mut out, 2);
    put_u32(&mut out, sample_rate);
    put_u32(&mut out, sample_rate * 4);
    put_u16(&mut out, 4);
    put_u16(&mut out, 16);
    put_u8(&mut out, 100);
    put_u8(&mut out, 97);
    put_u8(&mut out, 116);
    put_u8(&mut out, 97);
    put_u32(&mut out, data_len);
    let ghost header = out@;
    assert(header =~= wav_header(sample_rate, samples@.len()));
    let mut i: usize = 0;
    assert(samples@.subrange(0, 0) =~= Seq::<StereoSample>::empty());
    while i < samples.len()
        invariant
            i <= samples@.len(),
            out@ == header + sample_bytes(samples@.subrange(0, i as int)),
        decreases samples@.len() - i,
    {
        let s = samples[i];
        assert(samples@.subrange(0, i + 1).drop_last() == samples@.subrange(0, i as int));
        put_u16(&mut out, s.left as u16);
        put_u16(&mut out, s.right as u16);
        i = i + 1;
    }
    assert(samples@.subrange(0, samples@.len() as int) == samples@);
    out
}

} // verus!
