//! Reading a FLAC recording for the sample pack: the decoded stream's facts
//! and samples, refused where the stream does not decode or has no channel.
use vstd::prelude::*;

verus! {

#[verifier::external_type_specification]
#[verifier::external_body]
pub struct ExFlacError(claxon::Error);

/// A decoded recording: its channel count, sample width and rate, and its
/// samples, interleaved by channel.
#[derive(Clone, Debug)]
pub struct FlacAudio {
    pub channels: u32,
    pub bits_per_sample: u32,
    pub sample_rate: u32,
    pub samples: Vec<i32>,
}

/// Why a recording was refused.
#[derive(Clone, Debug)]
pub enum PackError {
    /// The bytes are not a FLAC stream the decoder reads; the decoder's words.
    Decode(String),
    /// The stream declares no channel.
    NoChannels,
}

/// What the FLAC decoder reads from a whole stream held in memory: channels,
/// bits per sample, sample rate and the interleaved samples, or nothing
/// where the stream does not decode to its end.
pub uninterp spec fn flac_stream(bytes: Seq<u8>) -> Option<(u32, u32, u32, Seq<i32>)>;

/// The stream facts and every sample of `bytes`, through
/// `claxon::FlacReader::new` on the bytes, its `streaminfo`, and its
/// `samples` collected in order. The claim: the outcome is the decoder's
/// reading of the bytes alone (an in-memory stream has no other input), a
/// decoding error exactly where that reading is nothing.
#[verifier::external_body]
fn decode_stream(bytes: &[u8]) -> (r: Result<FlacAudio, claxon::Error>)
    ensures
        match r {
            Ok(a) => flac_stream(bytes@) == Some((a.channels, a.bits_per_sample, a.sample_rate, a.samples@)),
            Err(_) => flac_stream(bytes@) is None,
        },
{
    let mut reader = claxon::FlacReader::new(std::io::Cursor::new(bytes))?;
    let info = reader.streaminfo();
    let samples = reader.samples().collect::<Result<Vec<i32>, claxon::Error>>()?;
    Ok(FlacAudio { channels: info.channels, bits_per_sample: info.bits_per_sample, sample_rate: info.sample_rate, samples })
}

/// The decoder's own description of an error, through its `Display`
/// (`claxon::Error`'s `fmt`). Nothing is claimed of the text.
#[verifier::external_body]
fn error_text(error: &claxon::Error) -> (r: String) {
    format!("{}", error)
}

/// Decode a FLAC recording held in memory. Fails with the decoder's words
/// where the bytes do not decode, and with `NoChannels` where the stream
/// declares none; otherwise hands back exactly what the decoder read.
pub fn decode_flac(bytes: &[u8]) -> (r: Result<FlacAudio, PackError>)
    ensures
        match flac_stream(bytes@) {
            None => r matches Err(PackError::Decode(_)),
            Some((channels, bits, rate, samples)) => if channels == 0 {
                r matches Err(PackError::NoChannels)
            } else {
                r matches Ok(a) && a.channels == channels && a.bits_per_sample == bits && a.sample_rate == rate
                    && a.samples@ == samples
            },
        },
{
    match decode_stream(bytes) {
        Err(e) => Err(PackError::Decode(error_text(&e))),
        Ok(audio) => {
            if audio.channels == 0 {
                Err(PackError::NoChannels)
            } else {
                Ok(audio)
            }
        },
    }
}

} // verus!
