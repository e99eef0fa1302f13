//! WAVE encoding and decoding of whole tracks held in memory, through
//! hound, and the merge of a segment file into a main file.

use vstd::prelude::*;
use crate::capture::{AudioFormat, SampleEncoding};
use crate::stitch::{AudioTrack, StitchError, TrackView, stitched};

verus! {

#[verifier::external_type_specification]
#[verifier::external_body]
pub struct ExWavError(hound::Error);

/// The track that hound decodes from the bytes of a WAVE file, as 16-bit
/// samples; `None` where it reports an error.
pub uninterp spec fn wav_decoding(bytes: Seq<u8>) -> Option<TrackView>;

/// The bytes of the WAVE file that hound writes for the samples in the
/// format; `None` where it reports an error.
pub uninterp spec fn wav_encoding(format: AudioFormat, samples: Seq<i16>) -> Option<Seq<u8>>;

/// Bytes each stored sample takes in a format.
pub open spec fn sample_width(format: AudioFormat) -> int {
    (format.bits_per_sample + 7) / 8
}

/// Formats and lengths that hound writes without arithmetic overflow or a
/// panic: at least one channel, a nonzero rate, 32-bit samples when they
/// are floats, and byte rate, data length and file length within 32 bits.
pub open spec fn encodable(format: AudioFormat, len: nat) -> bool {
    &&& format.channels >= 1
    &&& format.sample_rate >= 1
    &&& format.bits_per_sample <= 32
    &&& format.encoding == SampleEncoding::Float ==> format.bits_per_sample == 32
    &&& format.sample_rate * sample_width(format) * format.channels <= u32::MAX
    &&& len * sample_width(format) + 60 <= u32::MAX
}

/// Relies on hound::WavReader::new over an in-memory reader, then its
/// spec() and samples::<i16>(): the header's format and every sample, or
/// hound's error.
#[verifier::external_body]
fn read_wav(bytes: &[u8]) -> (r: Result<AudioTrack, hound::Error>)
    ensures
        match r {
            Ok(t) => wav_decoding(bytes@) == Some((t.format, t.samples@)),
            Err(_) => wav_decoding(bytes@) is None,
        },
{
    let mut reader = hound::WavReader::new(std::io::Cursor::new(bytes))?;
    let s = reader.spec();
    let samples = reader.samples::<i16>().collect::<Result<Vec<i16>, hound::Error>>()?;
    let encoding = match s.sample_format {
        hound::SampleFormat::Int => SampleEncoding::Int,
        hound::SampleFormat::Float => SampleEncoding::Float,
    };
    let format = AudioFormat { channels: s.channels, sample_rate: s.sample_rate, bits_per_sample: s.bits_per_sample, encoding };
    Ok(AudioTrack { format, samples })
}

/// Relies on hound::WavWriter::new over an in-memory writer, write_sample
/// for each sample and finalize: the bytes written, or hound's error.
#[verifier::external_body]
fn write_wav(format: AudioFormat, samples: &[i16]) -> (r: Result<Vec<u8>, hound::Error>)
    requires
        encodable(format, samples@.len()),
    ensures
        match r {
            Ok(b) => wav_encoding(format, samples@) == Some(b@),
            Err(_) => wav_encoding(format, samples@) is None,
        },
{
    let sample_format = match format.encoding {
        SampleEncoding::Int => hound::SampleFormat::Int,
        SampleEncoding::Float => hound::SampleFormat::Float,
    };
    let spec = hound::WavSpec { channels: format.channels, sample_rate: format.sample_rate, bits_per_sample: format.bits_per_sample, sample_format };
    let mut out = std::io::Cursor::new(Vec::new());
    let mut writer = hound::WavWriter::new(&mut out, spec)?;
    for s in samples {
        writer.write_sample(*s)?;
    }
    writer.finalize()?;
    Ok(out.into_inner())
}

/// Decodes the bytes of a WAVE file into its format and 16-bit samples.
pub fn decode_track(bytes: &[u8]) -> (r: Option<AudioTrack>)
    ensures
        match r {
            Some(t) => wav_decoding(bytes@) == Some((t.format, t.samples@)),
            None => wav_decoding(bytes@) is None,
        },
{
    match read_wav(bytes) {
        Ok(t) => Some(t),
        Err(_) => None,
    }
}

/// Encodes a track as the bytes of a WAVE file.
pub fn encode_track(track: &AudioTrack) -> (r: Result<Vec<u8>, StitchError>)
    requires
        encodable(track.format, track.samples@.len()),
    ensures
        match r {
            Ok(b) => wav_encoding(track.format, track.samples@) == Some(b@),
            Err(e) => e == StitchError::EncodeFailed && wav_encoding(track.format, track.samples@) is None,
        },
{
    match write_wav(track.format, track.samples.as_slice()) {
        Ok(b) => Ok(b),
        Err(_) => Err(StitchError::EncodeFailed),
    }
}

/// The outcome of merging a segment file into a main file: both are
/// decoded, the segment's samples follow the main file's, and the result
/// is encoded in the main file's format.
pub open spec fn merge_result(main: Seq<u8>, segment: Seq<u8>) -> Result<Seq<u8>, StitchError> {
    match wav_decoding(main) {
        None => Err(StitchError::MainUnreadable),
        Some(m) => match wav_decoding(segment) {
            None => Err(StitchError::SegmentUnreadable),
            Some(s) => {
                let t = stitched(Some(m), s);
                if !encodable(t.0, t.1.len()) {
                    Err(StitchError::EncodeFailed)
                } else {
                    match wav_encoding(t.0, t.1) {
                        None => Err(StitchError::EncodeFailed),
                        Some(b) => Ok(b),
                    }
                }
            },
        },
    }
}

/// Checks `encodable` at run time.
pub fn is_encodable(format: AudioFormat, len: usize) -> (r: bool)
    ensures
        r == encodable(format, len as nat),
{
    if format.channels < 1 || format.sample_rate < 1 || format.bits_per_sample > 32 {
        return false;
    }
    let is_float = match format.encoding {
        SampleEncoding::Float => true,
        SampleEncoding::Int => false,
    };
    if is_float && format.bits_per_sample != 32 {
        return false;
    }
    let width: u64 = ((format.bits_per_sample as u64) + 7) / 8;
    assert(width <= 4);
    let rate: u64 = format.sample_rate as u64;
    let channels: u64 = format.channels as u64;
    assert(rate * width <= 4 * 0xffff_ffffu64) by (nonlinear_arith)
        requires
            width <= 4,
            rate <= 0xffff_ffffu64,
    ;
    let rate_bytes: u64 = rate * width;
    if rate_bytes > 0xffff_ffffu64 {
        assert(rate_bytes * channels > 0xffff_ffffu64) by (nonlinear_arith)
            requires
                rate_bytes > 0xffff_ffffu64,
                channels >= 1,
        ;
        return false;
    }
    assert(rate_bytes * channels <= 0xffff_ffffu64 * 0xffffu64) by (nonlinear_arith)
        requires
            rate_bytes <= 0xffff_ffffu64,
            channels <= 0xffffu64,
    ;
    let byte_rate: u64 = rate_bytes * channels;
    if byte_rate > 0xffff_ffffu64 {
        return false;
    }
    let n: u64 = len as u64;
    if n > 0xffff_ffffu64 {
        if width == 0 {
            assert(n * width == 0) by (nonlinear_arith)
                requires
                    width == 0,
            ;
            return true;
        }
        assert(n * width + 60 > 0xffff_ffffu64) by (nonlinear_arith)
            requires
                n > 0xffff_ffffu64,
                width >= 1,
        ;
        return false;
    }
    assert(n * width <= 4 * 0xffff_ffffu64) by (nonlinear_arith)
        requires
            width <= 4,
            n <= 0xffff_ffffu64,
    ;
    let data: u64 = n * width;
    data + 60 <= 0xffff_ffffu64
}

/// Merges the bytes of a segment file into those of the main file; the
/// result is the new main file.
pub fn merge_segment(main: &[u8], segment: &[u8]) -> (r: Result<Vec<u8>, StitchError>)
    ensures
        match r {
            Ok(b) => merge_result(main@, segment@) == Ok::<Seq<u8>, StitchError>(b@),
            Err(e) => merge_result(main@, segment@) == Err::<Seq<u8>, StitchError>(e),
        },
{
    let m = match decode_track(main) {
        None => {
            return Err(StitchError::MainUnreadable);
        },
        Some(t) => t,
    };
    let s = match decode_track(segment) {
        None => {
            return Err(StitchError::SegmentUnreadable);
        },
        Some(t) => t,
    };
    let merged = crate::stitch::append_track(m, s);
    if !is_encodable(merged.format, merged.samples.len()) {
        return Err(StitchError::EncodeFailed);
    }
    encode_track(&merged)
}

} // verus!
