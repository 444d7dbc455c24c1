//! The container reader: a WAVE image in memory becomes a format
//! descriptor and the raw samples, decoded in full.
//!
//! The header and the 16-bit samples are read by the `hound` crate.
//! Binary32 samples are read here, word by word, from where `hound` found
//! the data to begin.

use vstd::prelude::*;
use vstd::slice::*;
use crate::format::{AudioFormatDescriptor, BitDepth, ContainerError};
use crate::sample::Sample;
use crate::normalize::{RawSampleSequence, RawSamples, spec_normalize};

verus! {

/// The error type of `hound`, carried through and never looked into.
#[verifier::external_type_specification]
#[verifier::external_body]
pub struct ExHoundError(hound::Error);

/// What the header of a WAVE image says, as `hound` reads it.
#[derive(Clone, Copy, Debug, PartialEq, Eq, Structural)]
pub struct WavHeader {
    /// Interleaved channels per frame.
    pub channels: u16,
    /// Frames per second, in Hz.
    pub sample_rate: u32,
    /// Significant bits per sample.
    pub bits_per_sample: u16,
    /// The samples are IEEE floating-point values, not integers.
    pub ieee: bool,
    /// The number of samples in the data chunk, all channels counted.
    pub sample_count: u32,
    /// The index of the first byte of sample data within the image.
    pub data_offset: u64,
}

/// The header that `hound` reads from an image, or `None` where it
/// refuses the image.
pub uninterp spec fn wav_header(bytes: Seq<u8>) -> Option<WavHeader>;

/// The samples that `hound` decodes from an image as 16-bit integers, or
/// `None` where it refuses the image or any one sample.
pub uninterp spec fn wav_pcm16_samples(bytes: Seq<u8>) -> Option<Seq<i16>>;

/// Reads the header of a WAVE image with `hound::WavReader::new`, and takes
/// from the reader its `spec()`, its `len()` and, by `into_inner()`, the
/// position at which it stopped: the start of the sample data. The result
/// depends on the bytes alone; nothing more is claimed of it.
#[verifier::external_body]
fn parse_header(bytes: &[u8]) -> (r: Result<WavHeader, hound::Error>)
    ensures
        r matches Ok(h) ==> wav_header(bytes@) == Some(h),
        r is Err ==> wav_header(bytes@) is None,
{
    let reader = hound::WavReader::new(std::io::Cursor::new(bytes))?;
    let (spec, sample_count) = (reader.spec(), reader.len());
    let (channels, sample_rate, bits_per_sample) = (spec.channels, spec.sample_rate, spec.bits_per_sample);
    let ieee = match spec.sample_format {
        hound::SampleFormat::Float => true,
        hound::SampleFormat::Int => false,
    };
    let data_offset = reader.into_inner().position();
    Ok(WavHeader { channels, sample_rate, bits_per_sample, ieee, sample_count, data_offset })
}

/// Decodes every sample of a WAVE image with `hound::WavReader::into_samples`
/// at the sample type `i16`. The result depends on the bytes alone; nothing
/// more is claimed of it.
#[verifier::external_body]
fn decode_pcm16(bytes: &[u8]) -> (r: Result<Vec<i16>, hound::Error>)
    ensures
        r matches Ok(v) ==> wav_pcm16_samples(bytes@) == Some(v@),
        r is Err ==> wav_pcm16_samples(bytes@) is None,
{
    hound::WavReader::new(std::io::Cursor::new(bytes))?.into_samples::<i16>().collect()
}

impl WavHeader {
    /// The encoding that the pipeline decodes this header's samples in:
    /// 16-bit integers, or 32-bit IEEE values, in one or two channels.
    pub open spec fn depth(self) -> Option<BitDepth> {
        if self.channels != 1 && self.channels != 2 {
            None
        } else if self.bits_per_sample == 16 && !self.ieee {
            Some(BitDepth::Sixteen)
        } else if self.bits_per_sample == 32 && self.ieee {
            Some(BitDepth::ThirtyTwo)
        } else {
            None
        }
    }

    /// The format descriptor that the header gives.
    pub open spec fn descriptor(self) -> AudioFormatDescriptor {
        AudioFormatDescriptor {
            sample_rate: self.sample_rate,
            channel_count: self.channels,
            bits_per_sample: self.bits_per_sample,
        }
    }
}

/// The little-endian 32-bit word at `at`.
pub open spec fn word_at(bytes: Seq<u8>, at: int) -> u32 {
    (bytes[at] + 0x100 * bytes[at + 1] + 0x1_0000 * bytes[at + 2] + 0x100_0000 * bytes[at + 3]) as u32
}

/// `count` binary32 samples stored as consecutive little-endian words from
/// `offset` on, or `None` where the bytes end before the last of them.
pub open spec fn float32_samples(bytes: Seq<u8>, offset: nat, count: nat) -> Option<Seq<Sample>> {
    if offset + 4 * count <= bytes.len() {
        Some(Seq::new(count, |i: int| Sample { bits: word_at(bytes, offset + 4 * i) }))
    } else {
        None
    }
}

/// What `open` returns, over what `hound` reads.
pub open spec fn spec_open(bytes: Seq<u8>) -> Result<
    (AudioFormatDescriptor, RawSamples),
    ContainerError,
> {
    match wav_header(bytes) {
        None => Err(ContainerError::Unreadable),
        Some(header) => match header.depth() {
            None => Err(ContainerError::UnsupportedFormat),
            Some(BitDepth::Sixteen) => match wav_pcm16_samples(bytes) {
                None => Err(ContainerError::Unreadable),
                Some(samples) => Ok((header.descriptor(), RawSamples::Pcm16(samples))),
            },
            Some(BitDepth::ThirtyTwo) => match float32_samples(
                bytes,
                header.data_offset as nat,
                header.sample_count as nat,
            ) {
                None => Err(ContainerError::Unreadable),
                Some(samples) => Ok((header.descriptor(), RawSamples::Float32(samples))),
            },
        },
    }
}

/// Checks a header: the descriptor and the encoding of a container that
/// the pipeline decodes, `UnsupportedFormat` for every other.
pub fn describe(header: &WavHeader) -> (r: Result<(AudioFormatDescriptor, BitDepth), ContainerError>)
    ensures
        match header.depth() {
            Some(depth) => r == Ok::<(AudioFormatDescriptor, BitDepth), ContainerError>(
                (header.descriptor(), depth),
            ),
            None => r == Err::<(AudioFormatDescriptor, BitDepth), ContainerError>(
                ContainerError::UnsupportedFormat,
            ),
        },
        r is Ok ==> r.unwrap().0.spec_is_supported(),
{
    if header.channels != 1 && header.channels != 2 {
        return Err(ContainerError::UnsupportedFormat);
    }
    let depth = if header.bits_per_sample == 16 && !header.ieee {
        BitDepth::Sixteen
    } else if header.bits_per_sample == 32 && header.ieee {
        BitDepth::ThirtyTwo
    } else {
        return Err(ContainerError::UnsupportedFormat);
    };
    Ok(
        (
            AudioFormatDescriptor {
                sample_rate: header.sample_rate,
                channel_count: header.channels,
                bits_per_sample: header.bits_per_sample,
            },
            depth,
        ),
    )
}

/// Reads `count` binary32 samples from consecutive little-endian words,
/// the first at `offset`. Fails with `Unreadable` exactly when the bytes
/// end before the last sample does.
pub fn decode_float32(bytes: &[u8], offset: u64, count: u32) -> (r: Result<
    Vec<Sample>,
    ContainerError,
>)
    ensures
        match float32_samples(bytes@, offset as nat, count as nat) {
            Some(samples) => r is Ok && r.unwrap()@ == samples,
            None => r == Err::<Vec<Sample>, ContainerError>(ContainerError::Unreadable),
        },
{
    let length: u64 = bytes.len() as u64;
    if offset > length || (length - offset) / 4 < count as u64 {
        return Err(ContainerError::Unreadable);
    }
    let start: usize = offset as usize;
    let total: usize = count as usize;
    let mut out: Vec<Sample> = Vec::new();
    let mut i: usize = 0;
    while i < total
        invariant
            bytes@.len() <= usize::MAX,
            start + 4 * total <= bytes@.len(),
            start == offset,
            total == count,
            i <= total,
            out@.len() == i,
            forall|j: int| 0 <= j < i ==> out@[j] == (Sample { bits: word_at(bytes@, start + 4 * j) }),
        decreases total - i,
    {
        let at: usize = start + 4 * i;
        let word: u32 = bytes[at] as u32 + 0x100 * (bytes[at + 1] as u32) + 0x1_0000 * (bytes[at
            + 2] as u32) + 0x100_0000 * (bytes[at + 3] as u32);
        out.push(Sample { bits: word });
        i = i + 1;
    }
    assert(out@ =~= float32_samples(bytes@, offset as nat, count as nat).unwrap());
    Ok(out)
}

/// Opens a WAVE image: the format descriptor and every sample, decoded.
///
/// An image that `hound` refuses, or whose sample data ends early, is
/// `Unreadable`. One that it reads, but that is not 16-bit integer or
/// 32-bit IEEE audio in one or two channels, is of an `UnsupportedFormat`.
pub fn open(bytes: &[u8]) -> (r: Result<(AudioFormatDescriptor, RawSampleSequence), ContainerError>)
    ensures
        match r {
            Ok((format, raw)) => spec_open(bytes@) == Ok::<
                (AudioFormatDescriptor, RawSamples),
                ContainerError,
            >((format, raw@)) && format.spec_is_supported() && raw@.typed_for(format),
            Err(e) => spec_open(bytes@) == Err::<
                (AudioFormatDescriptor, RawSamples),
                ContainerError,
            >(e),
        },
{
    let header = match parse_header(bytes) {
        Ok(header) => header,
        Err(_) => {
            return Err(ContainerError::Unreadable);
        },
    };
    let (format, depth) = match describe(&header) {
        Ok(pair) => pair,
        Err(e) => {
            return Err(e);
        },
    };
    match depth {
        BitDepth::Sixteen => match decode_pcm16(bytes) {
            Ok(samples) => Ok((format, RawSampleSequence::Pcm16(samples))),
            Err(_) => Err(ContainerError::Unreadable),
        },
        BitDepth::ThirtyTwo => match decode_float32(bytes, header.data_offset, header.sample_count) {
            Ok(samples) => Ok((format, RawSampleSequence::Float32(samples))),
            Err(e) => Err(e),
        },
    }
}

/// What the reader opens, the normalizer accepts: the format check leaves
/// only the two bit depths that `normalize` knows, so it gives one sample
/// for each frame.
pub proof fn lemma_opened_audio_normalizes(bytes: Seq<u8>)
    requires
        spec_open(bytes) is Ok,
    ensures
        ({
            let (format, raw) = spec_open(bytes).unwrap();
            &&& format.spec_is_supported()
            &&& raw.typed_for(format)
            &&& spec_normalize(format, raw) is Ok
            &&& spec_normalize(format, raw).unwrap().len() == raw.len() / (
            format.channel_count as nat)
        }),
{
}

} // verus!
