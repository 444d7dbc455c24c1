//! The sample normalizer: interleaved raw samples of either encoding and
//! of one or two channels become one binary32 sample per frame.

use vstd::prelude::*;
use vstd::arithmetic::power2::{pow2, lemma2_to64};
use crate::format::{AudioFormatDescriptor, FormatError};
use crate::sample::Sample;
use crate::pcm::{pcm16_sample, pcm16_mean_sample, lemma_dyadic_sample_exact};
use crate::pcm::lemma_pcm16_mean_is_binary32_mean;
use crate::mean::{spec_mean, lemma_mean_in_unit_range};

verus! {

/// The interleaved samples of a container, in the encoding that its bit
/// depth implies.
#[derive(Debug)]
pub enum RawSampleSequence {
    /// Signed 16-bit integers, from a container of bit depth 16.
    Pcm16(Vec<i16>),
    /// Binary32 values, from a container of bit depth 32.
    Float32(Vec<Sample>),
}

/// What a raw sample sequence holds, as mathematical sequences.
pub enum RawSamples {
    /// Signed 16-bit integers.
    Pcm16(Seq<i16>),
    /// Binary32 values.
    Float32(Seq<Sample>),
}

impl View for RawSampleSequence {
    type V = RawSamples;

    open spec fn view(&self) -> RawSamples {
        match self {
            RawSampleSequence::Pcm16(v) => RawSamples::Pcm16(v@),
            RawSampleSequence::Float32(v) => RawSamples::Float32(v@),
        }
    }
}

impl RawSamples {
    /// The number of samples, all channels counted.
    pub open spec fn len(self) -> nat {
        match self {
            RawSamples::Pcm16(s) => s.len(),
            RawSamples::Float32(s) => s.len(),
        }
    }

    /// The samples are of the encoding that the descriptor's bit depth
    /// implies. A descriptor of an unsupported depth implies none.
    pub open spec fn typed_for(self, format: AudioFormatDescriptor) -> bool {
        &&& format.bits_per_sample == 16 ==> self is Pcm16
        &&& format.bits_per_sample == 32 ==> self is Float32
    }

    /// Every sample lies within [-1, 1]: always so for integer samples once
    /// divided by 32768, and for binary32 samples if each is finite and of
    /// absolute value at most 1.
    pub open spec fn well_formed(self) -> bool {
        match self {
            RawSamples::Pcm16(_) => true,
            RawSamples::Float32(s) => forall|i: int|
                0 <= i < s.len() ==> (#[trigger] s[i]).spec_in_unit_range(),
        }
    }

    /// The sequence without its last sample.
    pub open spec fn drop_last(self) -> RawSamples {
        match self {
            RawSamples::Pcm16(s) => RawSamples::Pcm16(s.drop_last()),
            RawSamples::Float32(s) => RawSamples::Float32(s.drop_last()),
        }
    }
}

/// One binary32 sample per frame, nominally within [-1, 1].
#[derive(Debug)]
pub struct NormalizedAudioBuffer {
    /// The samples, in the order of the frames.
    pub samples: Vec<Sample>,
}

impl View for NormalizedAudioBuffer {
    type V = Seq<Sample>;

    open spec fn view(&self) -> Seq<Sample> {
        self.samples@
    }
}

impl RawSampleSequence {
    /// The number of samples, all channels counted.
    pub fn len(&self) -> (n: usize)
        ensures
            n == self@.len(),
    {
        match self {
            RawSampleSequence::Pcm16(v) => v.len(),
            RawSampleSequence::Float32(v) => v.len(),
        }
    }

    /// Whether the samples are of the encoding that the descriptor implies.
    pub fn typed_for(&self, format: AudioFormatDescriptor) -> (ok: bool)
        ensures
            ok == self@.typed_for(format),
    {
        match self {
            RawSampleSequence::Pcm16(_) => format.bits_per_sample != 32,
            RawSampleSequence::Float32(_) => format.bits_per_sample != 16,
        }
    }
}

/// Each 16-bit sample divided by 32768.
pub open spec fn scaled_pcm16(raw: Seq<i16>) -> Seq<Sample> {
    Seq::new(raw.len(), |i: int| pcm16_sample(raw[i]))
}

/// The mean of each pair of 16-bit samples divided by 32768; a last sample
/// without a partner is left out.
pub open spec fn downmixed_pcm16(raw: Seq<i16>) -> Seq<Sample> {
    Seq::new(raw.len() / 2, |i: int| pcm16_mean_sample(raw[2 * i], raw[2 * i + 1]))
}

/// The binary32 mean of each pair of samples; a last sample without a
/// partner is left out.
pub open spec fn downmixed_float32(raw: Seq<Sample>) -> Seq<Sample> {
    Seq::new(raw.len() / 2, |i: int| spec_mean(raw[2 * i], raw[2 * i + 1]))
}

/// What `normalize` returns. The bit depth has to be 16 or 32; the samples
/// are then read in their own encoding, which is the one that the depth
/// implies wherever the two agree. A channel count of two picks the
/// downmix; every other count is read as mono.
pub open spec fn spec_normalize(format: AudioFormatDescriptor, raw: RawSamples) -> Result<
    Seq<Sample>,
    FormatError,
> {
    if format.bits_per_sample != 16 && format.bits_per_sample != 32 {
        Err(FormatError::UnsupportedBitDepth)
    } else {
        Ok(
            match raw {
                RawSamples::Pcm16(s) => if format.channel_count == 2 {
                    downmixed_pcm16(s)
                } else {
                    scaled_pcm16(s)
                },
                RawSamples::Float32(s) => if format.channel_count == 2 {
                    downmixed_float32(s)
                } else {
                    s
                },
            },
        )
    }
}

/// Divides each 16-bit sample by 32768.
pub fn scale_pcm16(raw: &Vec<i16>) -> (out: Vec<Sample>)
    ensures
        out@ == scaled_pcm16(raw@),
{
    let mut out: Vec<Sample> = Vec::new();
    let mut i: usize = 0;
    while i < raw.len()
        invariant
            i <= raw.len(),
            out@.len() == i,
            forall|j: int| 0 <= j < i ==> out@[j] == pcm16_sample(raw@[j]),
        decreases raw.len() - i,
    {
        out.push(Sample::from_pcm16(raw[i]));
        i = i + 1;
    }
    assert(out@ =~= scaled_pcm16(raw@));
    out
}

/// Averages each left and right 16-bit sample, each divided by 32768.
pub fn downmix_pcm16(raw: &Vec<i16>) -> (out: Vec<Sample>)
    ensures
        out@ == downmixed_pcm16(raw@),
{
    let frames: usize = raw.len() / 2;
    let mut out: Vec<Sample> = Vec::new();
    let mut i: usize = 0;
    while i < frames
        invariant
            frames == raw.len() / 2,
            i <= frames,
            out@.len() == i,
            forall|j: int|
                0 <= j < i ==> out@[j] == pcm16_mean_sample(raw@[2 * j], raw@[2 * j + 1]),
        decreases frames - i,
    {
        out.push(Sample::from_pcm16_pair(raw[2 * i], raw[2 * i + 1]));
        i = i + 1;
    }
    assert(out@ =~= downmixed_pcm16(raw@));
    out
}

/// Averages each left and right binary32 sample.
pub fn downmix_float32(raw: &Vec<Sample>) -> (out: Vec<Sample>)
    ensures
        out@ == downmixed_float32(raw@),
{
    let frames: usize = raw.len() / 2;
    let mut out: Vec<Sample> = Vec::new();
    let mut i: usize = 0;
    while i < frames
        invariant
            frames == raw.len() / 2,
            i <= frames,
            out@.len() == i,
            forall|j: int| 0 <= j < i ==> out@[j] == spec_mean(raw@[2 * j], raw@[2 * j + 1]),
        decreases frames - i,
    {
        out.push(raw[2 * i].mean(raw[2 * i + 1]));
        i = i + 1;
    }
    assert(out@ =~= downmixed_float32(raw@));
    out
}

/// Copies binary32 samples through unchanged.
pub fn pass_float32(raw: &Vec<Sample>) -> (out: Vec<Sample>)
    ensures
        out@ == raw@,
{
    let mut out: Vec<Sample> = Vec::new();
    let mut i: usize = 0;
    while i < raw.len()
        invariant
            i <= raw.len(),
            out@.len() == i,
            forall|j: int| 0 <= j < i ==> out@[j] == raw@[j],
        decreases raw.len() - i,
    {
        out.push(raw[i]);
        i = i + 1;
    }
    assert(out@ =~= raw@);
    out
}

/// Normalizes raw samples into one binary32 sample per frame.
///
/// Fails exactly when the bit depth is neither 16 nor 32. The sample rate
/// plays no part.
pub fn normalize(format: &AudioFormatDescriptor, raw: &RawSampleSequence) -> (r: Result<
    NormalizedAudioBuffer,
    FormatError,
>)
    ensures
        match r {
            Ok(buffer) => spec_normalize(*format, raw@) == Ok::<Seq<Sample>, FormatError>(buffer@),
            Err(e) => spec_normalize(*format, raw@) == Err::<Seq<Sample>, FormatError>(e),
        },
{
    if format.bits_per_sample != 16 && format.bits_per_sample != 32 {
        return Err(FormatError::UnsupportedBitDepth);
    }
    let samples = match raw {
        RawSampleSequence::Pcm16(v) => if format.channel_count == 2 {
            downmix_pcm16(v)
        } else {
            scale_pcm16(v)
        },
        RawSampleSequence::Float32(v) => if format.channel_count == 2 {
            downmix_float32(v)
        } else {
            pass_float32(v)
        },
    };
    Ok(NormalizedAudioBuffer { samples })
}

/// A bit depth other than 16 and 32 is rejected, whatever the samples and
/// the channel count, and no other input is.
pub proof fn lemma_unsupported_depth_rejected(format: AudioFormatDescriptor, raw: RawSamples)
    ensures
        format.bits_per_sample != 16 && format.bits_per_sample != 32 ==> spec_normalize(format, raw)
            == Err::<Seq<Sample>, FormatError>(FormatError::UnsupportedBitDepth),
        format.bits_per_sample == 16 || format.bits_per_sample == 32 ==> spec_normalize(
            format,
            raw,
        ) is Ok,
{
}

/// A supported format gives one sample per frame: the number of raw
/// samples divided by the channel count, rounded down.
pub proof fn lemma_one_sample_per_frame(format: AudioFormatDescriptor, raw: RawSamples)
    requires
        format.spec_is_supported(),
    ensures
        spec_normalize(format, raw) is Ok,
        spec_normalize(format, raw).unwrap().len() == raw.len() / (format.channel_count as nat),
{
}

/// Samples within [-1, 1] normalize to samples within [-1, 1].
pub proof fn lemma_normalized_within_unit_range(format: AudioFormatDescriptor, raw: RawSamples)
    requires
        spec_normalize(format, raw) is Ok,
        raw.well_formed(),
    ensures
        forall|i: int|
            0 <= i < spec_normalize(format, raw).unwrap().len() ==> (#[trigger] spec_normalize(
                format,
                raw,
            ).unwrap()[i]).spec_in_unit_range(),
{
    let out = spec_normalize(format, raw).unwrap();
    assert forall|i: int| 0 <= i < out.len() implies (#[trigger] out[i]).spec_in_unit_range() by {
        lemma2_to64();
        match raw {
            RawSamples::Pcm16(s) => {
                if format.channel_count == 2 {
                    lemma_dyadic_sample_exact(s[2 * i] + s[2 * i + 1], 134);
                } else {
                    lemma_dyadic_sample_exact(s[i] as int, 135);
                }
            },
            RawSamples::Float32(s) => {
                if format.channel_count == 2 {
                    lemma_mean_in_unit_range(s[2 * i], s[2 * i + 1]);
                }
            },
        }
    }
}

/// A normalized mono 16-bit sample is the raw sample divided by 32768,
/// exactly: its value times 32768 is the raw sample, in units of 2^-149.
pub proof fn lemma_scaled_pcm16_value(raw: Seq<i16>, i: int)
    requires
        0 <= i < raw.len(),
    ensures
        scaled_pcm16(raw)[i].spec_is_finite(),
        scaled_pcm16(raw)[i].scaled() * 32768 == raw[i] * pow2(149),
{
    lemma2_to64();
    lemma_dyadic_sample_exact(raw[i] as int, 135);
}

/// A normalized stereo 16-bit frame is the mean of its two samples, each
/// divided by 32768, exactly: the sum of the two divided by 65536. It is
/// also what binary32 arithmetic makes of that mean.
pub proof fn lemma_downmixed_pcm16_value(raw: Seq<i16>, i: int)
    requires
        0 <= i < raw.len() / 2,
    ensures
        downmixed_pcm16(raw)[i].spec_is_finite(),
        downmixed_pcm16(raw)[i].scaled() * 65536 == (raw[2 * i] + raw[2 * i + 1]) * pow2(149),
        downmixed_pcm16(raw)[i] == spec_mean(pcm16_sample(raw[2 * i]), pcm16_sample(raw[2 * i + 1])),
{
    lemma2_to64();
    lemma_dyadic_sample_exact(raw[2 * i] + raw[2 * i + 1], 134);
    lemma_pcm16_mean_is_binary32_mean(raw[2 * i], raw[2 * i + 1]);
}

/// Under two channels a last sample without a partner changes nothing:
/// an odd number of raw samples normalizes as the sequence without its
/// last sample does.
pub proof fn lemma_unpaired_sample_dropped(format: AudioFormatDescriptor, raw: RawSamples)
    requires
        format.channel_count == 2,
        raw.len() % 2 == 1,
    ensures
        spec_normalize(format, raw) == spec_normalize(format, raw.drop_last()),
{
    match raw {
        RawSamples::Pcm16(s) => {
            assert(downmixed_pcm16(s) =~= downmixed_pcm16(s.drop_last()));
        },
        RawSamples::Float32(s) => {
            assert(downmixed_float32(s) =~= downmixed_float32(s.drop_last()));
        },
    }
}

/// The sample rate plays no part: two descriptors that differ in nothing
/// else normalize the same samples to the same buffer.
pub proof fn lemma_sample_rate_ignored(
    format: AudioFormatDescriptor,
    other: AudioFormatDescriptor,
    raw: RawSamples,
)
    requires
        format.channel_count == other.channel_count,
        format.bits_per_sample == other.bits_per_sample,
    ensures
        spec_normalize(format, raw) == spec_normalize(other, raw),
{
}

} // verus!
