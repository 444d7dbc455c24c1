//! The format descriptor of a container and the checks made on it.

use vstd::prelude::*;
use vstd::string::*;
use crate::decimal::{decimal, format_decimal};

verus! {

/// The sample rate, in Hz, that the recognition engine expects.
pub const EXPECTED_SAMPLE_RATE: u32 = 16000;

/// The two sample encodings that the pipeline decodes.
#[derive(Clone, Copy, Debug, PartialEq, Eq, Structural)]
pub enum BitDepth {
    /// Signed 16-bit integer samples.
    Sixteen,
    /// 32-bit floating-point samples.
    ThirtyTwo,
}

/// How a container stores its samples, as read from its header.
#[derive(Clone, Copy, Debug, PartialEq, Eq, Structural)]
pub struct AudioFormatDescriptor {
    /// Frames per second, in Hz.
    pub sample_rate: u32,
    /// Interleaved channels per frame; one and two are supported.
    pub channel_count: u16,
    /// Bits per stored sample; 16 and 32 are supported.
    pub bits_per_sample: u16,
}

/// Why a container could not be decoded.
#[derive(Clone, Copy, Debug, PartialEq, Eq, Structural)]
pub enum ContainerError {
    /// Not a WAVE container, or its header or chunk structure is corrupt.
    Unreadable,
    /// A readable container whose encoding the pipeline does not decode.
    UnsupportedFormat,
}

/// Why a sample sequence could not be normalized.
#[derive(Clone, Copy, Debug, PartialEq, Eq, Structural)]
pub enum FormatError {
    /// The descriptor names a bit depth other than 16 or 32.
    UnsupportedBitDepth,
}

impl AudioFormatDescriptor {
    /// The bit depth as one of the supported encodings, if it is one.
    pub open spec fn spec_bit_depth(self) -> Option<BitDepth> {
        if self.bits_per_sample == 16 {
            Some(BitDepth::Sixteen)
        } else if self.bits_per_sample == 32 {
            Some(BitDepth::ThirtyTwo)
        } else {
            None
        }
    }

    /// Both the bit depth and the channel count are ones the pipeline decodes.
    pub open spec fn spec_is_supported(self) -> bool {
        &&& self.spec_bit_depth() is Some
        &&& (self.channel_count == 1 || self.channel_count == 2)
    }

    /// The sample rate is the one the recognition engine expects.
    pub open spec fn spec_rate_matches(self) -> bool {
        self.sample_rate == EXPECTED_SAMPLE_RATE
    }

    /// The bit depth as one of the supported encodings, if it is one.
    #[verifier::when_used_as_spec(spec_bit_depth)]
    pub fn bit_depth(self) -> (depth: Option<BitDepth>)
        ensures
            depth == self.spec_bit_depth(),
    {
        if self.bits_per_sample == 16 {
            Some(BitDepth::Sixteen)
        } else if self.bits_per_sample == 32 {
            Some(BitDepth::ThirtyTwo)
        } else {
            None
        }
    }

    /// Whether the pipeline decodes this format.
    #[verifier::when_used_as_spec(spec_is_supported)]
    pub fn is_supported(self) -> (ok: bool)
        ensures
            ok == self.spec_is_supported(),
    {
        (self.bits_per_sample == 16 || self.bits_per_sample == 32) && (self.channel_count == 1
            || self.channel_count == 2)
    }

    /// Whether the sample rate is the expected one. A mismatch is worth a
    /// warning and nothing more: no operation fails on it.
    #[verifier::when_used_as_spec(spec_rate_matches)]
    pub fn rate_matches(self) -> (ok: bool)
        ensures
            ok == self.spec_rate_matches(),
    {
        self.sample_rate == EXPECTED_SAMPLE_RATE
    }

    /// Accepts a descriptor that the pipeline decodes and rejects every other.
    pub fn check(self) -> (r: Result<BitDepth, ContainerError>)
        ensures
            self.spec_is_supported() ==> r == Ok::<BitDepth, ContainerError>(
                self.spec_bit_depth().unwrap(),
            ),
            !self.spec_is_supported() ==> r == Err::<BitDepth, ContainerError>(
                ContainerError::UnsupportedFormat,
            ),
    {
        if self.channel_count != 1 && self.channel_count != 2 {
            return Err(ContainerError::UnsupportedFormat);
        }
        match self.bit_depth() {
            Some(depth) => Ok(depth),
            None => Err(ContainerError::UnsupportedFormat),
        }
    }

    /// The warning that a sample rate other than the expected one calls
    /// for.
    pub open spec fn warning_text(self) -> Seq<char> {
        "Warning: Whisper works best with 16kHz audio. Current: "@ + decimal(
            self.sample_rate as nat,
        ) + "Hz"@
    }

    /// The warning to show for the sample rate: none where it is the
    /// expected one, and otherwise a text that names the rate found.
    pub fn rate_warning(self) -> (warning: Option<String>)
        ensures
            self.spec_rate_matches() ==> warning is None,
            !self.spec_rate_matches() ==> warning is Some && warning.unwrap()@
                == self.warning_text(),
    {
        if self.sample_rate == EXPECTED_SAMPLE_RATE {
            return None;
        }
        let mut text = String::from_str("Warning: Whisper works best with 16kHz audio. Current: ");
        let rate = format_decimal(self.sample_rate as u64);
        text.append(rate.as_str());
        text.append("Hz");
        Some(text)
    }
}

impl FormatError {
    /// What to tell the user of the error, for samples of the given
    /// descriptor.
    pub open spec fn spec_message(self, format: AudioFormatDescriptor) -> Seq<char> {
        "Unsupported bit depth: "@ + decimal(format.bits_per_sample as nat)
    }

    /// What to tell the user of the error, for samples of the given
    /// descriptor.
    pub fn message(&self, format: &AudioFormatDescriptor) -> (text: String)
        ensures
            text@ == self.spec_message(*format),
    {
        let mut text = String::from_str("Unsupported bit depth: ");
        let bits = format_decimal(format.bits_per_sample as u64);
        text.append(bits.as_str());
        text
    }
}

impl ContainerError {
    /// What to tell the user of the error, for the file at `path`.
    pub open spec fn spec_message(self, path: Seq<char>) -> Seq<char> {
        match self {
            ContainerError::Unreadable => "Failed to read '"@ + path + "' as a WAVE file"@,
            ContainerError::UnsupportedFormat => "The format of '"@ + path + "' is not supported"@,
        }
    }

    /// What to tell the user of the error, for the file at `path`.
    pub fn message(&self, path: &str) -> (text: String)
        ensures
            text@ == self.spec_message(path@),
    {
        match self {
            ContainerError::Unreadable => {
                let mut text = String::from_str("Failed to read '");
                text.append(path);
                text.append("' as a WAVE file");
                text
            },
            ContainerError::UnsupportedFormat => {
                let mut text = String::from_str("The format of '");
                text.append(path);
                text.append("' is not supported");
                text
            },
        }
    }
}

} // verus!
