use ruststt::format::{AudioFormatDescriptor, ContainerError, FormatError};
use ruststt::repair::{tool_program, PipelineError};

fn format(sample_rate: u32, bits_per_sample: u16) -> AudioFormatDescriptor {
    AudioFormatDescriptor { sample_rate, channel_count: 1, bits_per_sample }
}

#[test]
fn expected_rate_needs_no_warning() {
    assert_eq!(format(16000, 16).rate_warning(), None);
}

#[test]
fn other_rates_are_warned_of() {
    assert_eq!(
        format(44100, 16).rate_warning(),
        Some("Warning: Whisper works best with 16kHz audio. Current: 44100Hz".to_string())
    );
    assert_eq!(
        format(0, 32).rate_warning(),
        Some("Warning: Whisper works best with 16kHz audio. Current: 0Hz".to_string())
    );
    assert_eq!(
        format(u32::MAX, 32).rate_warning(),
        Some("Warning: Whisper works best with 16kHz audio. Current: 4294967295Hz".to_string())
    );
}

#[test]
fn format_error_names_the_bit_depth() {
    assert_eq!(FormatError::UnsupportedBitDepth.message(&format(16000, 24)), "Unsupported bit depth: 24");
    assert_eq!(FormatError::UnsupportedBitDepth.message(&format(16000, 0)), "Unsupported bit depth: 0");
}

#[test]
fn container_errors_name_the_file() {
    assert_eq!(ContainerError::Unreadable.message("a.wav"), "Failed to read 'a.wav' as a WAVE file");
    assert_eq!(ContainerError::UnsupportedFormat.message("a.wav"), "The format of 'a.wav' is not supported");
}

#[test]
fn pipeline_errors_carry_the_diagnostic_verbatim() {
    assert_eq!(
        PipelineError::RepairToolFailed("line one\nline two \u{e9}\n".to_string()).message("a.wav"),
        "ffmpeg failed to repair the file. Is ffmpeg installed and in your PATH?\nffmpeg stderr: line one\nline two \u{e9}\n"
    );
    assert_eq!(
        PipelineError::RepairToolUnavailable.message("a.wav"),
        "ffmpeg could not be started. Is ffmpeg installed and in your PATH?"
    );
    assert_eq!(
        PipelineError::ReplaceFailed("Permission denied (os error 13)".to_string()).message("dir/a.wav"),
        "Failed to replace 'dir/a.wav': Permission denied (os error 13)"
    );
    assert_eq!(
        PipelineError::StillUnreadableAfterRepair.message("a.wav"),
        "Failed to open the now-repaired file 'a.wav'"
    );
    assert_eq!(PipelineError::UnsupportedFormat.message("a.wav"), "The format of 'a.wav' is not supported");
}

#[test]
fn the_repair_tool_is_ffmpeg() {
    assert_eq!(tool_program(), "ffmpeg");
}
