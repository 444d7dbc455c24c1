use ruststt::format::{AudioFormatDescriptor, FormatError};
use ruststt::normalize::{normalize, NormalizedAudioBuffer, RawSampleSequence};
use ruststt::sample::Sample;

fn format(bits_per_sample: u16, channel_count: u16) -> AudioFormatDescriptor {
    AudioFormatDescriptor { sample_rate: 16000, channel_count, bits_per_sample }
}

fn floats(values: &[f32]) -> RawSampleSequence {
    RawSampleSequence::Float32(values.iter().map(|v| Sample::from_bits(v.to_bits())).collect())
}

fn values(buffer: &NormalizedAudioBuffer) -> Vec<f32> {
    buffer.samples.iter().map(|s| f32::from_bits(s.to_bits())).collect()
}

#[test]
fn mono_pcm16_is_divided_by_32768() {
    let raw = RawSampleSequence::Pcm16(vec![16384, -16384]);
    let out = normalize(&format(16, 1), &raw).unwrap();
    assert_eq!(values(&out), vec![0.5, -0.5]);
}

#[test]
fn stereo_pcm16_is_averaged() {
    let raw = RawSampleSequence::Pcm16(vec![16384, 16384, -32768, 0]);
    let out = normalize(&format(16, 2), &raw).unwrap();
    assert_eq!(values(&out), vec![0.5, -0.5]);
}

#[test]
fn stereo_float32_is_averaged() {
    let raw = floats(&[1.0, -1.0, 0.5, 0.5]);
    let out = normalize(&format(32, 2), &raw).unwrap();
    assert_eq!(values(&out), vec![0.0, 0.5]);
    assert_eq!(out.samples[0].to_bits(), 0);
}

#[test]
fn mono_float32_passes_through() {
    let raw = floats(&[0.25, -0.75, 0.0, 1.0, -1.0, 1.0e-40]);
    let out = normalize(&format(32, 1), &raw).unwrap();
    assert_eq!(values(&out), vec![0.25, -0.75, 0.0, 1.0, -1.0, 1.0e-40]);
}

#[test]
fn mono_float32_keeps_every_bit_pattern() {
    let patterns = vec![0x7fc0_0001u32, 0xffff_ffff, 0x8000_0000, 0x7f80_0000, 0x0000_0001];
    let raw = RawSampleSequence::Float32(patterns.iter().map(|b| Sample::from_bits(*b)).collect());
    let out = normalize(&format(32, 1), &raw).unwrap();
    let bits: Vec<u32> = out.samples.iter().map(|s| s.to_bits()).collect();
    assert_eq!(bits, patterns);
}

#[test]
fn odd_stereo_input_drops_the_unpaired_sample() {
    let raw = RawSampleSequence::Pcm16(vec![100, 200, 300, 400, 500]);
    let out = normalize(&format(16, 2), &raw).unwrap();
    assert_eq!(out.samples.len(), 2);
    let even = RawSampleSequence::Pcm16(vec![100, 200, 300, 400]);
    assert_eq!(out.samples, normalize(&format(16, 2), &even).unwrap().samples);

    let raw = floats(&[0.1, 0.2, 0.3, 0.4, 0.5]);
    let out = normalize(&format(32, 2), &raw).unwrap();
    assert_eq!(out.samples.len(), 2);
    assert_eq!(values(&out), vec![(0.1f32 + 0.2f32) / 2.0, (0.3f32 + 0.4f32) / 2.0]);
}

#[test]
fn one_sample_per_frame_for_every_supported_format() {
    for n in 0..9usize {
        let ints = RawSampleSequence::Pcm16(vec![7; n]);
        let reals = floats(&vec![0.5; n]);
        assert_eq!(ints.len(), n);
        assert_eq!(normalize(&format(16, 1), &ints).unwrap().samples.len(), n);
        assert_eq!(normalize(&format(16, 2), &ints).unwrap().samples.len(), n / 2);
        assert_eq!(normalize(&format(32, 1), &reals).unwrap().samples.len(), n);
        assert_eq!(normalize(&format(32, 2), &reals).unwrap().samples.len(), n / 2);
    }
}

#[test]
fn empty_input_gives_an_empty_buffer() {
    assert!(normalize(&format(16, 1), &RawSampleSequence::Pcm16(vec![])).unwrap().samples.is_empty());
    assert!(normalize(&format(16, 2), &RawSampleSequence::Pcm16(vec![1])).unwrap().samples.is_empty());
    assert!(normalize(&format(32, 2), &floats(&[])).unwrap().samples.is_empty());
}

#[test]
fn normalized_pcm16_stays_within_unit_range() {
    let extremes = vec![-32768i16, -32768, 32767, 32767, -32768, 32767, 0, -1, 1, 0];
    let raw = RawSampleSequence::Pcm16(extremes);
    for channels in [1u16, 2] {
        let out = normalize(&format(16, channels), &raw).unwrap();
        for s in &out.samples {
            assert!(s.in_unit_range());
            let v = f32::from_bits(s.to_bits());
            assert!((-1.0..=1.0).contains(&v));
        }
    }
    let out = normalize(&format(16, 1), &RawSampleSequence::Pcm16(vec![-32768, 32767])).unwrap();
    assert_eq!(values(&out), vec![-1.0, 32767.0 / 32768.0]);
}

#[test]
fn normalized_float32_stays_within_unit_range() {
    let raw = floats(&[1.0, 1.0, -1.0, -1.0, 1.0, -1.0, 0.999_999_94, 1.0, -0.0, 0.0, 1.0e-45, 1.0]);
    let out = normalize(&format(32, 2), &raw).unwrap();
    assert_eq!(out.samples.len(), 6);
    for s in &out.samples {
        assert!(s.in_unit_range());
    }
    assert_eq!(values(&out)[0], 1.0);
    assert_eq!(values(&out)[1], -1.0);
}

#[test]
fn unsupported_bit_depth_is_rejected() {
    let ints = RawSampleSequence::Pcm16(vec![1, 2, 3, 4]);
    let reals = floats(&[0.5, 0.25]);
    for bits in [0u16, 8, 15, 17, 24, 31, 33, 64, 65535] {
        for channels in [0u16, 1, 2, 3] {
            assert_eq!(normalize(&format(bits, channels), &ints).unwrap_err(), FormatError::UnsupportedBitDepth);
            assert_eq!(normalize(&format(bits, channels), &reals).unwrap_err(), FormatError::UnsupportedBitDepth);
        }
    }
}

#[test]
fn sample_rate_mismatch_is_not_an_error() {
    let raw = RawSampleSequence::Pcm16(vec![16384, -16384, 8192, 0]);
    let expected = normalize(&format(16, 2), &raw).unwrap();
    for rate in [0u32, 8000, 44100, 48000, u32::MAX] {
        let other = AudioFormatDescriptor { sample_rate: rate, channel_count: 2, bits_per_sample: 16 };
        assert!(!other.rate_matches());
        let out = normalize(&other, &raw).unwrap();
        assert_eq!(out.samples.len(), 2);
        assert_eq!(out.samples, expected.samples);
    }
    assert!(format(16, 2).rate_matches());
}

#[test]
fn other_channel_counts_are_read_as_mono() {
    let raw = RawSampleSequence::Pcm16(vec![16384, -16384, 0]);
    for channels in [0u16, 3, 6] {
        let out = normalize(&format(16, channels), &raw).unwrap();
        assert_eq!(values(&out), vec![0.5, -0.5, 0.0]);
    }
}

#[test]
fn samples_know_the_encoding_they_belong_to() {
    let ints = RawSampleSequence::Pcm16(vec![1]);
    let reals = floats(&[0.5]);
    assert!(ints.typed_for(format(16, 1)));
    assert!(!ints.typed_for(format(32, 1)));
    assert!(reals.typed_for(format(32, 2)));
    assert!(!reals.typed_for(format(16, 2)));
    assert!(ints.typed_for(format(24, 1)));
    assert!(reals.typed_for(format(24, 1)));
}
