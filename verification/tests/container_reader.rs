use ruststt::container::{decode_float32, describe, open, WavHeader};
use ruststt::format::{AudioFormatDescriptor, BitDepth, ContainerError};
use ruststt::normalize::RawSampleSequence;
use ruststt::sample::Sample;

fn wav_i16(channels: u16, sample_rate: u32, samples: &[i16]) -> Vec<u8> {
    let spec = hound::WavSpec {
        channels,
        sample_rate,
        bits_per_sample: 16,
        sample_format: hound::SampleFormat::Int,
    };
    let mut cursor = std::io::Cursor::new(Vec::new());
    {
        let mut writer = hound::WavWriter::new(&mut cursor, spec).unwrap();
        for s in samples {
            writer.write_sample(*s).unwrap();
        }
        writer.finalize().unwrap();
    }
    cursor.into_inner()
}

fn wav_f32(channels: u16, sample_rate: u32, samples: &[f32]) -> Vec<u8> {
    let spec = hound::WavSpec {
        channels,
        sample_rate,
        bits_per_sample: 32,
        sample_format: hound::SampleFormat::Float,
    };
    let mut cursor = std::io::Cursor::new(Vec::new());
    {
        let mut writer = hound::WavWriter::new(&mut cursor, spec).unwrap();
        for s in samples {
            writer.write_sample(*s).unwrap();
        }
        writer.finalize().unwrap();
    }
    cursor.into_inner()
}

fn wav_int(channels: u16, bits: u16, samples: &[i32]) -> Vec<u8> {
    let spec = hound::WavSpec {
        channels,
        sample_rate: 16000,
        bits_per_sample: bits,
        sample_format: hound::SampleFormat::Int,
    };
    let mut cursor = std::io::Cursor::new(Vec::new());
    {
        let mut writer = hound::WavWriter::new(&mut cursor, spec).unwrap();
        for s in samples {
            writer.write_sample(*s).unwrap();
        }
        writer.finalize().unwrap();
    }
    cursor.into_inner()
}

fn chunk(tag: &[u8; 4], body: &[u8]) -> Vec<u8> {
    let mut out = tag.to_vec();
    out.extend_from_slice(&(body.len() as u32).to_le_bytes());
    out.extend_from_slice(body);
    out
}

fn riff(chunks: &[Vec<u8>]) -> Vec<u8> {
    let mut body = b"WAVE".to_vec();
    for c in chunks {
        body.extend_from_slice(c);
    }
    let mut out = b"RIFF".to_vec();
    out.extend_from_slice(&(body.len() as u32).to_le_bytes());
    out.extend_from_slice(&body);
    out
}

fn fmt_chunk(tag: u16, channels: u16, rate: u32, bits: u16) -> Vec<u8> {
    let align = channels * (bits / 8);
    let mut body = Vec::new();
    body.extend_from_slice(&tag.to_le_bytes());
    body.extend_from_slice(&channels.to_le_bytes());
    body.extend_from_slice(&rate.to_le_bytes());
    body.extend_from_slice(&(rate * align as u32).to_le_bytes());
    body.extend_from_slice(&align.to_le_bytes());
    body.extend_from_slice(&bits.to_le_bytes());
    chunk(b"fmt ", &body)
}

fn pcm16_of(raw: &RawSampleSequence) -> Vec<i16> {
    match raw {
        RawSampleSequence::Pcm16(v) => v.clone(),
        RawSampleSequence::Float32(_) => panic!("expected 16-bit samples"),
    }
}

fn floats_of(raw: &RawSampleSequence) -> Vec<f32> {
    match raw {
        RawSampleSequence::Float32(v) => v.iter().map(|s| f32::from_bits(s.to_bits())).collect(),
        RawSampleSequence::Pcm16(_) => panic!("expected binary32 samples"),
    }
}

#[test]
fn opens_mono_pcm16() {
    let bytes = wav_i16(1, 16000, &[0, 1, -1, 32767, -32768, 16384]);
    let (format, raw) = open(&bytes).unwrap();
    assert_eq!(format, AudioFormatDescriptor { sample_rate: 16000, channel_count: 1, bits_per_sample: 16 });
    assert_eq!(pcm16_of(&raw), vec![0, 1, -1, 32767, -32768, 16384]);
    assert!(format.is_supported());
    assert!(raw.typed_for(format));
}

#[test]
fn opens_stereo_pcm16_at_another_rate() {
    let bytes = wav_i16(2, 44100, &[10, -10, 20, -20]);
    let (format, raw) = open(&bytes).unwrap();
    assert_eq!(format, AudioFormatDescriptor { sample_rate: 44100, channel_count: 2, bits_per_sample: 16 });
    assert_eq!(pcm16_of(&raw), vec![10, -10, 20, -20]);
    assert!(!format.rate_matches());
}

#[test]
fn opens_float32_as_hound_reads_it() {
    let samples = [0.0f32, -0.0, 1.0, -1.0, 0.5, 1.0e-40, 3.5, -0.333_333_34];
    for channels in [1u16, 2] {
        let bytes = wav_f32(channels, 16000, &samples);
        let (format, raw) = open(&bytes).unwrap();
        assert_eq!(format.bits_per_sample, 32);
        assert_eq!(format.channel_count, channels);
        let theirs: Vec<f32> = hound::WavReader::new(std::io::Cursor::new(&bytes))
            .unwrap()
            .into_samples::<f32>()
            .map(|s| s.unwrap())
            .collect();
        let ours = floats_of(&raw);
        assert_eq!(ours.len(), theirs.len());
        for (a, b) in ours.iter().zip(theirs.iter()) {
            assert_eq!(a.to_bits(), b.to_bits());
        }
        assert!(raw.typed_for(format));
    }
}

#[test]
fn finds_the_data_behind_other_chunks() {
    let mut data = Vec::new();
    for v in [0.25f32, -0.5, 0.75] {
        data.extend_from_slice(&v.to_le_bytes());
    }
    let bytes = riff(&[
        chunk(b"LIST", b"INFOISFT\x04\x00\x00\x00abc\x00"),
        fmt_chunk(3, 1, 16000, 32),
        chunk(b"fact", &3u32.to_le_bytes()),
        chunk(b"junk", &[1, 2, 3, 4, 5, 6]),
        chunk(b"data", &data),
        chunk(b"LIST", b"tail"),
    ]);
    let (format, raw) = open(&bytes).unwrap();
    assert_eq!(format.channel_count, 1);
    assert_eq!(floats_of(&raw), vec![0.25, -0.5, 0.75]);
}

#[test]
fn empty_data_chunk_gives_no_samples() {
    let (_, raw) = open(&wav_i16(1, 16000, &[])).unwrap();
    assert_eq!(raw.len(), 0);
    let (_, raw) = open(&wav_f32(2, 16000, &[])).unwrap();
    assert_eq!(raw.len(), 0);
}

#[test]
fn rejects_what_is_no_wave_image() {
    assert_eq!(open(&[]).unwrap_err(), ContainerError::Unreadable);
    assert_eq!(open(b"RIFF").unwrap_err(), ContainerError::Unreadable);
    assert_eq!(open(b"not a wave file at all, just text").unwrap_err(), ContainerError::Unreadable);
    let mut bytes = wav_i16(1, 16000, &[1, 2, 3]);
    bytes[8] = b'X';
    assert_eq!(open(&bytes).unwrap_err(), ContainerError::Unreadable);
}

#[test]
fn rejects_an_inaccurate_data_length() {
    let mut bytes = riff(&[fmt_chunk(1, 2, 16000, 16)]);
    bytes.extend_from_slice(b"data");
    bytes.extend_from_slice(&0xffff_ffffu32.to_le_bytes());
    bytes.extend_from_slice(&[1, 0, 2, 0, 3, 0, 4, 0]);
    assert_eq!(open(&bytes).unwrap_err(), ContainerError::Unreadable);
}

#[test]
fn rejects_sample_data_that_ends_early() {
    let mut bytes = wav_i16(1, 16000, &[1, 2, 3, 4]);
    bytes.truncate(bytes.len() - 3);
    assert_eq!(open(&bytes).unwrap_err(), ContainerError::Unreadable);
    let mut bytes = wav_f32(1, 16000, &[0.5, 0.25]);
    bytes.truncate(bytes.len() - 1);
    assert_eq!(open(&bytes).unwrap_err(), ContainerError::Unreadable);
}

#[test]
fn rejects_unsupported_bit_depths() {
    assert_eq!(open(&wav_int(1, 8, &[1, 2])).unwrap_err(), ContainerError::UnsupportedFormat);
    assert_eq!(open(&wav_int(1, 24, &[1, 2])).unwrap_err(), ContainerError::UnsupportedFormat);
    assert_eq!(open(&wav_int(2, 32, &[1, 2])).unwrap_err(), ContainerError::UnsupportedFormat);
}

#[test]
fn rejects_unsupported_channel_counts() {
    assert_eq!(open(&wav_i16(3, 16000, &[1, 2, 3])).unwrap_err(), ContainerError::UnsupportedFormat);
    assert_eq!(open(&wav_f32(6, 16000, &[0.0; 6])).unwrap_err(), ContainerError::UnsupportedFormat);
}

#[test]
fn describe_accepts_exactly_the_supported_headers() {
    for channels in [0u16, 1, 2, 3] {
        for bits in [8u16, 16, 24, 32] {
            for ieee in [false, true] {
                let header = WavHeader {
                    channels,
                    sample_rate: 22050,
                    bits_per_sample: bits,
                    ieee,
                    sample_count: 0,
                    data_offset: 44,
                };
                let supported = (channels == 1 || channels == 2)
                    && ((bits == 16 && !ieee) || (bits == 32 && ieee));
                match describe(&header) {
                    Ok((format, depth)) => {
                        assert!(supported);
                        assert_eq!(format.sample_rate, 22050);
                        assert_eq!(format.channel_count, channels);
                        assert_eq!(format.bits_per_sample, bits);
                        assert_eq!(depth, if bits == 16 { BitDepth::Sixteen } else { BitDepth::ThirtyTwo });
                        assert_eq!(format.check(), Ok(depth));
                    }
                    Err(e) => {
                        assert!(!supported);
                        assert_eq!(e, ContainerError::UnsupportedFormat);
                    }
                }
            }
        }
    }
}

#[test]
fn decode_float32_reads_little_endian_words() {
    let bytes = [0xaau8, 0x00, 0x00, 0x80, 0x3f, 0x01, 0x02, 0x03, 0x04, 0xff];
    let out = decode_float32(&bytes, 1, 2).unwrap();
    assert_eq!(out, vec![Sample::from_bits(0x3f80_0000), Sample::from_bits(0x0403_0201)]);
    assert_eq!(decode_float32(&bytes, 1, 0).unwrap(), vec![]);
    assert_eq!(decode_float32(&bytes, 10, 0).unwrap(), vec![]);
    assert_eq!(decode_float32(&bytes, 2, 2).unwrap().len(), 2);
    assert_eq!(decode_float32(&bytes, 3, 2).unwrap_err(), ContainerError::Unreadable);
    assert_eq!(decode_float32(&bytes, 11, 0).unwrap_err(), ContainerError::Unreadable);
    assert_eq!(decode_float32(&bytes, u64::MAX, 1).unwrap_err(), ContainerError::Unreadable);
    assert_eq!(decode_float32(&bytes, 0, u32::MAX).unwrap_err(), ContainerError::Unreadable);
}

#[test]
fn format_checks() {
    let f = AudioFormatDescriptor { sample_rate: 16000, channel_count: 2, bits_per_sample: 32 };
    assert_eq!(f.bit_depth(), Some(BitDepth::ThirtyTwo));
    assert!(f.is_supported());
    assert_eq!(f.check(), Ok(BitDepth::ThirtyTwo));
    let f = AudioFormatDescriptor { sample_rate: 16000, channel_count: 1, bits_per_sample: 24 };
    assert_eq!(f.bit_depth(), None);
    assert!(!f.is_supported());
    assert_eq!(f.check(), Err(ContainerError::UnsupportedFormat));
    let f = AudioFormatDescriptor { sample_rate: 16000, channel_count: 0, bits_per_sample: 16 };
    assert_eq!(f.bit_depth(), Some(BitDepth::Sixteen));
    assert_eq!(f.check(), Err(ContainerError::UnsupportedFormat));
}
