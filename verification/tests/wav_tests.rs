use std::io::Cursor;

use signal_inspector::{Channel, DecodeError, Sample, SampleFormat, Signal};

fn write_wav<S: hound::Sample + Copy>(
    channels: u16,
    sample_rate: u32,
    bits_per_sample: u16,
    sample_format: hound::SampleFormat,
    samples: &[S],
) -> Vec<u8> {
    let spec = hound::WavSpec { channels, sample_rate, bits_per_sample, sample_format };
    let mut cursor = Cursor::new(Vec::new());
    {
        let mut writer = hound::WavWriter::new(&mut cursor, spec).unwrap();
        for s in samples {
            writer.write_sample(*s).unwrap();
        }
        writer.finalize().unwrap();
    }
    cursor.into_inner()
}

fn channel_values_i16(channel: &Channel) -> Vec<i16> {
    let mut out = Vec::new();
    let mut iter = channel.iter();
    while let Some(s) = iter.next() {
        match s {
            Sample::Int16(v) => out.push(v),
            other => panic!("expected a 16-bit sample, got {:?}", other),
        }
    }
    out
}

fn sine_i16_samples() -> Vec<i16> {
    (0..1024)
        .map(|i| {
            let x = 2.0 * std::f64::consts::PI * (i as f64) / 1024.0;
            (x.sin() * 32767.0).round() as i16
        })
        .collect()
}

#[test]
fn mono_16_bit_sine_scenario() {
    let samples = sine_i16_samples();
    let bytes = write_wav(1, 44100, 16, hound::SampleFormat::Int, &samples);
    let signal = Signal::from_wav(&bytes).unwrap();
    assert!(matches!(signal, Signal::Mono(_)));
    let channel = signal.channel(0);
    assert_eq!(channel.count(), 1024);
    assert_eq!(channel.sample_rate(), 44100);
    assert_eq!(channel.lower_bound(), Sample::Int16(-32768));
    assert_eq!(channel.upper_bound(), Sample::Int16(32767));
    assert_eq!(channel_values_i16(channel), samples);
}

#[test]
fn stereo_interleaved_scenario() {
    let mut interleaved: Vec<i16> = Vec::new();
    for i in 1..=10i16 {
        interleaved.push(i);
        interleaved.push(-i);
    }
    let bytes = write_wav(2, 44100, 16, hound::SampleFormat::Int, &interleaved);
    let signal = Signal::from_wav(&bytes).unwrap();
    assert!(matches!(signal, Signal::Stereo(_, _)));
    let left: Vec<i16> = (1..=10).collect();
    let right: Vec<i16> = (1..=10).map(|i| -i).collect();
    assert_eq!(channel_values_i16(signal.channel(0)), left);
    assert_eq!(channel_values_i16(signal.channel(1)), right);
}

#[test]
fn three_channels_are_unsupported() {
    let samples: Vec<i16> = vec![1, 2, 3, 4, 5, 6];
    let bytes = write_wav(3, 44100, 16, hound::SampleFormat::Int, &samples);
    assert_eq!(Signal::from_wav(&bytes), Err(DecodeError::UnsupportedChannelCount(3)));
}

#[test]
fn eight_bit_samples_decode_signed() {
    let samples: Vec<i8> = vec![-128, -1, 0, 1, 127];
    let bytes = write_wav(1, 8000, 8, hound::SampleFormat::Int, &samples);
    let signal = Signal::from_wav(&bytes).unwrap();
    let channel = signal.channel(0);
    assert_eq!(channel.count(), samples.len());
    let mut iter = channel.iter();
    for s in &samples {
        assert_eq!(iter.next(), Some(Sample::Int8(*s)));
    }
    assert_eq!(iter.next(), None);
}

#[test]
fn twenty_four_bit_samples_sign_extend() {
    let samples: Vec<i32> = vec![-8_388_608, -1, 0, 1, 8_388_607, -42];
    let bytes = write_wav(1, 48000, 24, hound::SampleFormat::Int, &samples);
    let signal = Signal::from_wav(&bytes).unwrap();
    let channel = signal.channel(0);
    assert_eq!(channel.count(), samples.len());
    let mut iter = channel.iter();
    for s in &samples {
        assert_eq!(iter.next(), Some(Sample::Int32(*s)));
    }
}

#[test]
fn thirty_two_bit_integer_samples() {
    let samples: Vec<i32> = vec![i32::MIN, -1, 0, 1, i32::MAX];
    let bytes = write_wav(1, 96000, 32, hound::SampleFormat::Int, &samples);
    let signal = Signal::from_wav(&bytes).unwrap();
    let channel = signal.channel(0);
    let mut iter = channel.iter();
    for s in &samples {
        assert_eq!(iter.next(), Some(Sample::Int32(*s)));
    }
}

#[test]
fn float_samples_keep_their_bit_patterns() {
    let samples: Vec<f32> = vec![0.0, 1.0, -1.0, 0.5, -0.25, 2.5];
    let bytes = write_wav(2, 44100, 32, hound::SampleFormat::Float, &samples);
    let signal = Signal::from_wav(&bytes).unwrap();
    assert!(matches!(signal, Signal::Stereo(_, _)));
    let mut left = signal.channel(0).iter();
    assert_eq!(left.next(), Some(Sample::Float32(0.0f32.to_bits())));
    assert_eq!(left.next(), Some(Sample::Float32((-1.0f32).to_bits())));
    assert_eq!(left.next(), Some(Sample::Float32((-0.25f32).to_bits())));
    assert_eq!(left.next(), None);
    let mut right = signal.channel(1).iter();
    assert_eq!(right.next(), Some(Sample::Float32(1.0f32.to_bits())));
    assert_eq!(right.next(), Some(Sample::Float32(0.5f32.to_bits())));
    assert_eq!(right.next(), Some(Sample::Float32(2.5f32.to_bits())));
    assert_eq!(right.next(), None);
}

#[test]
fn decoded_samples_agree_with_hound() {
    let samples = sine_i16_samples();
    let bytes = write_wav(1, 44100, 16, hound::SampleFormat::Int, &samples);
    let signal = Signal::from_wav(&bytes).unwrap();
    let ours = channel_values_i16(signal.channel(0));
    let reader = hound::WavReader::new(Cursor::new(bytes)).unwrap();
    let theirs: Vec<i16> = reader.into_samples::<i16>().map(|r| r.unwrap()).collect();
    assert_eq!(ours, theirs);
}

fn manual_wav(tag: u16, channels: u16, rate: u32, bits: u16, data: &[u8]) -> Vec<u8> {
    let mut out = Vec::new();
    out.extend_from_slice(b"RIFF");
    let riff_len = 4 + 24 + 8 + data.len() as u32;
    out.extend_from_slice(&riff_len.to_le_bytes());
    out.extend_from_slice(b"WAVE");
    out.extend_from_slice(b"fmt ");
    out.extend_from_slice(&16u32.to_le_bytes());
    out.extend_from_slice(&tag.to_le_bytes());
    out.extend_from_slice(&channels.to_le_bytes());
    out.extend_from_slice(&rate.to_le_bytes());
    let byte_rate = rate * (channels as u32) * ((bits as u32 + 7) / 8);
    out.extend_from_slice(&byte_rate.to_le_bytes());
    let block_align = channels * ((bits + 7) / 8);
    out.extend_from_slice(&block_align.to_le_bytes());
    out.extend_from_slice(&bits.to_le_bytes());
    out.extend_from_slice(b"data");
    out.extend_from_slice(&(data.len() as u32).to_le_bytes());
    out.extend_from_slice(data);
    out
}

#[test]
fn malformed_inputs_are_rejected() {
    assert_eq!(Signal::from_wav(&vec![]), Err(DecodeError::Malformed));
    assert_eq!(Signal::from_wav(&vec![0x52, 0x49, 0x46, 0x46]), Err(DecodeError::Malformed));
    let mut bad_magic = manual_wav(1, 1, 44100, 16, &[0, 0]);
    bad_magic[0] = 0x51;
    assert_eq!(Signal::from_wav(&bad_magic), Err(DecodeError::Malformed));
    let mut bad_wave = manual_wav(1, 1, 44100, 16, &[0, 0]);
    bad_wave[8] = 0x58;
    assert_eq!(Signal::from_wav(&bad_wave), Err(DecodeError::Malformed));
}

#[test]
fn missing_or_short_data_chunk_is_malformed() {
    // No data chunk at all: cut the file right after the fmt chunk.
    let full = manual_wav(1, 1, 44100, 16, &[0, 0]);
    let without_data = full[..44 - 8].to_vec();
    assert_eq!(Signal::from_wav(&without_data), Err(DecodeError::Malformed));
    // The data chunk claims more bytes than the file holds.
    let mut short = manual_wav(1, 1, 44100, 16, &[0, 0]);
    let len_pos = short.len() - 2 - 4;
    short[len_pos] = 200;
    assert_eq!(Signal::from_wav(&short), Err(DecodeError::Malformed));
}

#[test]
fn data_ending_mid_frame_is_malformed() {
    // Three bytes of 16-bit mono data: one and a half samples.
    let bytes = manual_wav(1, 1, 44100, 16, &[1, 0, 2]);
    assert_eq!(Signal::from_wav(&bytes), Err(DecodeError::Malformed));
    // Six bytes of 16-bit stereo data is three samples: one and a half
    // frames.
    let bytes = manual_wav(1, 2, 44100, 16, &[1, 0, 2, 0, 3, 0]);
    assert_eq!(Signal::from_wav(&bytes), Err(DecodeError::Malformed));
}

#[test]
fn unknown_format_tag_is_malformed() {
    let bytes = manual_wav(2, 1, 44100, 16, &[0, 0]);
    assert_eq!(Signal::from_wav(&bytes), Err(DecodeError::Malformed));
}

#[test]
fn zero_channels_or_zero_rate_is_malformed() {
    let bytes = manual_wav(1, 0, 44100, 16, &[0, 0]);
    assert_eq!(Signal::from_wav(&bytes), Err(DecodeError::Malformed));
    let bytes = manual_wav(1, 1, 0, 16, &[0, 0]);
    assert_eq!(Signal::from_wav(&bytes), Err(DecodeError::Malformed));
}

#[test]
fn unsupported_format_combinations_are_reported() {
    let bytes = manual_wav(3, 1, 44100, 16, &[0, 0, 0, 0]);
    assert_eq!(
        Signal::from_wav(&bytes),
        Err(DecodeError::UnsupportedFormat { format: SampleFormat::Float, bits_per_sample: 16 })
    );
    let bytes = manual_wav(1, 1, 44100, 0, &[]);
    assert_eq!(
        Signal::from_wav(&bytes),
        Err(DecodeError::UnsupportedFormat { format: SampleFormat::Int, bits_per_sample: 0 })
    );
    let bytes = manual_wav(1, 1, 44100, 33, &[0; 5]);
    assert_eq!(
        Signal::from_wav(&bytes),
        Err(DecodeError::UnsupportedFormat { format: SampleFormat::Int, bits_per_sample: 33 })
    );
}

#[test]
fn five_channels_are_reported_with_their_count() {
    let bytes = manual_wav(1, 5, 44100, 16, &[0; 10]);
    assert_eq!(Signal::from_wav(&bytes), Err(DecodeError::UnsupportedChannelCount(5)));
}

#[test]
fn unknown_chunks_are_skipped() {
    // Splice an unrecognised chunk between fmt and data.
    let base = manual_wav(1, 1, 44100, 16, &[7, 0, 250, 255]);
    let mut spliced = base[..36].to_vec();
    spliced.extend_from_slice(b"LIST");
    spliced.extend_from_slice(&6u32.to_le_bytes());
    spliced.extend_from_slice(&[1, 2, 3, 4, 5, 6]);
    spliced.extend_from_slice(&base[36..]);
    let signal = Signal::from_wav(&spliced).unwrap();
    assert_eq!(channel_values_i16(signal.channel(0)), vec![7, -6]);
}

#[test]
fn twelve_bit_depth_uses_sixteen_bit_storage() {
    // 12 significant bits in two-byte containers.
    let bytes = manual_wav(1, 1, 44100, 12, &[0x34, 0x02, 0xcc, 0xfd]);
    let signal = Signal::from_wav(&bytes).unwrap();
    let channel = signal.channel(0);
    assert_eq!(channel.count(), 2);
    assert_eq!(channel_values_i16(channel), vec![0x0234, -0x0234]);
    assert_eq!(channel.lower_bound(), Sample::Int16(i16::MIN));
}
