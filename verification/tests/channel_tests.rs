use signal_inspector::{Channel, Sample};

fn collect_all(channel: &Channel) -> Vec<Sample> {
    let mut out = Vec::new();
    let mut iter = channel.iter();
    while let Some(s) = iter.next() {
        out.push(s);
    }
    out
}

#[test]
fn round_trip_i16_every_bit_depth() {
    let samples: Vec<i16> = vec![0, 1, -1, 32767, -32768, 12345, -12345, 256, -257];
    for bits in 1..=16u16 {
        let channel = Channel::from_samples_i16(&samples, bits, 44100);
        let decoded = collect_all(&channel);
        assert_eq!(decoded.len(), samples.len());
        for (i, s) in samples.iter().enumerate() {
            assert_eq!(decoded[i], Sample::Int16(*s));
        }
    }
}

#[test]
fn round_trip_i8() {
    let samples: Vec<i8> = vec![0, 1, -1, 127, -128, 64, -65];
    let channel = Channel::from_samples_i8(&samples, 8, 8000);
    let decoded = collect_all(&channel);
    assert_eq!(decoded.len(), samples.len());
    for (i, s) in samples.iter().enumerate() {
        assert_eq!(decoded[i], Sample::Int8(*s));
    }
}

#[test]
fn round_trip_i32() {
    let samples: Vec<i32> = vec![0, 1, -1, i32::MAX, i32::MIN, 8_388_607, -8_388_608];
    let channel = Channel::from_samples_i32(&samples, 24, 48000);
    let decoded = collect_all(&channel);
    assert_eq!(decoded.len(), samples.len());
    for (i, s) in samples.iter().enumerate() {
        assert_eq!(decoded[i], Sample::Int32(*s));
    }
}

#[test]
fn round_trip_f32_bit_patterns() {
    let values: Vec<f32> = vec![0.0, -0.0, 1.0, -1.0, 0.5, f32::MAX, f32::MIN, 1.0e-40];
    let bits: Vec<u32> = values.iter().map(|v| v.to_bits()).collect();
    let channel = Channel::from_samples_f32(&bits, 32, 44100);
    let decoded = collect_all(&channel);
    assert_eq!(decoded.len(), values.len());
    for (i, v) in values.iter().enumerate() {
        assert_eq!(decoded[i], Sample::Float32(v.to_bits()));
    }
}

#[test]
fn count_agrees_with_iter_for_every_format() {
    let c8 = Channel::from_samples_i8(&vec![1, 2, 3], 5, 100);
    assert_eq!(c8.count(), collect_all(&c8).len());
    for bits in [1u16, 7, 8, 9, 12, 16] {
        let c16 = Channel::from_samples_i16(&vec![10, -10, 20, -20, 30], bits, 100);
        assert_eq!(c16.count(), 5);
        assert_eq!(c16.count(), collect_all(&c16).len());
    }
    for bits in [17u16, 24, 25, 32] {
        let c32 = Channel::from_samples_i32(&vec![7; 11], bits, 100);
        assert_eq!(c32.count(), 11);
        assert_eq!(c32.count(), collect_all(&c32).len());
    }
    let cf = Channel::from_samples_f32(&vec![1.5f32.to_bits(); 9], 32, 100);
    assert_eq!(cf.count(), 9);
    assert_eq!(cf.count(), collect_all(&cf).len());
}

#[test]
fn iter_is_restartable_and_independent() {
    let channel = Channel::from_samples_i16(&vec![4, 5, 6], 16, 100);
    let first: Vec<Sample> = collect_all(&channel);
    let second: Vec<Sample> = collect_all(&channel);
    assert_eq!(first, second);
    let mut a = channel.iter();
    let mut b = channel.iter();
    assert_eq!(a.next(), Some(Sample::Int16(4)));
    assert_eq!(a.next(), Some(Sample::Int16(5)));
    assert_eq!(b.next(), Some(Sample::Int16(4)));
    assert_eq!(a.next(), Some(Sample::Int16(6)));
    assert_eq!(a.next(), None);
    assert_eq!(a.next(), None);
}

#[test]
fn min_and_max_of_integer_channel() {
    let channel = Channel::from_samples_i16(&vec![5, -3, 17, -3, 17, 0], 16, 100);
    assert_eq!(channel.min(), Sample::Int16(-3));
    assert_eq!(channel.max(), Sample::Int16(17));
}

#[test]
fn min_and_max_of_empty_channel_are_the_upper_bound() {
    let channel = Channel::from_samples_i16(&vec![], 16, 100);
    assert_eq!(channel.min(), Sample::Int16(i16::MAX));
    assert_eq!(channel.max(), Sample::Int16(i16::MAX));
    let fchannel = Channel::from_samples_f32(&vec![], 32, 100);
    assert_eq!(fchannel.min(), Sample::Float32(f32::MAX.to_bits()));
    assert_eq!(fchannel.max(), Sample::Float32(f32::MAX.to_bits()));
}

#[test]
fn min_and_max_of_float_channel() {
    let values: Vec<f32> = vec![1.5, -2.25, 0.0, 100.0, -0.5];
    let bits: Vec<u32> = values.iter().map(|v| v.to_bits()).collect();
    let channel = Channel::from_samples_f32(&bits, 32, 100);
    assert_eq!(channel.min(), Sample::Float32((-2.25f32).to_bits()));
    assert_eq!(channel.max(), Sample::Float32(100.0f32.to_bits()));
}

#[test]
fn min_and_max_handle_negative_zero() {
    let bits: Vec<u32> = vec![0.0f32.to_bits(), (-0.0f32).to_bits()];
    let channel = Channel::from_samples_f32(&bits, 32, 100);
    // +0.0 and -0.0 compare equal: the minimum keeps the earliest, the
    // maximum the latest.
    assert_eq!(channel.min(), Sample::Float32(0.0f32.to_bits()));
    assert_eq!(channel.max(), Sample::Float32((-0.0f32).to_bits()));
}

#[test]
fn bounds_follow_the_storage_type() {
    let c8 = Channel::from_samples_i8(&vec![1], 3, 100);
    assert_eq!(c8.lower_bound(), Sample::Int8(i8::MIN));
    assert_eq!(c8.upper_bound(), Sample::Int8(i8::MAX));
    // A 12-bit depth stored in the 16-bit representation reports the
    // storage type's bounds, not the 12-bit range.
    let c16 = Channel::from_samples_i16(&vec![1], 12, 100);
    assert_eq!(c16.lower_bound(), Sample::Int16(-32768));
    assert_eq!(c16.upper_bound(), Sample::Int16(32767));
    let c32 = Channel::from_samples_i32(&vec![1], 24, 100);
    assert_eq!(c32.lower_bound(), Sample::Int32(i32::MIN));
    assert_eq!(c32.upper_bound(), Sample::Int32(i32::MAX));
    let cf = Channel::from_samples_f32(&vec![1.0f32.to_bits()], 32, 100);
    assert_eq!(cf.lower_bound(), Sample::Float32(f32::MIN.to_bits()));
    assert_eq!(cf.upper_bound(), Sample::Float32(f32::MAX.to_bits()));
}

#[test]
fn sample_rate_is_kept() {
    let channel = Channel::from_samples_i16(&vec![1, 2], 16, 22050);
    assert_eq!(channel.sample_rate(), 22050);
}

#[test]
fn sample_zero_tests() {
    assert!(Sample::Int8(0).is_zero());
    assert!(Sample::Int16(0).is_zero());
    assert!(Sample::Int32(0).is_zero());
    assert!(Sample::Float32(0.0f32.to_bits()).is_zero());
    assert!(Sample::Float32((-0.0f32).to_bits()).is_zero());
    assert!(!Sample::Int16(1).is_zero());
    assert!(!Sample::Float32(1.0f32.to_bits()).is_zero());
    assert_eq!(Sample::Int16(35).into_zero(), Sample::Int16(0));
    assert_eq!(Sample::Int8(-4).into_zero(), Sample::Int8(0));
    assert_eq!(Sample::Int32(9).into_zero(), Sample::Int32(0));
    assert_eq!(
        Sample::Float32((-12.5f32).to_bits()).into_zero(),
        Sample::Float32(0.0f32.to_bits())
    );
}

#[test]
fn min_and_max_of_a_single_nan_sample() {
    // With a single sample nothing is ever compared, so even a NaN float
    // channel yields it back.
    let bits: Vec<u32> = vec![f32::NAN.to_bits()];
    let channel = Channel::from_samples_f32(&bits, 32, 100);
    assert!(matches!(channel.min(), Sample::Float32(b) if f32::from_bits(b).is_nan()));
    assert!(matches!(channel.max(), Sample::Float32(b) if f32::from_bits(b).is_nan()));
}
