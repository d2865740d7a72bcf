use audio_meter::buffer::RawBuffer;
use audio_meter::config::MeterConfig;
use audio_meter::decibels::{loudness_from_log, to_decibels_overload, Decibels};
use audio_meter::deinterleave::{deinterleave, interleave};
use audio_meter::format::{SampleEncoding, SampleFormat};
use audio_meter::loudness::{ceil_sqrt, root_mean_square, sum_of_squares, Rms, FULL_SCALE_Q31};
use audio_meter::report::{duration_micros, process_input_buffer, report_from_levels, BufferReport};
use audio_meter::sample::{normalize, CanonicalSample, RawSample};
use audio_meter::scale::{
    clamp, horizontal_scale, quantization_noise_ratio, scale_to_discrete_level, scale_to_intensity,
};
use audio_meter::snapshot::{LatestReport, SharedSnapshot};
use std::sync::Arc;

fn log20(rms: Rms) -> Decibels {
    let ratio = rms.q31 as f64 / FULL_SCALE_Q31 as f64;
    Decibels { millis: (20_000.0 * ratio.log10()).round() as i32 }
}

fn cd_stereo(encoding: SampleEncoding) -> SampleFormat {
    SampleFormat { encoding, channel_count: 2, sample_rate: 44100 }
}

fn canonical(numerators: &[i16]) -> Vec<CanonicalSample> {
    numerators.iter().map(|n| CanonicalSample { numerator: *n }).collect()
}

#[test]
fn silence_alone_measures_zero() {
    assert_eq!(root_mean_square(&canonical(&[0, 0, 0, 0])).q31, 0);
    assert_ne!(root_mean_square(&canonical(&[0, 0, 1, 0])).q31, 0);
    assert_ne!(root_mean_square(&canonical(&[0, 0, -1, 0])).q31, 0);
    let mut quiet = vec![0i16; 100_000];
    quiet[77] = 1;
    assert_ne!(root_mean_square(&canonical(&quiet)).q31, 0);
}

#[test]
fn root_mean_square_of_constant_signal() {
    assert_eq!(root_mean_square(&canonical(&[16384, -16384, 16384])).q31, FULL_SCALE_Q31 / 2);
    assert_eq!(root_mean_square(&canonical(&[-32768, -32768])).q31, FULL_SCALE_Q31);
    assert_eq!(root_mean_square(&canonical(&[1])).q31, 65536);
}

#[test]
fn root_mean_square_rounds_up() {
    // mean square of [1, 0] is 1/2 step^2: sqrt(2^32 / 2) = 46340.95...
    assert_eq!(root_mean_square(&canonical(&[1, 0])).q31, 46341);
    // 3, 4: mean square 12.5, root 3.5355... steps = 231704.75...
    assert_eq!(root_mean_square(&canonical(&[3, 4])).q31, 231705);
}

#[test]
fn sum_of_squares_is_exact() {
    assert_eq!(sum_of_squares(&canonical(&[3, -4, 0])), 25);
    assert_eq!(sum_of_squares(&canonical(&[-32768, 32767])), 1073741824 + 1073676289);
    assert_eq!(sum_of_squares(&canonical(&[])), 0);
}

#[test]
fn ceil_sqrt_is_least_root() {
    assert_eq!(ceil_sqrt(0), 0);
    assert_eq!(ceil_sqrt(1), 1);
    assert_eq!(ceil_sqrt(2), 2);
    assert_eq!(ceil_sqrt(9), 3);
    assert_eq!(ceil_sqrt(10), 4);
    assert_eq!(ceil_sqrt(16), 4);
    assert_eq!(ceil_sqrt(u64::MAX), 1 << 32);
    assert_eq!(ceil_sqrt((1u64 << 62) - 1), 1 << 31);
}

#[test]
fn full_scale_is_zero_decibels() {
    let floor = Decibels { millis: -96_329 };
    let full = Rms { q31: FULL_SCALE_Q31 };
    assert_eq!(to_decibels_overload(full, floor, &log20), Decibels { millis: 0 });
    let wrong = |_: Rms| Decibels { millis: -12_345 };
    assert_eq!(to_decibels_overload(full, floor, &wrong), Decibels { millis: 0 });
}

#[test]
fn silence_is_at_the_floor() {
    let floor = Decibels { millis: -96_329 };
    let refuses_zero = |rms: Rms| {
        assert!(rms.q31 > 0);
        log20(rms)
    };
    assert_eq!(to_decibels_overload(Rms { q31: 0 }, floor, &refuses_zero), floor);
    let other = Decibels { millis: -1 };
    assert_eq!(to_decibels_overload(Rms { q31: 0 }, other, &refuses_zero), other);
}

#[test]
fn decibels_of_half_scale() {
    let floor = Decibels { millis: -96_329 };
    let half = Rms { q31: FULL_SCALE_Q31 / 2 };
    assert_eq!(to_decibels_overload(half, floor, &log20), Decibels { millis: -6_021 });
    let tenth = Rms { q31: 214_748_365 };
    assert_eq!(to_decibels_overload(tenth, floor, &log20), Decibels { millis: -20_000 });
}

#[test]
fn decibels_below_the_floor_are_raised_to_it() {
    let floor = Decibels { millis: -60_000 };
    let one_step = Rms { q31: 1 };
    assert_eq!(to_decibels_overload(one_step, floor, &log20), floor);
}

#[test]
fn clipping_is_reported_not_capped() {
    let floor = Decibels { millis: -96_329 };
    let double = Rms { q31: 2 * FULL_SCALE_Q31 };
    assert_eq!(to_decibels_overload(double, floor, &log20), Decibels { millis: 6_021 });
}

#[test]
fn loudness_from_log_keeps_the_sign() {
    let floor = Decibels { millis: -90_000 };
    let quiet = Rms { q31: 1000 };
    let loud = Rms { q31: 3 * FULL_SCALE_Q31 };
    assert_eq!(loudness_from_log(quiet, floor, Decibels { millis: 5 }), Decibels { millis: 0 });
    assert_eq!(loudness_from_log(quiet, floor, Decibels { millis: -95_000 }), floor);
    assert_eq!(
        loudness_from_log(quiet, floor, Decibels { millis: -40_000 }),
        Decibels { millis: -40_000 }
    );
    assert_eq!(loudness_from_log(loud, floor, Decibels { millis: -5 }), Decibels { millis: 0 });
    assert_eq!(
        loudness_from_log(loud, floor, Decibels { millis: 9_542 }),
        Decibels { millis: 9_542 }
    );
}

#[test]
fn intensity_is_monotonic_and_bounded() {
    let floor = Decibels { millis: -96_000 };
    let mut previous = 0u32;
    let mut millis = -200_000;
    while millis <= 50_000 {
        let intensity = scale_to_intensity(Decibels { millis }, floor);
        assert!(intensity.numerator() <= intensity.denominator());
        assert_eq!(intensity.denominator(), 96_000);
        assert!(intensity.numerator() >= previous);
        previous = intensity.numerator();
        millis += 500;
    }
    assert_eq!(previous, 96_000);
}

#[test]
fn intensity_at_the_ends_and_between() {
    let floor = Decibels { millis: -96_000 };
    assert_eq!(scale_to_intensity(Decibels { millis: 0 }, floor).numerator(), 96_000);
    assert_eq!(scale_to_intensity(Decibels { millis: 3_000 }, floor).numerator(), 96_000);
    assert_eq!(scale_to_intensity(floor, floor).numerator(), 0);
    assert_eq!(scale_to_intensity(Decibels { millis: -120_000 }, floor).numerator(), 0);
    assert_eq!(scale_to_intensity(Decibels { millis: -48_000 }, floor).numerator(), 48_000);
    assert_eq!(scale_to_intensity(Decibels { millis: -24_000 }, floor).numerator(), 72_000);
    let lowest = Decibels { millis: i32::MIN };
    assert_eq!(scale_to_intensity(Decibels { millis: i32::MAX }, lowest).numerator(), 1 << 31);
    assert_eq!(scale_to_intensity(lowest, lowest).numerator(), 0);
}

#[test]
fn discrete_level_is_exact_at_the_ends() {
    let floor = Decibels { millis: -96_000 };
    let full = scale_to_intensity(Decibels { millis: 0 }, floor);
    let none = scale_to_intensity(floor, floor);
    for level_count in [1usize, 2, 3, 17, 1000, usize::MAX] {
        assert_eq!(scale_to_discrete_level(full, level_count), level_count - 1);
        assert_eq!(scale_to_discrete_level(none, level_count), 0);
    }
}

#[test]
fn discrete_level_rounds_to_nearest() {
    let floor = Decibels { millis: -96_000 };
    let half = scale_to_intensity(Decibels { millis: -48_000 }, floor);
    assert_eq!(scale_to_discrete_level(half, 17), 8);
    assert_eq!(scale_to_discrete_level(half, 2), 1);
    assert_eq!(scale_to_discrete_level(half, 4), 2);
    let just_under_half = scale_to_intensity(Decibels { millis: -48_001 }, floor);
    assert_eq!(scale_to_discrete_level(just_under_half, 2), 0);
    let third = scale_to_intensity(Decibels { millis: -64_000 }, floor);
    assert_eq!(scale_to_discrete_level(third, 17), 5);
}

#[test]
fn horizontal_scale_draws_the_level() {
    let floor = Decibels { millis: -96_000 };
    let half = scale_to_intensity(Decibels { millis: -48_000 }, floor);
    assert_eq!(horizontal_scale(half, 16), "========        ");
    let full = scale_to_intensity(Decibels { millis: 0 }, floor);
    assert_eq!(horizontal_scale(full, 16), "================");
    let none = scale_to_intensity(floor, floor);
    assert_eq!(horizontal_scale(none, 16), "                ");
    assert_eq!(horizontal_scale(full, 0), "");
    assert_eq!(horizontal_scale(half, 1), "=");
}

#[test]
fn clamp_keeps_within_bounds() {
    assert_eq!(clamp(5, 0, 10), 5);
    assert_eq!(clamp(-5, 0, 10), 0);
    assert_eq!(clamp(15, 0, 10), 10);
    assert_eq!(clamp(i64::MIN, -1, -1), -1);
}

#[test]
fn quantization_noise_of_sixteen_bits() {
    assert_eq!(quantization_noise_ratio(16), Decibels { millis: 96_329 });
    assert_eq!(quantization_noise_ratio(0), Decibels { millis: 0 });
    assert_eq!(quantization_noise_ratio(1), Decibels { millis: 6_020 });
    assert_eq!(quantization_noise_ratio(u16::MAX), Decibels { millis: 394_560_021 });
}

#[test]
fn deinterleave_takes_every_nth_sample() {
    let buffer: Vec<u8> = vec![10, 20, 30, 11, 21, 31, 12, 22, 32, 13, 23, 33];
    let channels = deinterleave(&buffer, 3);
    assert_eq!(channels, vec![vec![10, 11, 12, 13], vec![20, 21, 22, 23], vec![30, 31, 32, 33]]);
    assert_eq!(deinterleave(&buffer, 1), vec![buffer.clone()]);
    let empty: Vec<u8> = Vec::new();
    assert_eq!(deinterleave(&empty, 2), vec![Vec::<u8>::new(), Vec::new()]);
}

#[test]
fn deinterleave_then_interleave_gives_the_buffer_back() {
    let buffer: Vec<i16> = (0..240).map(|i| (i * 37 - 4000) as i16).collect();
    for channel_count in [1usize, 2, 3, 4, 5, 6, 8, 10, 12, 240] {
        let channels = deinterleave(&buffer, channel_count);
        assert_eq!(channels.len(), channel_count);
        assert_eq!(interleave(&channels), buffer);
    }
}

#[test]
fn interleave_then_deinterleave_gives_the_channels_back() {
    let channels = vec![vec![1u16, 2, 3], vec![4, 5, 6]];
    let buffer = interleave(&channels);
    assert_eq!(buffer, vec![1, 4, 2, 5, 3, 6]);
    assert_eq!(deinterleave(&buffer, 2), channels);
}

#[test]
fn extremes_normalize_to_minus_one_and_just_under_one() {
    assert_eq!(normalize(RawSample::SignedInt16(i16::MIN)).numerator, -32768);
    assert_eq!(normalize(RawSample::SignedInt16(i16::MAX)).numerator, 32767);
    assert_eq!(normalize(RawSample::UnsignedInt16(u16::MIN)).numerator, -32768);
    assert_eq!(normalize(RawSample::UnsignedInt16(u16::MAX)).numerator, 32767);
    let lowest = normalize(RawSample::SignedInt16(i16::MIN)).numerator as f64 / 32768.0;
    let highest = normalize(RawSample::SignedInt16(i16::MAX)).numerator as f64 / 32768.0;
    assert_eq!(lowest, -1.0);
    assert!(highest < 1.0);
}

#[test]
fn normalize_is_linear() {
    assert_eq!(normalize(RawSample::UnsignedInt16(32768)).numerator, 0);
    assert_eq!(normalize(RawSample::UnsignedInt16(32769)).numerator, 1);
    assert_eq!(normalize(RawSample::UnsignedInt16(49152)).numerator, 16384);
    assert_eq!(normalize(RawSample::SignedInt16(0)).numerator, 0);
    assert_eq!(normalize(RawSample::SignedInt16(-123)).numerator, -123);
}

#[test]
fn buffer_normalizes_every_sample() {
    let buffer = RawBuffer::UnsignedInt16(vec![0, 32768, 65535]);
    assert_eq!(buffer.to_canonical(), canonical(&[-32768, 0, 32767]));
    assert_eq!(buffer.len(), 3);
    assert_eq!(buffer.encoding(), SampleEncoding::UnsignedInt16);
    assert_eq!(buffer.sample(2), RawSample::UnsignedInt16(65535));
    let signed = RawBuffer::SignedInt16(vec![-5, 7]);
    assert_eq!(signed.to_canonical(), canonical(&[-5, 7]));
    assert_eq!(signed.encoding(), SampleEncoding::SignedInt16);
}

#[test]
fn buffer_geometry_is_checked() {
    let format = cd_stereo(SampleEncoding::SignedInt16);
    assert!(RawBuffer::SignedInt16(vec![0; 8]).fits(&format));
    assert!(!RawBuffer::SignedInt16(vec![0; 7]).fits(&format));
    assert!(!RawBuffer::SignedInt16(vec![]).fits(&format));
    assert!(!RawBuffer::UnsignedInt16(vec![0; 8]).fits(&format));
    let no_channel = SampleFormat { channel_count: 0, ..format };
    assert!(!no_channel.is_valid());
    assert!(!RawBuffer::SignedInt16(vec![0; 8]).fits(&no_channel));
    let no_clock = SampleFormat { sample_rate: 0, ..format };
    assert!(!no_clock.is_valid());
    assert!(format.is_valid());
    assert!(format.has_frames(2));
    assert!(!format.has_frames(0));
}

#[test]
fn encoding_names() {
    assert_eq!(SampleEncoding::UnsignedInt16.name(), "U16");
    assert_eq!(SampleEncoding::SignedInt16.name(), "I16");
    assert_eq!(SampleEncoding::Float32.name(), "F32");
}

#[test]
fn config_rejects_a_floor_at_or_above_full_scale() {
    assert!(MeterConfig::new(Decibels { millis: 0 }, 17).is_none());
    assert!(MeterConfig::new(Decibels { millis: 10 }, 17).is_none());
    assert!(MeterConfig::new(Decibels { millis: -1 }, 0).is_none());
    let config = MeterConfig::new(Decibels { millis: -60_000 }, 11).unwrap();
    assert_eq!(config.floor_db(), Decibels { millis: -60_000 });
    assert_eq!(config.level_count(), 11);
    let standard = MeterConfig::standard();
    assert_eq!(standard.floor_db(), Decibels { millis: -96_329 });
    assert_eq!(standard.level_count(), 17);
}

#[test]
fn duration_of_a_cd_buffer() {
    assert_eq!(duration_micros(1024, 44100), 23_220);
    assert_eq!(duration_micros(44100, 44100), 1_000_000);
    assert_eq!(duration_micros(1, 3), 333_333);
    assert_eq!(duration_micros(2, 3), 666_667);
    assert_eq!(duration_micros(1, 2_000_000), 1);
    assert_eq!(duration_micros(usize::MAX, 1), usize::MAX as u128 * 1_000_000);
}

#[test]
fn silent_stereo_buffer() {
    let format = cd_stereo(SampleEncoding::SignedInt16);
    let config = MeterConfig::standard();
    let buffer = RawBuffer::SignedInt16(vec![0; 2048]);
    let report = process_input_buffer(&buffer, &format, &config, &log20);
    assert_eq!(report.channel_count(), 2);
    assert_eq!(report.sample_count(), 1024);
    assert_eq!(report.duration_micros(), 23_220);
    assert!((report.duration_micros() as f64 / 1000.0 - 23.2).abs() < 0.05);
    assert_eq!(report.channels().len(), 2);
    for (index, channel) in report.channels().iter().enumerate() {
        assert_eq!(channel.channel_index, index);
        assert_eq!(channel.rms.q31, 0);
        assert_eq!(channel.loudness_db, config.floor_db());
        assert_eq!(channel.display_intensity.numerator(), 0);
    }
    assert_eq!(
        report.rendered_text(),
        "input buffer:   1024 I16 samples * 2 channel(s),  23.220 ms\
         , channel 0: [                ] -96.3 dBov\
         , channel 1: [                ] -96.3 dBov"
    );
}

#[test]
fn maximal_square_wave_on_one_channel() {
    let format = cd_stereo(SampleEncoding::SignedInt16);
    let config = MeterConfig::standard();
    let mut words = vec![0i16; 2048];
    for frame in 0..1024 {
        words[2 * frame] = if frame % 2 == 0 { i16::MIN } else { i16::MAX };
    }
    let report = process_input_buffer(&RawBuffer::SignedInt16(words), &format, &config, &log20);
    assert_eq!(report.channel_count(), 2);
    assert!(report.channel(2).is_none());
    let left = report.channel(0).unwrap();
    let right = report.channel(1).unwrap();
    let rms = left.rms.q31 as f64 / FULL_SCALE_Q31 as f64;
    assert!(rms <= 1.0);
    assert!(rms > 1.0 - 1.0 / 32768.0);
    assert_eq!(left.rms.q31, 2147450881);
    assert_eq!(left.loudness_db, Decibels { millis: 0 });
    assert_eq!(left.display_intensity.numerator(), left.display_intensity.denominator());
    assert_eq!(right.rms.q31, 0);
    assert_eq!(right.loudness_db, config.floor_db());
    assert_eq!(right.display_intensity.numerator(), 0);
    assert_eq!(
        report.rendered_text(),
        "input buffer:   1024 I16 samples * 2 channel(s),  23.220 ms\
         , channel 0: [================]  +0.0 dBov\
         , channel 1: [                ] -96.3 dBov"
    );
}

#[test]
fn unsigned_buffer_is_measured_like_signed() {
    let config = MeterConfig::standard();
    let unsigned = RawBuffer::UnsignedInt16(vec![49152, 32768, 16384, 32768]);
    let signed = RawBuffer::SignedInt16(vec![16384, 0, -16384, 0]);
    let a = process_input_buffer(
        &unsigned,
        &cd_stereo(SampleEncoding::UnsignedInt16),
        &config,
        &log20,
    );
    let b = process_input_buffer(&signed, &cd_stereo(SampleEncoding::SignedInt16), &config, &log20);
    assert_eq!(a.channels(), b.channels());
    assert_eq!(a.channel(0).unwrap().rms.q31, FULL_SCALE_Q31 / 2);
    assert_eq!(a.channel(0).unwrap().loudness_db, Decibels { millis: -6_021 });
    assert_eq!(a.channel(0).unwrap().display_intensity.numerator(), 96_329 - 6_021);
    assert_eq!(
        a.rendered_text(),
        "input buffer:      2 U16 samples * 2 channel(s),   0.045 ms\
         , channel 0: [=============== ]  -6.0 dBov\
         , channel 1: [                ] -96.3 dBov"
    );
}

#[test]
fn channels_do_not_affect_each_other() {
    let format = SampleFormat {
        encoding: SampleEncoding::SignedInt16,
        channel_count: 3,
        sample_rate: 48000,
    };
    let config = MeterConfig::standard();
    let a = RawBuffer::SignedInt16(vec![100, 0, -7, -100, 0, 7]);
    let b = RawBuffer::SignedInt16(vec![100, 32767, 7, -100, -32768, -7]);
    let ra = process_input_buffer(&a, &format, &config, &log20);
    let rb = process_input_buffer(&b, &format, &config, &log20);
    assert_eq!(ra.channel(0).unwrap(), rb.channel(0).unwrap());
    assert_eq!(ra.channel(2).unwrap(), rb.channel(2).unwrap());
    assert_ne!(ra.channel(1).unwrap().rms, rb.channel(1).unwrap().rms);
    assert_eq!(ra.channel(0).unwrap().rms.q31, 100 * 65536);
    assert_eq!(ra.channel(2).unwrap().rms.q31, 7 * 65536);
}

#[test]
fn report_from_levels_takes_clipped_levels() {
    let format = SampleFormat {
        encoding: SampleEncoding::Float32,
        channel_count: 2,
        sample_rate: 48000,
    };
    let config = MeterConfig::new(Decibels { millis: -60_000 }, 11).unwrap();
    let levels = vec![Rms { q31: 2 * FULL_SCALE_Q31 }, Rms { q31: FULL_SCALE_Q31 / 10 }];
    let report = report_from_levels(&format, 480, &levels, &config, &log20);
    assert_eq!(report.channel(0).unwrap().loudness_db, Decibels { millis: 6_021 });
    assert_eq!(report.channel(0).unwrap().display_intensity.numerator(), 60_000);
    assert_eq!(report.channel(1).unwrap().loudness_db, Decibels { millis: -20_000 });
    assert_eq!(report.channel(1).unwrap().display_intensity.numerator(), 40_000);
    assert_eq!(report.duration_micros(), 10_000);
    assert_eq!(
        report.rendered_text(),
        "input buffer:    480 F32 samples * 2 channel(s),  10.000 ms\
         , channel 0: [==========]  +6.0 dBov\
         , channel 1: [=======   ] -20.0 dBov"
    );
}

#[test]
fn report_line_has_no_line_break() {
    let format = cd_stereo(SampleEncoding::UnsignedInt16);
    let config = MeterConfig::standard();
    let words: Vec<u16> = (0..4096u32).map(|i| (i * 7919 % 65536) as u16).collect();
    let report = process_input_buffer(&RawBuffer::UnsignedInt16(words), &format, &config, &log20);
    assert!(!report.rendered_text().contains('\n'));
    assert!(report.rendered_text().starts_with("input buffer:   2048 U16 samples * 2 channel(s)"));
}

#[test]
fn wide_numbers_are_not_cut() {
    let format = SampleFormat {
        encoding: SampleEncoding::SignedInt16,
        channel_count: 1,
        sample_rate: 1,
    };
    let config = MeterConfig::new(Decibels { millis: -2_000_000 }, 3).unwrap();
    let levels = vec![Rms { q31: 1 }];
    let far_below = |_: Rms| Decibels { millis: -1_234_567 };
    let report = report_from_levels(&format, 12_345_678, &levels, &config, &far_below);
    assert_eq!(
        report.rendered_text(),
        "input buffer: 12345678 I16 samples * 1 channel(s), 12345678000.000 ms\
         , channel 0: [= ] -1234.6 dBov"
    );
}

#[test]
fn level_text_rounds_to_tenths() {
    let format = SampleFormat {
        encoding: SampleEncoding::SignedInt16,
        channel_count: 4,
        sample_rate: 1000,
    };
    let config = MeterConfig::new(Decibels { millis: -50_000 }, 2).unwrap();
    let levels = vec![Rms { q31: 10 }, Rms { q31: 20 }, Rms { q31: 30 }, Rms { q31: 40 }];
    let by_level = |rms: Rms| match rms.q31 {
        10 => Decibels { millis: -49 },
        20 => Decibels { millis: -50 },
        30 => Decibels { millis: -9_950 },
        _ => Decibels { millis: -9_949 },
    };
    let report = report_from_levels(&format, 1, &levels, &config, &by_level);
    assert_eq!(
        report.rendered_text(),
        "input buffer:      1 I16 samples * 4 channel(s),   1.000 ms\
         , channel 0: [=]  +0.0 dBov\
         , channel 1: [=]  -0.1 dBov\
         , channel 2: [=] -10.0 dBov\
         , channel 3: [=]  -9.9 dBov"
    );
}

#[test]
fn initial_report_is_empty() {
    let report = BufferReport::empty();
    assert!(report.is_empty());
    assert!(report.channel(0).is_none());
    assert_eq!(report.channel_count(), 0);
    assert_eq!(report.sample_count(), 0);
    assert_eq!(report.duration_micros(), 0);
    assert!(report.channels().is_empty());
    assert_eq!(report.rendered_text(), "");
}

#[test]
fn clone_copies_every_field() {
    let format = cd_stereo(SampleEncoding::SignedInt16);
    let config = MeterConfig::standard();
    let buffer = RawBuffer::SignedInt16(vec![1000, -2000, 3000, -4000]);
    let report = process_input_buffer(&buffer, &format, &config, &log20);
    let copy = report.clone();
    assert_eq!(copy.sample_count(), report.sample_count());
    assert_eq!(copy.channel_count(), report.channel_count());
    assert_eq!(copy.duration_micros(), report.duration_micros());
    assert_eq!(copy.channels(), report.channels());
    assert_eq!(copy.rendered_text(), report.rendered_text());
}

#[test]
fn latest_report_is_superseded() {
    let format = cd_stereo(SampleEncoding::SignedInt16);
    let config = MeterConfig::standard();
    let mut slot = LatestReport::new();
    assert!(slot.read().is_empty());
    let first = process_input_buffer(
        &RawBuffer::SignedInt16(vec![100, 100]),
        &format,
        &config,
        &log20,
    );
    let second = process_input_buffer(
        &RawBuffer::SignedInt16(vec![0, 0, 0, 0]),
        &format,
        &config,
        &log20,
    );
    slot.publish(first.clone());
    assert_eq!(slot.read().rendered_text(), first.rendered_text());
    slot.publish(second.clone());
    assert_eq!(slot.read().rendered_text(), second.rendered_text());
    assert_eq!(slot.read().sample_count(), 2);
    assert_eq!(slot.read().channels(), second.channels());
}

#[test]
fn shared_snapshot_starts_empty_and_returns_the_latest() {
    let format = cd_stereo(SampleEncoding::SignedInt16);
    let config = MeterConfig::standard();
    let snapshot = SharedSnapshot::new();
    assert!(snapshot.read().is_empty());
    let report = process_input_buffer(
        &RawBuffer::SignedInt16(vec![5, 6, 7, 8]),
        &format,
        &config,
        &log20,
    );
    snapshot.publish(report.clone());
    assert_eq!(snapshot.read().rendered_text(), report.rendered_text());
    assert_eq!(snapshot.read().rendered_text(), report.rendered_text());
    snapshot.publish(BufferReport::empty());
    assert!(snapshot.read().is_empty());
}

fn shareable<T: Send + Sync>(_: &T) {}

#[test]
fn readers_beside_a_publisher_never_see_a_torn_report() {
    let config = MeterConfig::standard();
    let snapshot = Arc::new(SharedSnapshot::new());
    shareable(&snapshot);
    let mut reports = Vec::new();
    for channel_count in 1..=6u16 {
        let format = SampleFormat {
            encoding: SampleEncoding::SignedInt16,
            channel_count,
            sample_rate: 44100,
        };
        let words: Vec<i16> = (0..channel_count as usize * 64)
            .map(|i| (i as i16) * 30 * channel_count as i16)
            .collect();
        reports.push(process_input_buffer(&RawBuffer::SignedInt16(words), &format, &config, &log20));
    }
    let texts: Vec<String> = reports.iter().map(|r| r.rendered_text().to_string()).collect();
    let readers: Vec<Arc<SharedSnapshot>> = (0..8).map(|_| Arc::clone(&snapshot)).collect();
    let publisher = Arc::clone(&snapshot);
    for round in 0..2000 {
        let early = readers[round % readers.len()].read();
        publisher.publish(reports[round % reports.len()].clone());
        for reader in readers.iter() {
            let report = reader.read();
            assert_eq!(report.channels().len(), report.channel_count());
            assert_eq!(report.rendered_text(), texts[round % texts.len()]);
            assert_eq!(report.channel_count(), round % reports.len() + 1);
            assert_eq!(report.sample_count(), 64);
            for (index, channel) in report.channels().iter().enumerate() {
                assert_eq!(channel.channel_index, index);
            }
        }
        assert_eq!(early.channels().len(), early.channel_count());
        if round == 0 {
            assert!(early.is_empty());
        } else {
            assert_eq!(early.rendered_text(), texts[(round - 1) % texts.len()]);
        }
    }
}
