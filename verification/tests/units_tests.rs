use cpu_gauges::binary32::to_scaled;
use cpu_gauges::sample::{Channel, RATIO_ONE};
use cpu_gauges::telemetry::read_sample;
use cpu_gauges::units::{percent_to_ratio, seconds_to_micros};
use std::time::{Duration, Instant};
use sysinfo::System;

fn ratio_by_floats(percent: f32) -> u32 {
    let scaled = (percent as f64 * 10_000.0).floor();
    if scaled.is_nan() || scaled <= 0.0 {
        0
    } else if scaled >= 1_000_000.0 {
        RATIO_ONE
    } else {
        scaled as u32
    }
}

#[test]
fn percentages_become_ratios() {
    assert_eq!(percent_to_ratio(0.0f32.to_bits()), 0);
    assert_eq!(percent_to_ratio(12.5f32.to_bits()), 125_000);
    assert_eq!(percent_to_ratio(50.0f32.to_bits()), 500_000);
    assert_eq!(percent_to_ratio(100.0f32.to_bits()), 1_000_000);
    assert_eq!(percent_to_ratio(0.1f32.to_bits()), 1_000);
    assert_eq!(percent_to_ratio(33.333332f32.to_bits()), 333_333);
    assert_eq!(percent_to_ratio(99.99999f32.to_bits()), 999_999);
    assert_eq!(percent_to_ratio(0.00010001f32.to_bits()), 1);
    assert_eq!(percent_to_ratio(0.0001f32.to_bits()), 0);
}

#[test]
fn percentages_outside_the_range_are_saturated() {
    assert_eq!(percent_to_ratio(100.00001f32.to_bits()), 1_000_000);
    assert_eq!(percent_to_ratio(250.0f32.to_bits()), 1_000_000);
    assert_eq!(percent_to_ratio(f32::MAX.to_bits()), 1_000_000);
    assert_eq!(percent_to_ratio(f32::INFINITY.to_bits()), 1_000_000);
    assert_eq!(percent_to_ratio((-0.0f32).to_bits()), 0);
    assert_eq!(percent_to_ratio((-5.0f32).to_bits()), 0);
    assert_eq!(percent_to_ratio(f32::NEG_INFINITY.to_bits()), 0);
    assert_eq!(percent_to_ratio(f32::NAN.to_bits()), 0);
    assert_eq!(percent_to_ratio(0x7fc0_0001), 0);
    assert_eq!(percent_to_ratio(0xffc0_0000), 0);
    assert_eq!(percent_to_ratio(f32::MIN_POSITIVE.to_bits()), 0);
    assert_eq!(percent_to_ratio(1), 0);
    assert_eq!(percent_to_ratio(0x007f_ffff), 0);
}

#[test]
fn ratios_agree_with_wider_arithmetic_over_a_sweep() {
    for i in 0..=4_000u32 {
        let percent = i as f32 * 0.03;
        assert_eq!(percent_to_ratio(percent.to_bits()), ratio_by_floats(percent), "{}", percent);
    }
    let mut bits: u32 = 0x3000_0000;
    while bits < 0x4400_0000 {
        let percent = f32::from_bits(bits);
        assert_eq!(percent_to_ratio(bits), ratio_by_floats(percent), "{:#x}", bits);
        bits += 0x0001_2345;
    }
}

#[test]
fn seconds_become_microseconds() {
    assert_eq!(seconds_to_micros(0.016f32.to_bits()), 16_000);
    assert_eq!(seconds_to_micros(1.0f32.to_bits()), 1_000_000);
    assert_eq!(seconds_to_micros(0.5f32.to_bits()), 500_000);
    assert_eq!(seconds_to_micros(0.0f32.to_bits()), 0);
    assert_eq!(seconds_to_micros(0.0000001f32.to_bits()), 0);
    assert_eq!(seconds_to_micros(0.000001f32.to_bits()), 0);
    assert_eq!(seconds_to_micros(0.0000011f32.to_bits()), 1);
    assert_eq!(seconds_to_micros(1.0e10f32.to_bits()), 10_000_000_000_000_000);
    assert_eq!(seconds_to_micros(f32::MAX.to_bits()), u64::MAX);
    assert_eq!(seconds_to_micros(f32::INFINITY.to_bits()), u64::MAX);
    assert_eq!(seconds_to_micros((-0.016f32).to_bits()), 0);
    assert_eq!(seconds_to_micros(f32::NAN.to_bits()), 0);
}

#[test]
fn numbers_are_counted_in_fractions_of_one() {
    assert_eq!(to_scaled(1.5f32.to_bits(), 2, 100), 3);
    assert_eq!(to_scaled(0.75f32.to_bits(), 4, 100), 3);
    assert_eq!(to_scaled(0.75f32.to_bits(), 5, 100), 3);
    assert_eq!(to_scaled(3.0f32.to_bits(), 1, 2), 2);
    assert_eq!(to_scaled(3.0f32.to_bits(), 1, 0), 0);
    assert_eq!(to_scaled(1.0e30f32.to_bits(), 0, 7), 0);
    assert_eq!(to_scaled(9_223_372_036_854_775_808f32.to_bits(), 1, u64::MAX), 1 << 63);
    assert_eq!(to_scaled(18_446_744_073_709_551_616f32.to_bits(), 1, u64::MAX), u64::MAX);
    assert_eq!(to_scaled(16_777_216f32.to_bits(), u64::MAX, u64::MAX), u64::MAX);
    assert_eq!(to_scaled(16_777_215f32.to_bits(), 3, u64::MAX), 50_331_645);
    assert_eq!(to_scaled(33_554_432f32.to_bits(), 3, u64::MAX), 100_663_296);
    assert_eq!(to_scaled(f32::MIN_POSITIVE.to_bits(), u64::MAX, u64::MAX), 0);
    assert_eq!(to_scaled(2.0f32.powi(-64).to_bits(), u64::MAX, u64::MAX), 0);
    assert_eq!(to_scaled(2.0f32.powi(-63).to_bits(), u64::MAX, u64::MAX), 1);
}

#[test]
fn a_source_that_was_never_refreshed_gives_no_channel() {
    let system = System::new();
    let sample = read_sample(&system);
    assert_eq!(sample.channel_count(), system.cpus().len());
    assert_eq!(sample.cores().len(), system.cpus().len());
}

#[test]
fn a_sample_holds_what_the_source_reports() {
    let mut system = System::new();
    system.refresh_cpu_usage();
    let started = Instant::now();
    let mut spin: u64 = 0;
    while started.elapsed() < Duration::from_millis(300) {
        spin = spin.wrapping_mul(6_364_136_223_846_793_005).wrapping_add(1);
    }
    assert_ne!(spin, 1);
    system.refresh_cpu_usage();
    let sample = read_sample(&system);
    assert_eq!(sample.channel_count(), system.cpus().len());
    for (i, cpu) in system.cpus().iter().enumerate() {
        assert_eq!(sample.ratio(Channel::Core(i)), Some(ratio_by_floats(cpu.cpu_usage())));
    }
    assert_eq!(sample.ratio(Channel::Core(system.cpus().len())), None);
    assert_eq!(sample.aggregate(), ratio_by_floats(system.global_cpu_usage()));
}
