use sbh::ewma::DiskRateEstimator;
use sbh::pid::{overall_level, PidConfig, PidPressureController, PressureLevel, PressureReading};

fn standard_config(kp: u32, ki: u32, kd: u32, scale_bp: u32) -> PidConfig {
    PidConfig {
        kp,
        ki,
        kd,
        scale_bp,
        target_free_bp: 1800,
        hysteresis_bp: 100,
        green_min_bp: 2000,
        yellow_min_bp: 1400,
        orange_min_bp: 1000,
        red_min_bp: 600,
        min_dt_ms: 1000,
        imminent_tte_secs: 300,
        imminent_floor: 800,
    }
}

fn reading(free: u64, total: u64, at_ms: u64) -> PressureReading {
    PressureReading { free_bytes: free, total_bytes: total, mount: "/".to_string(), observed_at_ms: at_ms }
}

#[test]
fn regression_issue_pid_slow_attack() {
    let mut pid = PidPressureController::new(standard_config(250, 80, 20, 10000));
    let r1 = pid.update(&reading(50, 100, 0), None, 0);
    assert_eq!(r1.level, PressureLevel::Green);
    let r2 = pid.update(&reading(1, 100, 1000), None, 1000);
    assert_eq!(r2.level, PressureLevel::Critical);
    let r3 = pid.update(&reading(7, 100, 2000), None, 2000);
    assert_eq!(r3.level, PressureLevel::Red);
}

#[test]
fn pid_urgency_spikes_on_clock_skew() {
    let mut pid = PidPressureController::new(standard_config(250, 80, 20, 10000));
    let r1 = pid.update(&reading(20, 100, 0), None, 0);
    assert_eq!(r1.level, PressureLevel::Green);
    assert!(r1.urgency < 100);
    let r2 = pid.update(&reading(199, 1000, 0), None, 0);
    assert!(r2.urgency < 500);
    assert_eq!(r2.derivative_term, 0);
}

#[test]
fn hysteresis_holds_until_band_cleared() {
    let mut pid = PidPressureController::new(standard_config(250, 80, 20, 10000));
    pid.update(&reading(5, 100, 0), None, 0);
    assert_eq!(pid.level, PressureLevel::Critical);
    // 6.5% clears the red threshold but not the band.
    let r = pid.update(&reading(65, 1000, 2000), None, 2000);
    assert_eq!(r.level, PressureLevel::Critical);
    // Clearing the band recovers.
    let r = pid.update(&reading(50, 100, 4000), None, 4000);
    assert_eq!(r.level, PressureLevel::Green);
}

#[test]
fn imminent_exhaustion_raises_urgency_to_floor() {
    let mut pid = PidPressureController::new(standard_config(250, 80, 20, 10000));
    let r = pid.update(&reading(50, 100, 0), Some(60), 0);
    assert_eq!(r.urgency, 800);
    let mut pid = PidPressureController::new(standard_config(250, 80, 20, 10000));
    let r = pid.update(&reading(50, 100, 0), Some(3600), 0);
    assert_eq!(r.urgency, 0);
}

#[test]
fn proportional_urgency_exact_value() {
    // e = 1800 - 1000 = 800 bp; kp 1000 -> sum 800000; / scale 1000 -> 800.
    let mut pid = PidPressureController::new(standard_config(1000, 0, 0, 1000));
    let r = pid.update(&reading(10, 100, 0), None, 0);
    assert_eq!(r.urgency, 800);
    assert_eq!(r.level, PressureLevel::Orange);
}

#[test]
fn free_fraction_in_basis_points() {
    assert_eq!(reading(1, 3, 0).free_bp(), 3333);
    assert_eq!(reading(0, 10, 0).free_bp(), 0);
    assert_eq!(reading(10, 10, 0).free_bp(), 10000);
}

#[test]
fn ewma_needs_three_samples_and_filling_for_tte() {
    let mut est = DiskRateEstimator::new(300, 100, 100, 1000);
    let r0 = est.update(1_000_000, 0, 2_000_000);
    assert_eq!(r0.sample_count, 1);
    assert_eq!(r0.confidence, 0);
    let r1 = est.update(990_000, 1000, 2_000_000);
    assert_eq!(r1.bytes_per_sec, 10_000);
    assert_eq!(r1.confidence, 0);
    assert_eq!(r1.time_to_threshold_secs, None);
    let r2 = est.update(980_000, 2000, 2_000_000);
    assert_eq!(r2.sample_count, 3);
    assert_eq!(r2.bytes_per_sec, 10_000);
    assert_eq!(r2.confidence, 300);
    // 980000 - 200000 threshold = 780000 bytes at 10000 B/s.
    assert_eq!(r2.time_to_threshold_secs, Some(78));
}

#[test]
fn ewma_ignores_non_monotonic_timestamps() {
    let mut est = DiskRateEstimator::new(300, 100, 100, 1000);
    est.update(1_000_000, 5000, 2_000_000);
    let r1 = est.update(990_000, 6000, 2_000_000);
    let before = est;
    let r2 = est.update(500_000, 6000, 2_000_000);
    assert_eq!(r1, r2);
    assert_eq!(est, before);
    let r3 = est.update(500_000, 1000, 2_000_000);
    assert_eq!(r3, r1);
}

#[test]
fn ewma_draining_disk_predicts_nothing() {
    let mut est = DiskRateEstimator::new(300, 100, 0, 1000);
    est.update(1_000_000, 0, 2_000_000);
    est.update(1_010_000, 1000, 2_000_000);
    let r = est.update(1_020_000, 2000, 2_000_000);
    assert_eq!(r.bytes_per_sec, -10_000);
    assert_eq!(r.time_to_threshold_secs, None);
}

#[test]
fn overall_level_is_most_severe() {
    assert_eq!(overall_level(&vec![]), PressureLevel::Green);
    assert_eq!(overall_level(&vec![PressureLevel::Yellow, PressureLevel::Red, PressureLevel::Green]), PressureLevel::Red);
}
