use mavlink_dump::tracker::{FrequencyTracker, RateHz, MICROS_PER_SEC};

fn rate_as_f64(r: RateHz) -> f64 {
    r.num as f64 / r.den as f64
}

#[test]
fn first_observation_returns_no_rate() {
    let mut tracker = FrequencyTracker::new();
    assert_eq!(tracker.calculate("HEARTBEAT", 1_000_000), None);
    assert_eq!(tracker.calculate("NEVER_SEEN_SYNTHETIC", 2_000_000), None);
}

#[test]
fn rate_is_inverse_of_interval() {
    let mut tracker = FrequencyTracker::new();
    assert_eq!(tracker.calculate("ATTITUDE", 1_000_000), None);
    // 0.5 s later: the rate must be 1 / 0.5 = 2 Hz.
    let rate = tracker.calculate("ATTITUDE", 1_500_000).unwrap();
    assert_eq!(rate, RateHz { num: MICROS_PER_SEC, den: 500_000 });
    assert!((rate_as_f64(rate) - 2.0).abs() < 1e-9);
    // 4 s after that: 0.25 Hz.
    let rate = tracker.calculate("ATTITUDE", 5_500_000).unwrap();
    assert!((rate_as_f64(rate) - 0.25).abs() < 1e-9);
}

#[test]
fn rate_after_one_tenth_second() {
    let mut tracker = FrequencyTracker::new();
    assert_eq!(tracker.calculate("GLOBAL_POSITION_INT", 0), None);
    let rate = tracker.calculate("GLOBAL_POSITION_INT", 100_000).unwrap();
    assert!((rate_as_f64(rate) - 10.0).abs() < 1e-9);
}

#[test]
fn zero_interval_saturates_to_exact_zero() {
    let mut tracker = FrequencyTracker::new();
    assert_eq!(tracker.calculate("HEARTBEAT", 42), None);
    let rate = tracker.calculate("HEARTBEAT", 42).unwrap();
    assert_eq!(rate, RateHz { num: 0, den: 1 });
    let value = rate_as_f64(rate);
    assert_eq!(value, 0.0);
    assert!(!value.is_nan());
    assert!(value.is_finite());
}

#[test]
fn clock_running_backwards_counts_as_no_elapsed_time() {
    let mut tracker = FrequencyTracker::new();
    assert_eq!(tracker.calculate("HEARTBEAT", 5_000_000), None);
    let rate = tracker.calculate("HEARTBEAT", 4_000_000).unwrap();
    assert_eq!(rate, RateHz { num: 0, den: 1 });
}

#[test]
fn types_are_tracked_independently() {
    let mut tracker = FrequencyTracker::new();
    assert_eq!(tracker.calculate("HEARTBEAT", 1_000_000), None);
    assert_eq!(tracker.calculate("ATTITUDE", 1_200_000), None);
    // HEARTBEAT's interval is measured from its own last observation,
    // not from ATTITUDE's.
    let rate = tracker.calculate("HEARTBEAT", 2_000_000).unwrap();
    assert_eq!(rate, RateHz { num: MICROS_PER_SEC, den: 1_000_000 });
    assert!((rate_as_f64(rate) - 1.0).abs() < 1e-9);
}
