use keepers::fixed::SCALE;
use keepers::sma_keeper::SmaKeeper;

fn fx(x: f64) -> i64 {
    (x * SCALE as f64).round() as i64
}

#[test]
fn test_sma_new_reports_seed() {
    let sma = SmaKeeper::new(3, 0, fx(7.5));
    assert_eq!(sma.get(), fx(7.5));
    assert_eq!(sma.get_prev(), 0);
    assert_eq!(sma.size(), 0);
    assert!(!sma.is_full());
    assert_eq!(sma.prev_timestamp, 0);
}

#[test]
fn test_sma_window_slides() {
    let mut sma = SmaKeeper::new(3, 0, 0);
    sma.add(1, fx(10.0));
    sma.add(2, fx(20.0));
    assert_eq!(sma.add(3, fx(30.0)), fx(20.0));
    assert!(sma.is_full());
    assert_eq!(sma.add(4, fx(40.0)), fx(30.0));
    assert_eq!(sma.size(), 3);
    assert_eq!(sma.get(), fx(30.0));
    assert_eq!(sma.get_prev(), fx(20.0));
}

#[test]
fn test_sma_mean_of_partial_window() {
    let mut sma = SmaKeeper::new(5, 0, 0);
    assert_eq!(sma.add(1, fx(1.0)), fx(1.0));
    assert_eq!(sma.add(2, fx(2.0)), fx(1.5));
    assert_eq!(sma.add(3, fx(6.0)), fx(3.0));
    assert_eq!(sma.size(), 3);
    assert!(!sma.is_full());
}

#[test]
fn test_sma_mean_after_many_evictions() {
    let mut sma = SmaKeeper::new(4, 0, 0);
    for i in 1..=20u64 {
        sma.add(i, fx(i as f64));
    }
    // the window holds 17, 18, 19, 20
    assert_eq!(sma.get(), fx(18.5));
    assert_eq!(sma.size(), 4);
}

#[test]
fn test_sma_mean_rounds_down() {
    let mut sma = SmaKeeper::new(3, 0, 0);
    sma.add(1, 1);
    sma.add(2, 2);
    assert_eq!(sma.get(), 1);
    let mut neg = SmaKeeper::new(3, 0, 0);
    neg.add(1, -1);
    neg.add(2, -2);
    assert_eq!(neg.get(), -2);
}

#[test]
fn test_sma_extreme_values_do_not_overflow() {
    let mut sma = SmaKeeper::new(3, 0, 0);
    sma.add(1, i64::MAX);
    sma.add(2, i64::MAX);
    assert_eq!(sma.add(3, i64::MAX), i64::MAX);
    assert_eq!(sma.add(4, i64::MIN), (2 * (i64::MAX as i128) + i64::MIN as i128).div_euclid(3) as i64);
}

#[test]
fn test_sma_gate_skips_early_sample() {
    let mut sma = SmaKeeper::new(3, 100, fx(5.0));
    // 50 < 0 + 100: skipped, the seed stays
    assert_eq!(sma.add(50, fx(10.0)), fx(5.0));
    assert_eq!(sma.size(), 0);
    assert_eq!(sma.add(100, fx(10.0)), fx(10.0));
    assert_eq!(sma.prev_timestamp, 100);
    // 199 < 100 + 100: skipped
    assert_eq!(sma.add(199, fx(20.0)), fx(10.0));
    assert_eq!(sma.size(), 1);
    assert_eq!(sma.add(200, fx(20.0)), fx(15.0));
    assert_eq!(sma.get_prev(), fx(10.0));
}

#[test]
fn test_sma_repeated_timestamp_changes_nothing() {
    let mut sma = SmaKeeper::new(3, 10, 0);
    sma.add(10, fx(4.0));
    sma.add(20, fx(8.0));
    let (mean, prev, size, stamp) = (sma.get(), sma.get_prev(), sma.size(), sma.prev_timestamp);
    assert_eq!(sma.add(20, fx(100.0)), mean);
    assert_eq!(sma.add(15, fx(100.0)), mean);
    assert_eq!(sma.add(0, fx(100.0)), mean);
    assert_eq!((sma.get(), sma.get_prev(), sma.size(), sma.prev_timestamp), (mean, prev, size, stamp));
}

#[test]
fn test_sma_zero_gap_accepts_equal_timestamp() {
    let mut sma = SmaKeeper::new(3, 0, 0);
    sma.add(5, fx(1.0));
    assert_eq!(sma.add(5, fx(3.0)), fx(2.0));
    // an earlier stamp is still skipped
    assert_eq!(sma.add(4, fx(30.0)), fx(2.0));
    assert_eq!(sma.size(), 2);
}

#[test]
fn test_sma_gate_near_the_end_of_time() {
    let mut sma = SmaKeeper::new(2, u64::MAX, 0);
    sma.add(u64::MAX, fx(1.0));
    assert_eq!(sma.size(), 1);
    // MAX < MAX + MAX: skipped, without overflow
    sma.add(u64::MAX, fx(2.0));
    assert_eq!(sma.size(), 1);
}

#[test]
fn test_sma_peek_agrees_with_add() {
    let mut sma = SmaKeeper::new(3, 5, fx(1.0));
    let samples = [(0, 4.0), (5, 10.0), (7, 99.0), (10, 20.0), (15, 31.0), (15, 5.0), (20, -7.5), (100, 0.000001)];
    for (t, v) in samples {
        let (mean, prev, size, stamp) = (sma.get(), sma.get_prev(), sma.size(), sma.prev_timestamp);
        let peeked = sma.peek_next(t, fx(v));
        // peeking changes nothing
        assert_eq!((sma.get(), sma.get_prev(), sma.size(), sma.prev_timestamp), (mean, prev, size, stamp));
        assert_eq!(sma.add(t, fx(v)), peeked);
    }
    assert_eq!(sma.size(), 3);
}

#[test]
fn test_sma_peek_exact_values() {
    let mut sma = SmaKeeper::new(3, 0, 0);
    assert_eq!(sma.peek_next(1, fx(10.0)), fx(10.0));
    sma.add(1, fx(10.0));
    sma.add(2, fx(20.0));
    sma.add(3, fx(30.0));
    // 10 would leave: the mean of 20, 30, 40
    assert_eq!(sma.peek_next(4, fx(40.0)), fx(30.0));
    // a sample from before the last one would be skipped
    assert_eq!(sma.peek_next(2, fx(40.0)), fx(20.0));
    assert_eq!(sma.get(), fx(20.0));
}
