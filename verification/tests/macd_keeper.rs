use keepers::fixed::SCALE;
use keepers::macd_keeper::MacdKeeper;

fn fx(x: f64) -> i64 {
    (x * SCALE as f64).round() as i64
}

fn to_f(x: i64) -> f64 {
    x as f64 / SCALE as f64
}

#[test]
fn test_macd_new() {
    let keeper = MacdKeeper::new(26, 12, 9, 20, None);
    assert_eq!(keeper.slow_period(), 26);
    assert_eq!(keeper.fast_period(), 12);
    assert_eq!(keeper.dea_period(), 9);
    assert_eq!(keeper.divergen_wind(), 20);
}

#[test]
fn test_macd_new_has_no_readings() {
    let keeper = MacdKeeper::new(26, 12, 9, 20, None);
    assert_eq!(keeper.size(), 0);
    assert!(!keeper.check_cross());
    assert_eq!(keeper.check_divergence(), 0);
}

#[test]
fn macd_keeper_test_add() {
    let mut keeper = MacdKeeper::new(26, 12, 9, 20, None);
    keeper.add(fx(100.0));
    keeper.add(fx(101.0));
    keeper.add(fx(102.0));
    assert!(keeper.size() > 0);
}

#[test]
fn test_check_cross() {
    let mut keeper = MacdKeeper::new(26, 12, 9, 20, None);
    for i in 0..10 {
        keeper.add(fx(100.0 + i as f64));
    }
    let result = keeper.check_cross();
    assert!(result || !result);
}

#[test]
fn test_check_divergence() {
    let mut keeper = MacdKeeper::new(26, 12, 9, 20, None);
    for i in 0..25 {
        keeper.add(fx(100.0 + i as f64));
    }
    let result = keeper.check_divergence();
    assert!(to_f(result).is_finite());
}

#[test]
fn test_check_divergence_insufficient_data() {
    let mut keeper = MacdKeeper::new(26, 12, 9, 20, None);
    for i in 0..10 {
        keeper.add(fx(100.0 + i as f64));
    }
    let result = keeper.check_divergence();
    assert_eq!(result, fx(0.0));
}

#[test]
fn test_with_initial_prices() {
    let prices = vec![fx(100.0), fx(101.0), fx(102.0), fx(103.0)];
    let keeper = MacdKeeper::new(26, 12, 9, 20, Some(prices));
    assert_eq!(keeper.size(), 4);
}

#[test]
fn test_macd_history_is_bounded() {
    let mut keeper = MacdKeeper::new(26, 12, 9, 20, None);
    for i in 0..25 {
        keeper.add(fx(100.0 + i as f64));
        assert_eq!(keeper.size(), (i + 1).min(10));
    }
}

#[test]
fn test_macd_steady_rise_has_no_cross_and_no_divergence() {
    let mut keeper = MacdKeeper::new(26, 12, 9, 20, None);
    for i in 0..25 {
        keeper.add(fx(100.0 + i as f64));
    }
    assert!(!keeper.check_cross());
    assert_eq!(keeper.check_divergence(), 0);
}

#[test]
fn test_macd_cross_and_divergence_exact() {
    // fast 2, slow 4, signal 2, divergence window 5
    let mut keeper = MacdKeeper::new(4, 2, 2, 5, None);
    let prices = [100.0, 102.0, 104.0, 103.0, 101.0, 99.0, 98.0, 100.0, 103.0, 107.0];
    let cross = [false, false, false, false, false, false, false, false, true, true];
    let divergence = [0, 0, 0, 0, 468_750, 0, 0, -875_000, 0, 0];
    for i in 0..prices.len() {
        keeper.add(fx(prices[i]));
        assert_eq!(keeper.check_cross(), cross[i], "cross after sample {}", i);
        assert_eq!(keeper.check_divergence(), divergence[i], "divergence after sample {}", i);
    }
}

#[test]
fn test_macd_touching_zero_is_no_cross() {
    // the histogram reads 0, 0, 0.5, 0.125, -0.875: newest below zero, oldest
    // of the five on zero
    let mut keeper = MacdKeeper::new(4, 2, 2, 5, None);
    for p in [100.0, 102.0, 104.0, 103.0, 101.0] {
        keeper.add(fx(p));
    }
    assert!(!keeper.check_cross());
}

#[test]
fn test_macd_seeded_equals_fed() {
    let prices: Vec<i64> = [100.0, 102.0, 104.0, 103.0, 101.0, 99.0, 98.0, 100.0].iter().map(|p| fx(*p)).collect();
    let seeded = MacdKeeper::new(4, 2, 2, 5, Some(prices.clone()));
    let mut fed = MacdKeeper::new(4, 2, 2, 5, None);
    for p in prices {
        fed.add(p);
    }
    assert_eq!(seeded.size(), fed.size());
    assert_eq!(seeded.check_cross(), fed.check_cross());
    assert_eq!(seeded.check_divergence(), fed.check_divergence());
    assert_eq!(seeded.check_divergence(), -875_000);
}

#[test]
fn test_macd_without_divergence_window() {
    let mut keeper = MacdKeeper::new(4, 2, 2, 0, None);
    for p in [100.0, 102.0, 104.0, 103.0, 101.0, 99.0] {
        keeper.add(fx(p));
    }
    assert_eq!(keeper.check_divergence(), 0);
    assert!(!keeper.check_cross());
}

#[test]
fn test_macd_peek_exact_values() {
    let mut keeper = MacdKeeper::new(4, 2, 2, 5, None);
    let prices = [100.0, 102.0, 104.0, 103.0, 101.0, 99.0];
    let lines = [
        (0, 0, 0),
        (0, 0, 0),
        (1_000_000, 500_000, 500_000),
        (1_250_000, 1_125_000, 125_000),
        (-500_000, 375_000, -875_000),
        (-1_750_000, -1_125_000, -625_000),
    ];
    for i in 0..prices.len() {
        assert_eq!(keeper.peek_next(fx(prices[i])), lines[i], "lines for sample {}", i);
        // peeking twice gives the same
        assert_eq!(keeper.peek_next(fx(prices[i])), lines[i]);
        keeper.add(fx(prices[i]));
    }
}

#[test]
fn test_macd_peek_leaves_the_indicator_alone() {
    let mut peeked = MacdKeeper::new(4, 2, 2, 5, None);
    let mut plain = MacdKeeper::new(4, 2, 2, 5, None);
    for p in [100.0, 102.0, 104.0, 103.0, 101.0, 99.0, 98.0, 100.0, 103.0, 107.0] {
        peeked.peek_next(fx(p + 50.0));
        peeked.add(fx(p));
        plain.add(fx(p));
        assert_eq!(peeked.check_cross(), plain.check_cross());
        assert_eq!(peeked.check_divergence(), plain.check_divergence());
        assert_eq!(peeked.peek_next(fx(p)), plain.peek_next(fx(p)));
    }
}
