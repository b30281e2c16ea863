use std::collections::HashMap;

use keepers::atr_keeper::AtrKeeper;
use keepers::error::KeeperError;
use keepers::fixed::SCALE;

fn fx(x: f64) -> i64 {
    (x * SCALE as f64).round() as i64
}

fn to_f(x: i64) -> f64 {
    x as f64 / SCALE as f64
}

#[test]
fn test_atr_keeper_new() {
    let keeper = AtrKeeper::new(14, 60);
    assert!(keeper.is_ok());

    let result = AtrKeeper::new(1, 60);
    assert!(result.is_err());
    if let Err(e) = result {
        assert!(e.message().contains("at least 2"));
    }
}

#[test]
fn test_get_tr() {
    let keeper = AtrKeeper::new(14, 60).unwrap();
    // max(110-100, |110-105|, |100-105|) = max(10, 5, 5) = 10
    let tr = keeper.get_tr(fx(110.0), fx(100.0), fx(105.0));
    assert_eq!(tr, fx(10.0));
}

#[test]
fn test_add_and_get() {
    let mut keeper = AtrKeeper::new(14, 60).unwrap();

    keeper.add(fx(110.0), fx(100.0), fx(105.0));
    assert_eq!(keeper.size(), 1);

    keeper.add(fx(115.0), fx(105.0), fx(110.0));
    assert_eq!(keeper.size(), 2);
    let atr = keeper.get();
    assert!(atr > 0);
}

#[test]
fn atr_keeper_test_peek_next() {
    let mut keeper = AtrKeeper::new(14, 60).unwrap();
    keeper.add(fx(110.0), fx(100.0), fx(105.0));
    keeper.add(fx(115.0), fx(105.0), fx(110.0));

    let peeked = keeper.peek_next(fx(120.0), fx(110.0));
    assert!(peeked > 0);
}

#[test]
fn test_fluctuant_index() {
    let mut keeper = AtrKeeper::new(14, 60).unwrap();
    keeper.add(fx(110.0), fx(100.0), fx(105.0));
    keeper.add(fx(115.0), fx(105.0), fx(110.0));

    let mut day_avg_atr = HashMap::new();
    day_avg_atr.insert(60, fx(0.01));

    let index = keeper.fluctuant_index(&day_avg_atr);
    assert!(to_f(index.unwrap()).is_finite());
}

#[test]
fn test_fluctuant_index_empty() {
    let keeper = AtrKeeper::new(14, 60).unwrap();
    let day_avg_atr = HashMap::new();
    let index = keeper.fluctuant_index(&day_avg_atr);
    assert_eq!(index, Some(fx(1e-6)));
}

#[test]
fn test_atr_new_refuses_short_periods() {
    assert_eq!(AtrKeeper::new(0, 60).err(), Some(KeeperError::PeriodTooShort));
    assert_eq!(AtrKeeper::new(1, 60).err(), Some(KeeperError::PeriodTooShort));
    assert!(AtrKeeper::new(2, 60).is_ok());
}

#[test]
fn test_atr_of_two_candles_is_the_second_true_range() {
    let mut keeper = AtrKeeper::new(14, 60).unwrap();
    keeper.add(fx(110.0), fx(100.0), fx(105.0));
    assert_eq!(keeper.get(), 0);
    keeper.add(fx(115.0), fx(105.0), fx(110.0));
    assert_eq!(keeper.get(), fx(10.0));
    keeper.add(fx(120.0), fx(110.0), fx(112.0));
    assert_eq!(keeper.get(), fx(10.0));
}

#[test]
fn test_true_range_takes_the_gap_to_the_close() {
    let keeper = AtrKeeper::new(14, 60).unwrap();
    // the candle lies wholly above the close before it
    assert_eq!(keeper.get_tr(fx(120.0), fx(115.0), fx(100.0)), fx(20.0));
    // and wholly below
    assert_eq!(keeper.get_tr(fx(90.0), fx(85.0), fx(100.0)), fx(15.0));
    // the widest distance does not fit: it is clamped
    assert_eq!(keeper.get_tr(i64::MAX, i64::MIN, 0), i64::MAX);
}

#[test]
fn test_fast_get_tr() {
    let mut keeper = AtrKeeper::new(14, 60).unwrap();
    assert_eq!(keeper.fast_get_tr(), 0);
    keeper.add(fx(110.0), fx(100.0), fx(105.0));
    // no close before this candle: zero stands in for it
    assert_eq!(keeper.fast_get_tr(), fx(110.0));
    keeper.add(fx(115.0), fx(107.0), fx(110.0));
    assert_eq!(keeper.fast_get_tr(), fx(10.0));
}

#[test]
fn test_atr_peek_exact_values() {
    let mut keeper = AtrKeeper::new(14, 60).unwrap();
    keeper.add(fx(110.0), fx(100.0), fx(105.0));
    // (0 * 13 + 10) / 14, rounded down
    assert_eq!(keeper.peek_next(fx(115.0), fx(105.0)), 714285);
    keeper.add(fx(115.0), fx(105.0), fx(110.0));
    // (10 * 13 + 10) / 14
    assert_eq!(keeper.peek_next(fx(120.0), fx(110.0)), fx(10.0));
}

#[test]
fn test_atr_peek_agrees_with_add_on_full_even_window() {
    let mut keeper = AtrKeeper::new(2, 60).unwrap();
    keeper.add(fx(10.0), fx(0.0), fx(5.0));
    keeper.add(fx(15.0), fx(5.0), fx(10.0));
    keeper.add(fx(20.0), fx(10.0), fx(15.0));
    assert_eq!(keeper.get(), fx(10.0));
    let peeked = keeper.peek_next(fx(30.0), fx(12.0));
    keeper.add(fx(30.0), fx(12.0), fx(20.0));
    assert_eq!(peeked, fx(14.0));
    assert_eq!(keeper.get(), peeked);
}

#[test]
fn test_atr_keeps_period_candles() {
    let mut keeper = AtrKeeper::new(3, 60).unwrap();
    for i in 0..10 {
        keeper.add(fx(110.0 + i as f64), fx(100.0), fx(105.0));
    }
    assert_eq!(keeper.size(), 3);
}

#[test]
fn test_fluctuant_index_exact() {
    let mut keeper = AtrKeeper::new(14, 60).unwrap();
    keeper.add(fx(110.0), fx(100.0), fx(105.0));
    keeper.add(fx(115.0), fx(105.0), fx(100.0));
    let mut day_avg_atr = HashMap::new();
    day_avg_atr.insert(60, fx(0.01));
    // 10000 * (10 / 100 - 0.01) = 900
    assert_eq!(keeper.fluctuant_index(&day_avg_atr), Some(fx(900.0)));
    // no average for this candle length: zero stands in
    let other: HashMap<usize, i64> = HashMap::new();
    assert_eq!(keeper.fluctuant_index(&other), Some(fx(1000.0)));
}

#[test]
fn test_fluctuant_index_undefined_at_zero_close() {
    let mut keeper = AtrKeeper::new(14, 60).unwrap();
    keeper.add(fx(110.0), fx(100.0), fx(105.0));
    keeper.add(fx(115.0), fx(105.0), 0);
    let day_avg_atr = HashMap::new();
    assert_eq!(keeper.fluctuant_index(&day_avg_atr), None);
}

#[test]
fn test_atr_peek_candle_agrees_with_add() {
    let mut keeper = AtrKeeper::new(3, 60).unwrap();
    let candles = [
        (110.0, 100.0, 105.0),
        (115.0, 105.0, 110.0),
        (111.0, 109.5, 110.0),
        (130.0, 108.0, 129.0),
        (129.5, 120.0, 121.0),
        (121.0, 121.0, 121.0),
        (140.0, 90.0, 100.0),
    ];
    for (h, l, c) in candles {
        let before = (keeper.get(), keeper.size());
        let peeked = keeper.peek_candle(fx(h), fx(l));
        assert_eq!((keeper.get(), keeper.size()), before);
        keeper.add(fx(h), fx(l), fx(c));
        assert_eq!(keeper.get(), peeked);
    }
}

#[test]
fn test_atr_peek_candle_exact_values() {
    let mut keeper = AtrKeeper::new(14, 60).unwrap();
    // the first candle has no close before it: the average stays
    assert_eq!(keeper.peek_candle(fx(110.0), fx(100.0)), 0);
    keeper.add(fx(110.0), fx(100.0), fx(105.0));
    assert_eq!(keeper.peek_candle(fx(115.0), fx(105.0)), fx(10.0));
    // where the closed form of peek_next gives (0 * 13 + 10) / 14
    assert_eq!(keeper.peek_next(fx(115.0), fx(105.0)), 714_285);
}
