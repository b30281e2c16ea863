use keepers::error::KeeperError;
use keepers::fixed::SCALE;
use keepers::kdj_keeper::KdjKeeper;

fn fx(x: f64) -> i64 {
    (x * SCALE as f64).round() as i64
}

fn to_f(x: i64) -> f64 {
    x as f64 / SCALE as f64
}

#[test]
fn test_kdj_new() {
    let keeper = KdjKeeper::new(9, 3, 3);
    let (k, d, j) = keeper.get();
    assert_eq!(k, fx(0.0));
    assert_eq!(d, fx(0.0));
    assert_eq!(j, fx(0.0));
}

#[test]
fn kdj_keeper_test_peek_next() {
    let mut keeper = KdjKeeper::new(9, 3, 3);
    keeper.add(fx(110.0), fx(100.0), fx(105.0)).unwrap();
    keeper.add(fx(115.0), fx(105.0), fx(110.0)).unwrap();

    let k_fast = keeper.peek_next(fx(112.0));
    assert!(k_fast >= fx(0.0) && k_fast <= fx(100.0));
}

#[test]
fn kdj_keeper_test_add() {
    let mut keeper = KdjKeeper::new(9, 3, 3);
    keeper.add(fx(110.0), fx(100.0), fx(105.0)).unwrap();
    keeper.add(fx(115.0), fx(105.0), fx(110.0)).unwrap();

    let (k, d, j) = keeper.get();
    assert!(to_f(k).is_finite());
    assert!(to_f(d).is_finite());
    assert!(to_f(j).is_finite());
}

#[test]
fn test_get_j_centered() {
    let mut keeper = KdjKeeper::new(9, 3, 3);
    keeper.add(fx(110.0), fx(100.0), fx(105.0)).unwrap();
    keeper.add(fx(115.0), fx(105.0), fx(110.0)).unwrap();

    let j_centered = keeper.get_j_centered();
    assert!(to_f(j_centered).is_finite());
}

#[test]
fn test_is_over_bought_sold() {
    let mut keeper = KdjKeeper::new(9, 3, 3);
    for i in 0..20 {
        keeper.add(fx(110.0 + i as f64), fx(100.0), fx(105.0 + i as f64)).unwrap();
    }

    let result = keeper.is_over_bought_sold(fx(80.0), fx(20.0));
    assert!(to_f(result).is_finite());
}

#[test]
fn test_is_peak_bottom() {
    let mut keeper = KdjKeeper::new(9, 3, 3);
    for i in 0..20 {
        keeper.add(fx(110.0 + i as f64), fx(100.0), fx(105.0 + i as f64)).unwrap();
    }

    let result = keeper.is_peak_bottom(fx(90.0), fx(10.0));
    assert!(to_f(result).is_finite());
}

#[test]
fn test_kdj_exact_values() {
    let mut keeper = KdjKeeper::new(9, 3, 3);
    keeper.add(fx(110.0), fx(100.0), fx(105.0)).unwrap();
    assert_eq!(keeper.get(), (fx(50.0), fx(50.0), fx(50.0)));
    assert_eq!(keeper.length(), 2);
    keeper.add(fx(115.0), fx(105.0), fx(110.0)).unwrap();
    // raw readings 50 and 66.666666: K = 58.333333, D = (50 + 58.333333) / 2
    assert_eq!(keeper.get(), (58_333_333, 54_166_666, 66_666_667));
    assert_eq!(keeper.length(), 4);
    assert_eq!(keeper.get_j_centered(), 16_666_667);
    assert_eq!(keeper.peek_next(fx(112.0)), fx(80.0));
    // a close outside the range reads outside the scale
    assert_eq!(keeper.peek_next(fx(130.0)), fx(200.0));
    assert_eq!(keeper.peek_next(fx(85.0)), fx(-100.0));
}

#[test]
fn test_kdj_peek_on_flat_range_is_zero() {
    let mut keeper = KdjKeeper::new(9, 3, 3);
    assert_eq!(keeper.peek_next(fx(105.0)), 0);
    keeper.add(fx(100.0), fx(100.0), fx(100.0)).unwrap();
    assert_eq!(keeper.peek_next(fx(105.0)), 0);
    assert_eq!(keeper.get(), (0, 0, 0));
}

#[test]
fn test_kdj_peek_agrees_with_add_inside_the_range() {
    let mut keeper = KdjKeeper::new(9, 1, 1);
    keeper.add(fx(110.0), fx(100.0), fx(105.0)).unwrap();
    // a candle that repeats the extremes leaves them as they are
    let peeked = keeper.peek_next(fx(107.0));
    keeper.add(fx(110.0), fx(100.0), fx(107.0)).unwrap();
    let (k, _, _) = keeper.get();
    assert_eq!(peeked, fx(70.0));
    assert_eq!(k, peeked);
}

#[test]
fn test_kdj_signals_after_a_rally() {
    let mut keeper = KdjKeeper::new(9, 3, 3);
    assert_eq!(keeper.is_over_bought_sold(fx(80.0), fx(20.0)), 1);
    assert_eq!(keeper.is_peak_bottom(fx(90.0), fx(10.0)), 1);
    assert_eq!(keeper.is_cross_golden_death(fx(100.0), fx(0.0)), 1);
    for i in 0..20 {
        keeper.add(fx(110.0 + i as f64), fx(100.0), fx(105.0 + i as f64)).unwrap();
    }
    assert_eq!(keeper.get(), (82_127_652, 81_447_470, 83_488_016));
    assert_eq!(keeper.length(), 18);
    // D = 81.44747 is above 80
    assert_eq!(keeper.is_over_bought_sold(fx(80.0), fx(20.0)), fx(1.0));
    assert_eq!(keeper.is_over_bought_sold(fx(90.0), fx(85.0)), fx(-1.0));
    assert_eq!(keeper.is_over_bought_sold(fx(90.0), fx(20.0)), fx(1e-6));
    // J = 83.488016 is between 10 and 90
    assert_eq!(keeper.is_peak_bottom(fx(90.0), fx(10.0)), fx(1e-6));
    assert_eq!(keeper.is_peak_bottom(fx(83.0), fx(10.0)), fx(1.0));
    assert_eq!(keeper.is_peak_bottom(fx(90.0), fx(84.0)), fx(-1.0));
    // K was above D before as well: no cross
    assert_eq!(keeper.is_cross_golden_death(fx(100.0), fx(0.0)), fx(1e-6));
}

#[test]
fn test_kdj_golden_and_death_cross() {
    let mut keeper = KdjKeeper::new(9, 2, 2);
    keeper.add(fx(110.0), fx(100.0), fx(108.0)).unwrap();
    // one reading only: no cross can be told
    assert_eq!(keeper.is_cross_golden_death(fx(100.0), fx(0.0)), fx(1e-6));
    keeper.add(fx(110.0), fx(100.0), fx(102.0)).unwrap();
    keeper.add(fx(110.0), fx(100.0), fx(101.0)).unwrap();
    assert_eq!(keeper.get(), (fx(15.0), fx(32.5), fx(-20.0)));
    keeper.add(fx(110.0), fx(100.0), fx(109.0)).unwrap();
    // K rose from 15 to 50, D stayed at 32.5: K crossed up
    assert_eq!(keeper.get(), (fx(50.0), fx(32.5), fx(85.0)));
    assert_eq!(keeper.is_cross_golden_death(fx(70.0), fx(30.0)), fx(1.0));
    assert_eq!(keeper.is_cross_golden_death(fx(50.0), fx(30.0)), fx(1.0));
    // K is above the threshold for a golden cross
    assert_eq!(keeper.is_cross_golden_death(fx(49.0), fx(30.0)), fx(1e-6));
    keeper.add(fx(110.0), fx(100.0), fx(100.0)).unwrap();
    // K fell from 50 to 45, D rose from 32.5 to 47.5: K crossed down
    assert_eq!(keeper.get(), (fx(45.0), fx(47.5), fx(40.0)));
    assert_eq!(keeper.is_cross_golden_death(fx(70.0), fx(30.0)), fx(-1.0));
    assert_eq!(keeper.is_cross_golden_death(fx(70.0), fx(45.0)), fx(-1.0));
    // K is below the threshold for a death cross
    assert_eq!(keeper.is_cross_golden_death(fx(70.0), fx(46.0)), fx(1e-6));
}

#[test]
fn test_kdj_single_reading_window_tells_no_cross() {
    let mut keeper = KdjKeeper::new(9, 1, 2);
    keeper.add(fx(110.0), fx(100.0), fx(102.0)).unwrap();
    keeper.add(fx(110.0), fx(100.0), fx(106.0)).unwrap();
    assert_eq!(keeper.get(), (fx(60.0), fx(40.0), fx(100.0)));
    assert_eq!(keeper.is_cross_golden_death(fx(70.0), fx(30.0)), fx(1e-6));
}

#[test]
fn test_kdj_without_fast_period_refuses_candles() {
    let mut keeper = KdjKeeper::new(0, 3, 3);
    assert_eq!(keeper.add(fx(110.0), fx(100.0), fx(105.0)), Err(KeeperError::NotConfigured));
    assert_eq!(keeper.get(), (0, 0, 0));
    assert_eq!(keeper.length(), 0);
    assert_eq!(keeper.is_over_bought_sold(fx(80.0), fx(20.0)), 1);
}

#[test]
fn test_kdj_peek_candle_agrees_with_add() {
    let mut keeper = KdjKeeper::new(2, 3, 2);
    let candles = [
        (110.0, 100.0, 105.0),
        (115.0, 105.0, 110.0),
        (115.0, 114.9, 115.0),
        (115.0, 115.0, 115.0),
        (115.01, 115.0, 115.0),
        (90.0, 80.0, 85.0),
        (91.0, 89.0, 92.0),
        (91.0, 89.0, 70.0),
        (91.0, 90.99, 91.0),
    ];
    for (h, l, c) in candles {
        let before = (keeper.get(), keeper.length());
        let peeked = keeper.peek_candle(fx(h), fx(l), fx(c)).unwrap();
        assert_eq!((keeper.get(), keeper.length()), before);
        keeper.add(fx(h), fx(l), fx(c)).unwrap();
        assert_eq!(keeper.get(), peeked);
    }
}

#[test]
fn test_kdj_peek_candle_exact_values() {
    let mut keeper = KdjKeeper::new(9, 3, 3);
    // where peek_next, against the empty range, reads zero
    assert_eq!(keeper.peek_next(fx(105.0)), 0);
    assert_eq!(keeper.peek_candle(fx(110.0), fx(100.0), fx(105.0)), Ok((fx(50.0), fx(50.0), fx(50.0))));
    keeper.add(fx(110.0), fx(100.0), fx(105.0)).unwrap();
    assert_eq!(
        keeper.peek_candle(fx(115.0), fx(105.0), fx(110.0)),
        Ok((58_333_333, 54_166_666, 66_666_667))
    );
    let idle = KdjKeeper::new(0, 3, 3);
    assert_eq!(idle.peek_candle(fx(110.0), fx(100.0), fx(105.0)), Err(KeeperError::NotConfigured));
}
