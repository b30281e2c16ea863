use keepers::common_utils::{calculate_volatility_percentage, BUY, SELL};
use keepers::deviation::SquareAcc;
use keepers::error::KeeperError;
use keepers::fixed::{
    div_floor, fx_add, fx_div, fx_mul, fx_sub, isqrt, percent_of_range, ratio, saturate, SCALE,
};
use keepers::history::{resolve_index, signed_index};
use keepers::series::{next_tick, push_bounded};
use std::collections::VecDeque;

fn fx(x: f64) -> i64 {
    (x * SCALE as f64).round() as i64
}

#[test]
fn test_sides() {
    assert!(BUY);
    assert!(!SELL);
}

#[test]
fn test_volatility_percentage_exact() {
    let prices: Vec<i64> = [100.0, 101.0, 102.0, 100.0, 0.0, 50.0, 51.0].iter().map(|p| fx(*p)).collect();
    let vols = calculate_volatility_percentage(&prices, 3);
    assert_eq!(vols, vec![None, None, Some(50), Some(14_754), Some(490_196), Some(0), Some(0)]);
}

#[test]
fn test_volatility_percentage_of_steady_growth_is_zero() {
    let prices = vec![fx(100.0), fx(110.0), fx(121.0)];
    assert_eq!(calculate_volatility_percentage(&prices, 2), vec![None, Some(0), Some(0)]);
    assert_eq!(calculate_volatility_percentage(&prices, 3), vec![None, None, Some(0)]);
}

#[test]
fn test_volatility_percentage_of_alternating_returns() {
    let prices = vec![fx(100.0), fx(110.0), fx(99.0), fx(108.9)];
    // returns 0.1, -0.1, 0.1 about their mean 0.033333
    assert_eq!(calculate_volatility_percentage(&prices, 4), vec![None, None, None, Some(94_280)]);
}

#[test]
fn test_volatility_percentage_without_a_full_window() {
    let prices = vec![fx(100.0), fx(110.0)];
    assert_eq!(calculate_volatility_percentage(&prices, 3), vec![None, None]);
    assert_eq!(calculate_volatility_percentage(&prices, 0), vec![None, None]);
    assert_eq!(calculate_volatility_percentage(&[], 3), Vec::<Option<i64>>::new());
    assert_eq!(calculate_volatility_percentage(&[], 0), Vec::<Option<i64>>::new());
}

#[test]
fn test_volatility_percentage_period_one() {
    let prices = vec![fx(100.0), fx(110.0), fx(90.0)];
    // a window of one price has no return
    assert_eq!(calculate_volatility_percentage(&prices, 1), vec![Some(0), Some(0), Some(0)]);
}

#[test]
fn test_volatility_percentage_extreme_prices() {
    let prices = vec![1, i64::MAX, 1, i64::MAX];
    let vols = calculate_volatility_percentage(&prices, 4);
    assert_eq!(vols.len(), 4);
    assert!(vols[3].unwrap() > 0);
}

#[test]
fn test_saturate() {
    assert_eq!(saturate(0), 0);
    assert_eq!(saturate(i64::MAX as i128), i64::MAX);
    assert_eq!(saturate(i64::MAX as i128 + 1), i64::MAX);
    assert_eq!(saturate(i64::MIN as i128), i64::MIN);
    assert_eq!(saturate(i64::MIN as i128 - 1), i64::MIN);
    assert_eq!(saturate(i128::MAX), i64::MAX);
    assert_eq!(saturate(i128::MIN), i64::MIN);
}

#[test]
fn test_div_floor() {
    assert_eq!(div_floor(7, 2), 3);
    assert_eq!(div_floor(-7, 2), -4);
    assert_eq!(div_floor(-8, 2), -4);
    assert_eq!(div_floor(0, 5), 0);
    assert_eq!(div_floor(-1, 5), -1);
    assert_eq!(div_floor(i128::MIN, 1), i128::MIN);
    assert_eq!(div_floor(i128::MIN, 2), i128::MIN / 2);
    assert_eq!(div_floor(i128::MIN + 1, 2), i128::MIN / 2);
    assert_eq!(div_floor(i128::MAX, i128::MAX), 1);
    assert_eq!(div_floor(i128::MIN, i128::MAX), -2);
}

#[test]
fn test_fixed_sum_and_difference() {
    assert_eq!(fx_add(fx(1.5), fx(2.25)), fx(3.75));
    assert_eq!(fx_add(i64::MAX, 1), i64::MAX);
    assert_eq!(fx_add(i64::MIN, -1), i64::MIN);
    assert_eq!(fx_sub(fx(1.5), fx(2.25)), fx(-0.75));
    assert_eq!(fx_sub(i64::MIN, 1), i64::MIN);
    assert_eq!(fx_sub(0, i64::MIN), i64::MAX);
}

#[test]
fn test_fixed_product() {
    assert_eq!(fx_mul(fx(1.5), fx(-2.5)), fx(-3.75));
    assert_eq!(fx_mul(fx(2.0), fx(3.0)), fx(6.0));
    // 0.000003 x 0.333333 is below a millionth: rounded down to zero
    assert_eq!(fx_mul(3, 333_333), 0);
    // minus a millionth squared in size, rounded down
    assert_eq!(fx_mul(-1, 1), -1);
    assert_eq!(fx_mul(i64::MAX, i64::MAX), i64::MAX);
    assert_eq!(fx_mul(i64::MIN, i64::MAX), i64::MIN);
    assert_eq!(fx_mul(i64::MIN, i64::MIN), i64::MAX);
}

#[test]
fn test_fixed_quotient() {
    assert_eq!(fx_div(fx(1.0), fx(3.0)), 333_333);
    assert_eq!(fx_div(fx(-1.0), fx(3.0)), -333_334);
    assert_eq!(fx_div(fx(1.0), fx(-3.0)), -333_334);
    assert_eq!(fx_div(fx(-1.0), fx(-3.0)), 333_333);
    assert_eq!(fx_div(fx(6.0), fx(3.0)), fx(2.0));
    assert_eq!(fx_div(i64::MAX, 1), i64::MAX);
    assert_eq!(fx_div(i64::MIN, 1), i64::MIN);
    assert_eq!(fx_div(i64::MIN, -1), i64::MAX);
    assert_eq!(fx_div(0, i64::MIN), 0);
    assert_eq!(ratio(1 << 96, 1 << 96), fx(1.0));
    assert_eq!(ratio(-(1 << 96), 1 << 96), fx(-1.0));
    assert_eq!(ratio(1 << 96, -1), i64::MIN);
}

#[test]
fn test_percent_of_range() {
    assert_eq!(percent_of_range(fx(5.0), fx(0.0), fx(10.0)), fx(50.0));
    assert_eq!(percent_of_range(fx(0.0), fx(0.0), fx(10.0)), 0);
    assert_eq!(percent_of_range(fx(10.0), fx(0.0), fx(10.0)), fx(100.0));
    assert_eq!(percent_of_range(fx(5.0), fx(7.0), fx(7.0)), 0);
    // a range given upside down
    assert_eq!(percent_of_range(fx(5.0), fx(10.0), fx(0.0)), fx(50.0));
    assert_eq!(percent_of_range(fx(1.0), fx(0.0), fx(3.0)), 33_333_333);
    assert_eq!(percent_of_range(fx(-1.0), fx(0.0), fx(3.0)), -33_333_334);
    assert_eq!(percent_of_range(i64::MAX, i64::MIN, 0), 199_999_999);
    assert_eq!(percent_of_range(i64::MIN, 0, 1), i64::MIN);
    assert_eq!(percent_of_range(i64::MAX, 0, 1), i64::MAX);
}

#[test]
fn test_isqrt() {
    assert_eq!(isqrt(0), 0);
    assert_eq!(isqrt(1), 1);
    assert_eq!(isqrt(3), 1);
    assert_eq!(isqrt(4), 2);
    assert_eq!(isqrt(99), 9);
    assert_eq!(isqrt(100), 10);
    assert_eq!(isqrt(2_000_000_000_000), 1_414_213);
    assert_eq!(isqrt(u128::MAX), u64::MAX);
    assert_eq!(isqrt((u64::MAX as u128) * (u64::MAX as u128)), u64::MAX);
    assert_eq!(isqrt((u64::MAX as u128) * (u64::MAX as u128) - 1), u64::MAX - 1);
    assert_eq!(isqrt(1 << 64), 1 << 32);
    assert_eq!(isqrt((1 << 64) - 1), (1 << 32) - 1);
}

#[test]
fn test_square_accumulator() {
    let values = [2.0, 4.0, 4.0, 4.0, 5.0, 5.0, 7.0, 9.0];
    let mut acc = SquareAcc::new(values.len());
    for v in values {
        acc.feed((fx(v) - fx(5.0)) as i128);
    }
    // the squares sum to 32, their mean is 4
    assert_eq!(acc.mean(), 4_000_000_000_000);
    assert_eq!(acc.root(), fx(2.0));
}

#[test]
fn test_square_accumulator_rounds_the_mean_down() {
    let mut acc = SquareAcc::new(3);
    acc.feed(1);
    acc.feed(-2);
    acc.feed(2);
    // 9 / 3
    assert_eq!(acc.mean(), 3);
    assert_eq!(acc.root(), 1);
    let mut acc = SquareAcc::new(3);
    acc.feed(1);
    acc.feed(1);
    assert_eq!(acc.mean(), 0);
    acc.feed(-3);
    // 11 / 3
    assert_eq!(acc.mean(), 3);
}

#[test]
fn test_square_accumulator_takes_the_widest_deviations() {
    let widest = u64::MAX as i128;
    let mut acc = SquareAcc::new(4);
    for d in [widest, -widest, widest, -widest] {
        acc.feed(d);
    }
    assert_eq!(acc.mean(), (u64::MAX as u128) * (u64::MAX as u128));
    // the root, 2^64 - 1, is clamped to the largest quantity
    assert_eq!(acc.root(), i64::MAX);
}

#[test]
fn test_resolve_index() {
    assert_eq!(resolve_index(0, 0), Err(KeeperError::EmptyHistory));
    assert_eq!(resolve_index(0, -1), Err(KeeperError::EmptyHistory));
    assert_eq!(resolve_index(3, 0), Ok(0));
    assert_eq!(resolve_index(3, 2), Ok(2));
    assert_eq!(resolve_index(3, 3), Err(KeeperError::IndexOutOfRange));
    assert_eq!(resolve_index(3, -1), Ok(2));
    assert_eq!(resolve_index(3, -3), Ok(0));
    assert_eq!(resolve_index(3, -4), Err(KeeperError::IndexOutOfRange));
    assert_eq!(resolve_index(usize::MAX, i64::MAX), Ok(i64::MAX as usize));
    assert_eq!(resolve_index(usize::MAX, i64::MIN), Ok(usize::MAX - (1 << 63)));
    assert_eq!(resolve_index(1, i64::MIN), Err(KeeperError::IndexOutOfRange));
}

#[test]
fn test_signed_index() {
    assert_eq!(signed_index(3, 0), 0);
    assert_eq!(signed_index(3, 2), 2);
    assert_eq!(signed_index(usize::MAX, usize::MAX - 1), -1);
    assert_eq!(resolve_index(usize::MAX, signed_index(usize::MAX, usize::MAX - 5)), Ok(usize::MAX - 5));
}

#[test]
fn test_push_bounded() {
    let mut history: VecDeque<i64> = VecDeque::new();
    for v in 1..=5 {
        push_bounded(&mut history, v, 3);
    }
    assert_eq!(history, VecDeque::from(vec![3, 4, 5]));
    // a smaller bound cuts deeper
    push_bounded(&mut history, 6, 1);
    assert_eq!(history, VecDeque::from(vec![6]));
    push_bounded(&mut history, 7, 0);
    assert!(history.is_empty());
}

#[test]
fn test_next_tick_stops_at_the_end() {
    assert_eq!(next_tick(0), 1);
    assert_eq!(next_tick(u64::MAX - 1), u64::MAX);
    assert_eq!(next_tick(u64::MAX), u64::MAX);
}
