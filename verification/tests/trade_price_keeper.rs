use keepers::common_utils::{get_variance, BUY, SELL};
use keepers::error::KeeperError;
use keepers::fixed::SCALE;
use keepers::trade_price_keeper::{TradeMessage, TradePriceKeeper};

fn fx(x: f64) -> i64 {
    (x * SCALE as f64).round() as i64
}

fn record(keeper: &mut TradePriceKeeper, time: u64, price: f64, side: bool) {
    keeper.on_receive_trade(&TradeMessage { price: fx(price), side });
    keeper.on_period_callback(time);
}

#[test]
fn test_trade_keeper_starts_empty() {
    let keeper = TradePriceKeeper::new(1000, 5);
    assert_eq!(keeper.get_history_prices_size(), 0);
    assert_eq!(keeper.get_current_price(), 0);
    assert_eq!(keeper.get_current_price_side(), fx(-1.0));
    assert_eq!(keeper.get_side_ratio(0), 0);
    assert_eq!(keeper.get_history_side(0), Err(KeeperError::EmptyHistory));
    assert_eq!(keeper.get_history_ts_safe(-1), Err(KeeperError::EmptyHistory));
}

#[test]
fn test_trade_period_without_price_records_nothing() {
    let mut keeper = TradePriceKeeper::new(1000, 5);
    keeper.on_period_callback(1000);
    assert_eq!(keeper.get_history_prices_size(), 0);
    keeper.on_receive_trade(&TradeMessage { price: 0, side: BUY });
    keeper.on_period_callback(2000);
    assert_eq!(keeper.get_history_prices_size(), 0);
    keeper.on_receive_trade(&TradeMessage { price: fx(-3.0), side: BUY });
    keeper.on_period_callback(3000);
    assert_eq!(keeper.get_history_prices_size(), 0);
    assert_eq!(keeper.get_current_price(), fx(-3.0));
}

#[test]
fn test_trade_history_lookup_from_both_ends() {
    let mut keeper = TradePriceKeeper::new(1000, 5);
    record(&mut keeper, 1000, 10.0, BUY);
    record(&mut keeper, 2000, 11.0, SELL);
    record(&mut keeper, 3000, 12.0, BUY);
    assert_eq!(keeper.get_history_prices_size(), 3);
    assert_eq!(keeper.get_history_price(0), fx(10.0));
    assert_eq!(keeper.get_history_price(2), fx(12.0));
    assert_eq!(keeper.get_history_price(-1), fx(12.0));
    assert_eq!(keeper.get_history_price(-2), fx(11.0));
    assert_eq!(keeper.get_history_price(-3), fx(10.0));
    assert_eq!(keeper.get_history_ts(0), 1000);
    assert_eq!(keeper.get_history_ts(-1), 3000);
    assert_eq!(keeper.get_history_side(0), Ok(fx(1.0)));
    assert_eq!(keeper.get_history_side(-2), Ok(fx(-1.0)));
    assert_eq!(keeper.get_history_ts_safe(1), Ok(2000));
    assert_eq!(keeper.get_history_ts_safe(-3), Ok(1000));
}

#[test]
fn test_trade_history_lookup_out_of_range() {
    let mut keeper = TradePriceKeeper::new(1000, 5);
    record(&mut keeper, 1000, 10.0, BUY);
    record(&mut keeper, 2000, 11.0, SELL);
    assert_eq!(keeper.get_history_side(2), Err(KeeperError::IndexOutOfRange));
    assert_eq!(keeper.get_history_side(-3), Err(KeeperError::IndexOutOfRange));
    assert_eq!(keeper.get_history_ts_safe(i64::MAX), Err(KeeperError::IndexOutOfRange));
    assert_eq!(keeper.get_history_ts_safe(i64::MIN), Err(KeeperError::IndexOutOfRange));
    assert_eq!(keeper.get_history_side(1), Ok(fx(-1.0)));
    assert_eq!(keeper.get_history_side(-2), Ok(fx(1.0)));
}

#[test]
fn test_trade_history_is_bounded() {
    let mut keeper = TradePriceKeeper::new(1000, 3);
    for i in 0..10u64 {
        record(&mut keeper, 1000 * i, 10.0 + i as f64, BUY);
    }
    assert_eq!(keeper.get_history_prices_size(), 3);
    assert_eq!(keeper.get_history_price(0), fx(17.0));
    assert_eq!(keeper.get_history_price(-1), fx(19.0));
    assert_eq!(keeper.get_history_ts(0), 7000);
}

#[test]
fn test_trade_keeper_without_capacity_keeps_nothing() {
    let mut keeper = TradePriceKeeper::new(1000, 0);
    record(&mut keeper, 1000, 10.0, BUY);
    assert_eq!(keeper.get_history_prices_size(), 0);
    assert_eq!(keeper.get_current_price(), fx(10.0));
}

#[test]
fn test_current_price_side_by_majority_of_last_ten() {
    let mut keeper = TradePriceKeeper::new(1000, 20);
    for i in 0..6u64 {
        record(&mut keeper, i, 10.0, BUY);
    }
    assert_eq!(keeper.get_current_price_side(), fx(1.0));
    for i in 6..11u64 {
        record(&mut keeper, i, 10.0, SELL);
    }
    // the last ten: five buys, five sells; a tie is not a majority of buys
    assert_eq!(keeper.get_current_price_side(), fx(-1.0));
    record(&mut keeper, 11, 10.0, BUY);
    // four buys from before, five sells, one buy
    assert_eq!(keeper.get_current_price_side(), fx(-1.0));
    record(&mut keeper, 12, 10.0, BUY);
    record(&mut keeper, 13, 10.0, BUY);
    assert_eq!(keeper.get_current_price_side(), fx(-1.0));
    record(&mut keeper, 14, 10.0, BUY);
    // one buy from before, five sells, four buys
    assert_eq!(keeper.get_current_price_side(), fx(-1.0));
    record(&mut keeper, 15, 10.0, BUY);
    record(&mut keeper, 16, 10.0, BUY);
    // four sells, six buys
    assert_eq!(keeper.get_current_price_side(), fx(1.0));
}

#[test]
fn test_side_ratio_over_recent_records() {
    let mut keeper = TradePriceKeeper::new(1000, 20);
    record(&mut keeper, 1000, 10.0, SELL);
    record(&mut keeper, 2000, 10.0, BUY);
    record(&mut keeper, 3000, 10.0, BUY);
    record(&mut keeper, 4000, 10.0, SELL);
    record(&mut keeper, 5000, 10.0, BUY);
    // all five: three buys, two sells
    assert_eq!(keeper.get_side_ratio(0), fx(0.2));
    assert_eq!(keeper.get_side_ratio(1000), fx(0.2));
    // from 2000 on: three buys, one sell
    assert_eq!(keeper.get_side_ratio(1001), fx(0.5));
    // from 3000 on: two buys, one sell
    assert_eq!(keeper.get_side_ratio(3000), 333_333);
    // from 4000 on: one each
    assert_eq!(keeper.get_side_ratio(4000), 0);
    assert_eq!(keeper.get_side_ratio(5000), fx(1.0));
    assert_eq!(keeper.get_side_ratio(5001), 0);
}

#[test]
fn test_side_ratio_rounds_down_and_stops_at_an_older_record() {
    let mut keeper = TradePriceKeeper::new(1000, 20);
    record(&mut keeper, 9000, 10.0, BUY);
    record(&mut keeper, 1000, 10.0, BUY);
    record(&mut keeper, 5000, 10.0, SELL);
    record(&mut keeper, 6000, 10.0, SELL);
    record(&mut keeper, 7000, 10.0, BUY);
    // walking back from the newest, the record at 1000 ends the run although
    // an older one is late enough: one buy, two sells
    assert_eq!(keeper.get_side_ratio(2000), -333_334);
}

#[test]
fn test_get_variance() {
    let mut keeper = TradePriceKeeper::new(1000, 20);
    for (i, p) in [2.0, 4.0, 4.0, 4.0, 5.0, 5.0, 7.0, 9.0].iter().enumerate() {
        record(&mut keeper, i as u64, *p, BUY);
    }
    assert_eq!(get_variance(&keeper, 0, 8, fx(5.0)), fx(2.0));
    // the three prices at 2, 3 and 4 about 4: sqrt(1/3)
    assert_eq!(get_variance(&keeper, 2, 5, fx(4.0)), 577_350);
    assert_eq!(get_variance(&keeper, -6, -3, fx(4.0)), 577_350);
    assert_eq!(get_variance(&keeper, 2, -3, fx(4.0)), 577_350);
    assert_eq!(get_variance(&keeper, -6, 5, fx(4.0)), 577_350);
    // a single price about itself
    assert_eq!(get_variance(&keeper, -1, 8, fx(9.0)), 0);
}

#[test]
fn test_get_variance_of_empty_history_is_zero() {
    let keeper = TradePriceKeeper::new(1000, 20);
    assert_eq!(get_variance(&keeper, 0, 5, fx(1.0)), 0);
    assert_eq!(get_variance(&keeper, 3, 1, fx(1.0)), 0);
}
