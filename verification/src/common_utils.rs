//! What the trackers share: the two sides of a trade, and the spread of a
//! stretch of trade prices or of a series of returns.

use vstd::pervasive::unreached;
use vstd::prelude::*;
use crate::deviation::{spread_about, sum_sq_dev, SquareAcc};
use crate::fixed::{div_floor, quotient, ratio};
use crate::history::{position, signed_index};
use crate::series::{lemma_mean_bounds, lemma_sum_bounds, lemma_sum_push, seq_mean, seq_sum};
use crate::trade_price_keeper::TradePriceKeeper;

verus! {

/// The side of a trade that a buyer started.
pub const BUY: bool = true;

/// The side of a trade that a seller started.
pub const SELL: bool = false;

/// The change from `prev` to `cur` as a share of `prev`.
pub open spec fn relative_change(prev: i64, cur: i64) -> i64
    recommends
        prev > 0,
{
    quotient(cur - prev, prev as int) as i64
}

/// The returns of the prices `w`: for each price but the first, its change
/// relative to the price before it, where that price is above zero.
pub open spec fn returns_of(w: Seq<i64>) -> Seq<i64>
    decreases w.len(),
{
    if w.len() < 2 {
        Seq::empty()
    } else if w[w.len() - 2] > 0 {
        returns_of(w.drop_last()).push(relative_change(w[w.len() - 2], w.last()))
    } else {
        returns_of(w.drop_last())
    }
}

/// The population standard deviation of the returns of the prices `w`
/// about their mean; zero if there is no return.
pub open spec fn volatility_of(w: Seq<i64>) -> i64 {
    let r = returns_of(w);
    if r.len() == 0 {
        0
    } else {
        spread_about(r, seq_mean(r)) as i64
    }
}

/// The volatility at position `i` of the series `prices` over windows of
/// `period` prices: that of the window ending at `i`, once there is a full
/// one.
pub open spec fn rolling_volatility(prices: Seq<i64>, period: nat, i: int) -> Option<i64> {
    if period == 0 || prices.len() < period || i < period - 1 {
        None
    } else {
        Some(volatility_of(prices.subrange(i + 1 - period, i + 1)))
    }
}

/// The population standard deviation about `mean` of the recorded trade
/// prices from `start_index` up to, not including, `end_index`; zero if there
/// is no record. Both count from the oldest record, or from the newest if
/// negative.
pub fn get_variance(
    price_keeper: &TradePriceKeeper,
    start_index: i64,
    end_index: i64,
    mean: i64,
) -> (spread: i64)
    requires
        price_keeper@.prices.len() > 0 ==> 0 <= position(price_keeper@.prices.len(), start_index)
            < position(price_keeper@.prices.len(), end_index) <= price_keeper@.prices.len(),
    ensures
        spread == (if price_keeper@.prices.len() == 0 {
            0
        } else {
            spread_about(
                price_keeper@.prices.subrange(
                    position(price_keeper@.prices.len(), start_index),
                    position(price_keeper@.prices.len(), end_index),
                ),
                mean as int,
            )
        }),
{
    let size: usize = price_keeper.get_history_prices_size();

    if size == 0 {
        return 0;
    }
    let start: usize = if start_index < 0 {
        (size as i128 + start_index as i128) as usize
    } else {
        start_index as usize
    };
    let end: usize = if end_index < 0 {
        (size as i128 + end_index as i128) as usize
    } else {
        end_index as usize
    };

    if end <= start || end > size {
        return unreached();
    }
    let ghost prices = price_keeper@.prices;
    let mut acc = SquareAcc::new(end - start);
    let mut index: usize = start;
    assert(prices.subrange(start as int, start as int) =~= Seq::<i64>::empty());
    while index < end
        invariant
            start <= index <= end <= size,
            size == prices.len(),
            prices == price_keeper@.prices,
            acc.wf(),
            acc.size() == end - start,
            acc.terms() == index - start,
            acc.total() == sum_sq_dev(prices.subrange(start as int, index as int), mean as int),
        decreases end - index,
    {
        let price: i64 = price_keeper.get_history_price(signed_index(size, index));
        assert(prices.subrange(start as int, index + 1).drop_last() =~= prices.subrange(
            start as int,
            index as int,
        ));
        acc.feed(price as i128 - mean as i128);
        index = index + 1;
    }
    acc.root()
}

/// The mean of `values`, rounded down.
fn mean_of(values: &Vec<i64>) -> (mean: i64)
    requires
        values@.len() > 0,
    ensures
        mean == seq_mean(values@),
{
    let n: usize = values.len();
    let mut sum: i128 = 0;
    let mut k: usize = 0;
    assert(values@.subrange(0, 0) =~= Seq::<i64>::empty());
    while k < n
        invariant
            k <= n,
            n == values@.len(),
            sum == seq_sum(values@.subrange(0, k as int)),
        decreases n - k,
    {
        proof {
            assert(values@.subrange(0, k + 1) =~= values@.subrange(0, k as int).push(
                values@[k as int],
            ));
            lemma_sum_push(values@.subrange(0, k as int), values@[k as int]);
            lemma_sum_bounds(values@.subrange(0, k as int));
            lemma_sum_bounds(values@.subrange(0, k + 1));
        }
        sum = sum + values[k] as i128;
        k = k + 1;
    }
    proof {
        assert(values@.subrange(0, n as int) =~= values@);
        lemma_mean_bounds(values@);
    }
    div_floor(sum, n as i128) as i64
}

/// The population standard deviation of `values` about `center`.
fn spread_of(values: &Vec<i64>, center: i64) -> (spread: i64)
    requires
        values@.len() > 0,
    ensures
        spread == spread_about(values@, center as int),
{
    let n: usize = values.len();
    let mut acc = SquareAcc::new(n);
    let mut k: usize = 0;
    assert(values@.subrange(0, 0) =~= Seq::<i64>::empty());
    while k < n
        invariant
            k <= n,
            n == values@.len(),
            acc.wf(),
            acc.size() == n,
            acc.terms() == k,
            acc.total() == sum_sq_dev(values@.subrange(0, k as int), center as int),
        decreases n - k,
    {
        assert(values@.subrange(0, k + 1).drop_last() =~= values@.subrange(0, k as int));
        acc.feed(values[k] as i128 - center as i128);
        k = k + 1;
    }
    assert(values@.subrange(0, n as int) =~= values@);
    acc.root()
}

/// The volatility of the prices from `start` up to, not including, `end`.
fn window_volatility(prices: &[i64], start: usize, end: usize) -> (vol: i64)
    requires
        start <= end <= prices@.len(),
    ensures
        vol == volatility_of(prices@.subrange(start as int, end as int)),
{
    let mut changes: Vec<i64> = Vec::new();
    if end - start >= 2 {
        let mut j: usize = start + 1;
        assert(returns_of(prices@.subrange(start as int, start + 1)) =~= Seq::<i64>::empty());
        while j < end
            invariant
                start < j <= end <= prices@.len(),
                changes@ == returns_of(prices@.subrange(start as int, j as int)),
            decreases end - j,
        {
            let ghost w = prices@.subrange(start as int, j + 1);
            assert(w.drop_last() =~= prices@.subrange(start as int, j as int));
            assert(w[w.len() - 2] == prices@[j - 1] && w.last() == prices@[j as int]);
            if prices[j - 1] > 0 {
                let rise: i128 = prices[j] as i128 - prices[j - 1] as i128;
                let ret: i64 = ratio(rise, prices[j - 1] as i128);
                changes.push(ret);
            }
            j = j + 1;
        }
    }
    if changes.len() == 0 {
        0
    } else {
        let mean: i64 = mean_of(&changes);
        spread_of(&changes, mean)
    }
}

/// The volatility of `prices` over rolling windows of `period` prices: for
/// each position from which a full window reaches back, the population
/// standard deviation of the returns within that window; nothing before, and
/// nothing at all if `period` is zero or above the number of prices.
pub fn calculate_volatility_percentage(
    prices: &[i64],
    period: usize,
) -> (volatilities: Vec<Option<i64>>)
    ensures
        volatilities@.len() == prices@.len(),
        forall|i: int|
            0 <= i < prices@.len() ==> #[trigger] volatilities@[i] == rolling_volatility(
                prices@,
                period as nat,
                i,
            ),
{
    let n: usize = prices.len();
    let mut volatilities: Vec<Option<i64>> = Vec::new();
    let quiet: usize = if period == 0 || n < period {
        n
    } else {
        period - 1
    };
    let mut i: usize = 0;
    while i < quiet
        invariant
            i <= quiet <= n,
            n == prices@.len(),
            quiet == (if period == 0 || n < period {
                n
            } else {
                (period - 1) as usize
            }),
            volatilities@.len() == i,
            forall|k: int|
                0 <= k < i ==> #[trigger] volatilities@[k] == rolling_volatility(
                    prices@,
                    period as nat,
                    k,
                ),
        decreases quiet - i,
    {
        volatilities.push(None);
        i = i + 1;
    }
    while i < n
        invariant
            quiet <= i <= n,
            n == prices@.len(),
            1 <= period <= n || i == n,
            quiet == (if period == 0 || n < period {
                n
            } else {
                (period - 1) as usize
            }),
            volatilities@.len() == i,
            forall|k: int|
                0 <= k < i ==> #[trigger] volatilities@[k] == rolling_volatility(
                    prices@,
                    period as nat,
                    k,
                ),
        decreases n - i,
    {
        let window_start: usize = i + 1 - period;
        let vol: i64 = window_volatility(prices, window_start, i + 1);
        volatilities.push(Some(vol));
        i = i + 1;
    }
    volatilities
}

} // verus!
