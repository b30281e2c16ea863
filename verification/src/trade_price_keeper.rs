//! The latest trade and a bounded history of the prices, sides and times
//! that were current at each period's end.

use std::collections::VecDeque;
use vstd::pervasive::unreached;
use vstd::prelude::*;
use crate::common_utils::BUY;
use crate::error::KeeperError;
use crate::fixed::{div_floor, SCALE};
use crate::history::{in_history, lookup, position, resolve_index};
use crate::series::{push_bounded, tail_of};

verus! {

/// How many of the newest sides decide the current side.
pub const SIDE_LOOKBACK: usize = 10;

/// A trade as it is received.
#[derive(Debug, Clone, Copy)]
pub struct TradeMessage {
    pub price: i64,
    pub side: bool,
}

/// The mark that stands for `side` in the history: one for a buy, minus one
/// for a sell.
pub open spec fn side_mark(side: bool) -> i64 {
    if side == BUY {
        SCALE
    } else {
        (-SCALE) as i64
    }
}

/// The number of buys among the marks `s`.
pub open spec fn buys(s: Seq<i64>) -> nat
    decreases s.len(),
{
    if s.len() == 0 {
        0
    } else if s[0] > 0 {
        1 + buys(s.drop_first())
    } else {
        buys(s.drop_first())
    }
}

/// The side that most of the marks `s` are on: one if the buys outnumber the
/// sells, else minus one.
pub open spec fn leading_side(s: Seq<i64>) -> i64 {
    if 2 * buys(s) > s.len() {
        SCALE
    } else {
        (-SCALE) as i64
    }
}

/// The length of the unbroken run of newest entries of `times` that are not
/// before `t`.
pub open spec fn recent_run(times: Seq<u64>, t: u64) -> nat
    decreases times.len(),
{
    if times.len() == 0 || times.last() < t {
        0
    } else {
        1 + recent_run(times.drop_last(), t)
    }
}

/// The surplus of buys over sells among the marks `s`, as a share of all of
/// them, rounded down; zero if there are none.
pub open spec fn side_balance(s: Seq<i64>) -> int {
    if s.len() == 0 {
        0
    } else {
        ((2 * buys(s) - s.len()) * SCALE) / (s.len() as int)
    }
}

/// What a [`TradePriceKeeper`] stands for.
pub struct TradeModel {
    /// The price of the latest trade; zero before the first.
    pub current_price: i64,
    /// The side of the latest trade.
    pub current_side: bool,
    /// The recorded prices, oldest first.
    pub prices: Seq<i64>,
    /// The recorded sides, as marks.
    pub sides: Seq<i64>,
    /// The times of the records.
    pub times: Seq<u64>,
    /// The most records that are kept.
    pub capacity: nat,
}

impl TradeModel {
    pub open spec fn new(capacity: nat) -> TradeModel {
        TradeModel {
            current_price: 0,
            current_side: BUY,
            prices: Seq::empty(),
            sides: Seq::empty(),
            times: Seq::empty(),
            capacity,
        }
    }

    /// Each record has a price, a side and a time.
    pub open spec fn wf(self) -> bool {
        self.prices.len() == self.sides.len() && self.sides.len() == self.times.len()
    }

    /// The state after a period has ended at `t`: a latest price above zero
    /// is recorded with its side.
    pub open spec fn on_period(self, t: u64) -> TradeModel {
        if self.current_price > 0 {
            TradeModel {
                prices: tail_of(self.prices.push(self.current_price), self.capacity),
                sides: tail_of(self.sides.push(side_mark(self.current_side)), self.capacity),
                times: tail_of(self.times.push(t), self.capacity),
                ..self
            }
        } else {
            self
        }
    }

    /// The state after a trade has been received.
    pub open spec fn on_trade(self, price: i64, side: bool) -> TradeModel {
        TradeModel { current_price: price, current_side: side, ..self }
    }

    /// The side that most of the newest ten records are on.
    pub open spec fn current_side_mark(self) -> i64 {
        leading_side(tail_of(self.sides, SIDE_LOOKBACK as nat))
    }

    /// The balance of the sides of the newest records not before `t`.
    pub open spec fn side_ratio(self, t: u64) -> int {
        side_balance(
            self.sides.subrange(
                self.sides.len() - recent_run(self.times, t),
                self.sides.len() as int,
            ),
        )
    }
}

/// Keeps the latest trade and a bounded history of what was current at the
/// end of each period.
pub struct TradePriceKeeper {
    frequency_ms: usize,
    current_price: i64,
    current_price_side: bool,
    history_price: VecDeque<i64>,
    history_sides: VecDeque<i64>,
    history_ts: VecDeque<u64>,
    max_length: usize,
}

impl View for TradePriceKeeper {
    type V = TradeModel;

    closed spec fn view(&self) -> TradeModel {
        TradeModel {
            current_price: self.current_price,
            current_side: self.current_price_side,
            prices: self.history_price@,
            sides: self.history_sides@,
            times: self.history_ts@,
            capacity: self.max_length as nat,
        }
    }
}

impl TradePriceKeeper {
    pub open spec fn wf(&self) -> bool {
        self@.wf()
    }

    /// Creates a keeper of at most `max_length` records, one for each period
    /// of `frequency_ms`.
    pub fn new(frequency_ms: usize, max_length: usize) -> (keeper: Self)
        ensures
            keeper.wf(),
            keeper@ == TradeModel::new(max_length as nat),
    {
        TradePriceKeeper {
            frequency_ms,
            current_price: 0,
            current_price_side: BUY,
            history_price: VecDeque::with_capacity(max_length),
            history_sides: VecDeque::with_capacity(max_length),
            history_ts: VecDeque::with_capacity(max_length),
            max_length,
        }
    }

    /// Ends a period at `timestamp`: records the latest price, if it is above
    /// zero, with its side and the time, and forgets the oldest records
    /// beyond the capacity.
    pub fn on_period_callback(&mut self, timestamp: u64)
        requires
            old(self).wf(),
        ensures
            final(self).wf(),
            final(self)@ == old(self)@.on_period(timestamp),
    {
        if self.current_price > 0 {
            let mark: i64 = if self.current_price_side == BUY {
                SCALE
            } else {
                -SCALE
            };
            push_bounded(&mut self.history_price, self.current_price, self.max_length);
            push_bounded(&mut self.history_sides, mark, self.max_length);
            push_bounded(&mut self.history_ts, timestamp, self.max_length);
        }
    }

    /// Takes the price and the side of a trade as the latest.
    pub fn on_receive_trade(&mut self, trade: &TradeMessage)
        ensures
            final(self)@ == old(self)@.on_trade(trade.price, trade.side),
    {
        self.current_price = trade.price;
        self.current_price_side = trade.side;
    }

    /// The recorded price at `index`, which counts from the oldest record, or
    /// from the newest if negative.
    pub fn get_history_price(&self, index: i64) -> (price: i64)
        requires
            in_history(self@.prices.len(), index),
        ensures
            price == self@.prices[position(self@.prices.len(), index)],
    {
        match resolve_index(self.history_price.len(), index) {
            Ok(at) => self.history_price[at],
            Err(_) => unreached(),
        }
    }

    /// The recorded time at `index`, which counts from the oldest record, or
    /// from the newest if negative.
    pub fn get_history_ts(&self, index: i64) -> (time: u64)
        requires
            in_history(self@.times.len(), index),
        ensures
            time == self@.times[position(self@.times.len(), index)],
    {
        match resolve_index(self.history_ts.len(), index) {
            Ok(at) => self.history_ts[at],
            Err(_) => unreached(),
        }
    }

    /// The number of records.
    pub fn get_history_prices_size(&self) -> (n: usize)
        ensures
            n == self@.prices.len(),
    {
        self.history_price.len()
    }

    /// The price of the latest trade.
    pub fn get_current_price(&self) -> (price: i64)
        ensures
            price == self@.current_price,
    {
        self.current_price
    }

    /// The side that most of the newest ten records are on: one if the buys
    /// outnumber the sells, else minus one.
    pub fn get_current_price_side(&self) -> (mark: i64)
        ensures
            mark == self@.current_side_mark(),
    {
        let mut buy_count: usize = 0;
        let mut sell_count: usize = 0;
        let len: usize = self.history_sides.len();
        let lookback: usize = if len < SIDE_LOOKBACK {
            len
        } else {
            SIDE_LOOKBACK
        };
        let ghost sides = self.history_sides@;
        let mut i: usize = 0;
        assert(sides.subrange(len as int, len as int) =~= Seq::<i64>::empty());
        while i < lookback
            invariant
                i <= lookback <= len,
                lookback <= SIDE_LOOKBACK,
                len == sides.len(),
                sides == self.history_sides@,
                buy_count == buys(sides.subrange(len - i, len as int)),
                buy_count + sell_count == i,
            decreases lookback - i,
        {
            let side: i64 = self.history_sides[len - 1 - i];
            assert(sides.subrange(len - (i + 1), len as int).drop_first() =~= sides.subrange(
                len - i,
                len as int,
            ));
            if side > 0 {
                buy_count = buy_count + 1;
            } else {
                sell_count = sell_count + 1;
            }
            i = i + 1;
        }
        assert(sides.subrange(len - lookback, len as int) =~= tail_of(sides, SIDE_LOOKBACK as nat));
        if buy_count > sell_count {
            SCALE
        } else {
            -SCALE
        }
    }

    /// The surplus of buys over sells, as a share of both, among the newest
    /// records whose times are not before `timestamp_to`; zero if there is
    /// none.
    pub fn get_side_ratio(&self, timestamp_to: u64) -> (ratio: i64)
        requires
            self.wf(),
        ensures
            ratio == self@.side_ratio(timestamp_to),
    {
        let mut buy_count: usize = 0;
        let mut sell_count: usize = 0;
        let size: usize = self.history_sides.len();
        let ghost sides = self.history_sides@;
        let ghost times = self.history_ts@;
        let mut i: usize = 0;
        assert(sides.subrange(size as int, size as int) =~= Seq::<i64>::empty());
        assert(times.subrange(0, size as int) =~= times);
        while i < size
            invariant_except_break
                recent_run(times, timestamp_to) == i + recent_run(
                    times.subrange(0, size - i),
                    timestamp_to,
                ),
            invariant
                i <= size,
                size == sides.len(),
                size == times.len(),
                sides == self.history_sides@,
                times == self.history_ts@,
                buy_count == buys(sides.subrange(size - i, size as int)),
                buy_count + sell_count == i,
            ensures
                recent_run(times, timestamp_to) == i,
            decreases size - i,
        {
            let ts: u64 = self.history_ts[size - 1 - i];
            assert(times.subrange(0, size - i).last() == ts);
            if ts < timestamp_to {
                break ;
            }
            assert(times.subrange(0, size - i).drop_last() =~= times.subrange(0, size - (i + 1)));
            let side: i64 = self.history_sides[size - 1 - i];
            assert(sides.subrange(size - (i + 1), size as int).drop_first() =~= sides.subrange(
                size - i,
                size as int,
            ));
            if side > 0 {
                buy_count = buy_count + 1;
            } else {
                sell_count = sell_count + 1;
            }
            i = i + 1;
        }

        let total: usize = buy_count + sell_count;
        if total == 0 {
            return 0;
        }
        let surplus: i128 = buy_count as i128 - sell_count as i128;
        assert(surplus * SCALE == surplus * 1_000_000);
        let ratio: i128 = div_floor(surplus * (SCALE as i128), total as i128);
        assert(-1_000_000 <= ratio <= 1_000_000) by {
            let n = surplus * 1_000_000;
            let d = total as int;
            vstd::arithmetic::div_mod::lemma_fundamental_div_mod(n, d);
            vstd::arithmetic::div_mod::lemma_mod_bound(n, d);
            assert(-1_000_000 <= n / d <= 1_000_000) by (nonlinear_arith)
                requires
                    n == d * (n / d) + n % d,
                    0 <= n % d < d,
                    -d * 1_000_000 <= n <= d * 1_000_000,
            ;
        }
        ratio as i64
    }

    /// The recorded side at `index`, as a mark, or why there is none.
    pub fn get_history_side(&self, index: i64) -> (res: Result<i64, KeeperError>)
        ensures
            match lookup(self@.sides.len(), index) {
                Ok(at) => res == Ok::<i64, KeeperError>(self@.sides[at]),
                Err(e) => res == Err::<i64, KeeperError>(e),
            },
    {
        match resolve_index(self.history_sides.len(), index) {
            Ok(at) => Ok(self.history_sides[at]),
            Err(e) => Err(e),
        }
    }

    /// The recorded time at `index`, or why there is none.
    pub fn get_history_ts_safe(&self, index: i64) -> (res: Result<u64, KeeperError>)
        ensures
            match lookup(self@.times.len(), index) {
                Ok(at) => res == Ok::<u64, KeeperError>(self@.times[at]),
                Err(e) => res == Err::<u64, KeeperError>(e),
            },
    {
        match resolve_index(self.history_ts.len(), index) {
            Ok(at) => Ok(self.history_ts[at]),
            Err(e) => Err(e),
        }
    }
}

} // verus!
