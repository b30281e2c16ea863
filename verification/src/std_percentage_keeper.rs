//! The volatility of the mid price: the spread of its period-over-period
//! returns, read through a cache that is renewed once per period.

use std::collections::VecDeque;
use vstd::prelude::*;
use crate::common_utils::{calculate_volatility_percentage, rolling_volatility};
use crate::series::{push_bounded, tail_of};
use crate::tick_price_keeper::{mid_of, mid_price, TickModel, TickPriceKeeper};

verus! {

/// The volatility of the newest `period` of the prices `s`; zero while
/// there are fewer, or if the period is zero.
pub open spec fn latest_volatility(s: Seq<i64>, period: nat) -> i64 {
    if s.len() == 0 {
        0
    } else {
        match rolling_volatility(s, period, s.len() - 1) {
            Some(v) => v,
            None => 0,
        }
    }
}

/// What a [`StdPercentageKeeper`] stands for.
pub struct StdPercentageModel {
    /// The quotes.
    pub ticks: TickModel,
    /// The mid prices above zero, oldest first.
    pub mids: Seq<i64>,
    /// The time for which a cached reading stays valid.
    pub frequency: u64,
    /// The volatility as of the last renewal of the cache.
    pub cached_std: i64,
    /// The time of the last renewal of the cache.
    pub last_cache_time: u64,
    /// The number of mid prices that the volatility is taken over.
    pub period: nat,
    /// The most mid prices that are kept.
    pub capacity: nat,
}

impl StdPercentageModel {
    pub open spec fn new(period: nat, frequency: u64, max_length: nat) -> StdPercentageModel {
        StdPercentageModel {
            ticks: TickModel::new(max_length),
            mids: Seq::empty(),
            frequency,
            cached_std: 0,
            last_cache_time: 0,
            period,
            capacity: max_length,
        }
    }

    pub open spec fn wf(self) -> bool {
        self.ticks.wf()
    }

    /// The volatility of the newest `period` mid prices; zero while there
    /// are fewer, or if the period is zero.
    pub open spec fn volatility(self) -> i64 {
        latest_volatility(self.mids, self.period)
    }

    /// The volatility that would be current after a quote had been received
    /// at `t`.
    pub open spec fn peek(self, t: u64, bid: i64, ask: i64) -> i64 {
        self.with_tick(t, bid, ask).volatility()
    }

    /// Whether the cache has run out at `t`.
    pub open spec fn stale(self, t: u64) -> bool {
        t >= self.last_cache_time + self.frequency
    }

    /// The state after a quote has been received at `t`, but for the cache.
    pub open spec fn with_tick(self, t: u64, bid: i64, ask: i64) -> StdPercentageModel {
        if mid_of(bid, ask) > 0 {
            StdPercentageModel {
                ticks: self.ticks.on_tick(bid, ask).on_period(t),
                mids: tail_of(self.mids.push(mid_of(bid, ask)), self.capacity),
                ..self
            }
        } else {
            StdPercentageModel { ticks: self.ticks.on_tick(bid, ask), ..self }
        }
    }

    /// The state with the cache renewed at `t`.
    pub open spec fn with_cache(self, t: u64) -> StdPercentageModel {
        StdPercentageModel { cached_std: self.volatility(), last_cache_time: t, ..self }
    }

    /// The state after a quote has been received at `t`.
    pub open spec fn on_tick(self, t: u64, bid: i64, ask: i64) -> StdPercentageModel {
        if self.stale(t) {
            self.with_tick(t, bid, ask).with_cache(t)
        } else {
            self.with_tick(t, bid, ask)
        }
    }

    /// The volatility as read at `t`.
    pub open spec fn std_at(self, t: u64) -> i64 {
        if self.stale(t) {
            self.volatility()
        } else {
            self.cached_std
        }
    }
}

/// Keeps the volatility of the mid price, and caches it for a period.
pub struct StdPercentageKeeper {
    tick_price_keeper: TickPriceKeeper,
    mid_prices: VecDeque<i64>,
    frequency_ms: u64,
    cached_std: i64,
    last_cache_timestamp: u64,
    period: usize,
    max_length: usize,
}

impl View for StdPercentageKeeper {
    type V = StdPercentageModel;

    closed spec fn view(&self) -> StdPercentageModel {
        StdPercentageModel {
            ticks: self.tick_price_keeper@,
            mids: self.mid_prices@,
            frequency: self.frequency_ms,
            cached_std: self.cached_std,
            last_cache_time: self.last_cache_timestamp,
            period: self.period as nat,
            capacity: self.max_length as nat,
        }
    }
}

impl StdPercentageKeeper {
    pub open spec fn wf(&self) -> bool {
        self@.wf()
    }

    /// Creates a keeper whose volatility runs over `period` mid prices, whose
    /// cache lasts `frequency_ms`, and which keeps at most `max_length` mid
    /// prices.
    pub fn new(period: usize, frequency_ms: u64, max_length: usize) -> (keeper: Self)
        ensures
            keeper.wf(),
            keeper@ == StdPercentageModel::new(period as nat, frequency_ms, max_length as nat),
    {
        StdPercentageKeeper {
            tick_price_keeper: TickPriceKeeper::new(
                #[verifier::truncate]
                (frequency_ms as usize),
                max_length,
            ),
            mid_prices: VecDeque::with_capacity(max_length),
            frequency_ms,
            cached_std: 0,
            last_cache_timestamp: 0,
            period,
            max_length,
        }
    }

    /// Takes a quote received at `timestamp`: it becomes the latest; if its
    /// mid price is above zero, the quote is recorded and the mid price kept;
    /// and the cache is renewed if it has run out.
    pub fn on_receive_tick(&mut self, timestamp: u64, bid: i64, ask: i64)
        requires
            old(self).wf(),
        ensures
            final(self).wf(),
            final(self)@ == old(self)@.on_tick(timestamp, bid, ask),
    {
        self.tick_price_keeper.on_receive_tick(bid, ask);

        let mid: i64 = mid_price(bid, ask);
        if mid > 0 {
            self.tick_price_keeper.on_period_callback(timestamp);
            push_bounded(&mut self.mid_prices, mid, self.max_length);
        }
        if self.is_stale(timestamp) {
            self.update_cache();
            self.last_cache_timestamp = timestamp;
        }
    }

    /// Whether the cache has run out at `timestamp`.
    fn is_stale(&self, timestamp: u64) -> (stale: bool)
        ensures
            stale == self@.stale(timestamp),
    {
        timestamp as u128 >= self.last_cache_timestamp as u128 + self.frequency_ms as u128
    }

    /// The volatility: the current one if the cache has run out at
    /// `timestamp`, else the cached one.
    pub fn get_std(&self, timestamp: u64) -> (vol: i64)
        ensures
            vol == self@.std_at(timestamp),
    {
        if self.is_stale(timestamp) {
            self.calculate_std()
        } else {
            self.cached_std
        }
    }

    /// Renews the cached volatility.
    fn update_cache(&mut self)
        ensures
            final(self)@ == (StdPercentageModel {
                cached_std: old(self)@.volatility(),
                ..old(self)@
            }),
    {
        self.cached_std = self.calculate_std();
    }

    /// The volatility of the newest `period` mid prices.
    fn calculate_std(&self) -> (vol: i64)
        ensures
            vol == self@.volatility(),
    {
        let n: usize = self.mid_prices.len();
        proof {
            assert(self.mid_prices@.subrange(0, n as int) =~= self.mid_prices@);
        }
        self.volatility_from(0, None)
    }

    /// The volatility of the newest `period` of the mid prices from `start`
    /// on with `next`, if any, after them.
    fn volatility_from(&self, start: usize, next: Option<i64>) -> (vol: i64)
        requires
            start <= self.mid_prices@.len(),
        ensures
            vol == latest_volatility(
                match next {
                    Some(mid) => self.mid_prices@.subrange(
                        start as int,
                        self.mid_prices@.len() as int,
                    ).push(mid),
                    None => self.mid_prices@.subrange(start as int, self.mid_prices@.len() as int),
                },
                self.period as nat,
            ),
    {
        let n: usize = self.mid_prices.len();
        let mut prices: Vec<i64> = Vec::new();
        let mut i: usize = start;
        assert(self.mid_prices@.subrange(start as int, start as int) =~= Seq::<i64>::empty());
        while i < n
            invariant
                start <= i <= n,
                n == self.mid_prices@.len(),
                prices@ == self.mid_prices@.subrange(start as int, i as int),
            decreases n - i,
        {
            prices.push(self.mid_prices[i]);
            assert(prices@ =~= self.mid_prices@.subrange(start as int, i + 1));
            i = i + 1;
        }
        match next {
            Some(mid) => {
                prices.push(mid);
            },
            None => {},
        }
        let count: usize = prices.len();
        if count == 0 {
            return 0;
        }
        let volatilities = calculate_volatility_percentage(prices.as_slice(), self.period);
        match volatilities[count - 1] {
            Some(v) => v,
            None => 0,
        }
    }

    /// The volatility that would be current once
    /// [`StdPercentageKeeper::on_receive_tick`] had taken this quote,
    /// computed without changing anything.
    pub fn peek_next(&self, timestamp: u64, bid: i64, ask: i64) -> (vol: i64)
        ensures
            vol == self@.peek(timestamp, bid, ask),
    {
        let mid: i64 = mid_price(bid, ask);
        let n: usize = self.mid_prices.len();
        if mid > 0 {
            if self.max_length == 0 {
                return 0;
            }
            let start: usize = if n >= self.max_length {
                n - self.max_length + 1
            } else {
                0
            };
            assert(self.mid_prices@.subrange(start as int, n as int).push(mid) =~= tail_of(
                self.mid_prices@.push(mid),
                self.max_length as nat,
            ));
            self.volatility_from(start, Some(mid))
        } else {
            self.calculate_std()
        }
    }

    /// The quotes.
    pub fn get_tick_price_keeper(&self) -> (keeper: &TickPriceKeeper)
        ensures
            keeper@ == self@.ticks,
    {
        &self.tick_price_keeper
    }

    /// The number of mid prices kept.
    pub fn get_history_size(&self) -> (n: usize)
        ensures
            n == self@.mids.len(),
    {
        self.mid_prices.len()
    }
}

/// What [`StdPercentageKeeper::peek_next`] gives for a quote is the
/// volatility that is current once [`StdPercentageKeeper::on_receive_tick`]
/// has taken it.
pub proof fn law_peek_agrees_with_tick(m: StdPercentageModel, t: u64, bid: i64, ask: i64)
    ensures
        m.on_tick(t, bid, ask).volatility() == m.peek(t, bid, ask),
        m.stale(t) ==> m.on_tick(t, bid, ask).cached_std == m.peek(t, bid, ask),
{
}

} // verus!
