//! The mean of the mid price and the spread of the recorded mid prices about
//! it, each read through a cache that is renewed once per period.

use vstd::prelude::*;
use crate::deviation::{spread_about, sum_sq_dev, SquareAcc};
use crate::history::signed_index;
use crate::series::tail_of;
use crate::sma_keeper::{SmaKeeper, SmaModel};
use crate::tick_price_keeper::{mid_of, mid_price, TickModel, TickPriceKeeper};

verus! {

/// The newest `count` elements of `s` with `next`, if any, after its last.
pub open spec fn newest(s: Seq<i64>, next: Option<i64>, count: nat) -> Seq<i64> {
    match next {
        Some(v) => tail_of(s.push(v), count),
        None => tail_of(s, count),
    }
}

/// What a [`StdKeeper`] stands for.
pub struct StdModel {
    /// The mean of the mid prices.
    pub sma: SmaModel,
    /// The quotes.
    pub ticks: TickModel,
    /// The time for which cached readings stay valid.
    pub frequency: u64,
    /// The mean as of the last renewal of the cache.
    pub cached_sma: i64,
    /// The spread as of the last renewal of the cache.
    pub cached_std: i64,
    /// The time of the last renewal of the cache.
    pub last_cache_time: u64,
    /// The number of the newest records that the spread is taken over.
    pub period: nat,
}

impl StdModel {
    pub open spec fn new(period: nat, frequency: u64, max_length: nat) -> StdModel {
        StdModel {
            sma: SmaModel::new(period, 0, 0),
            ticks: TickModel::new(max_length),
            frequency,
            cached_sma: 0,
            cached_std: 0,
            last_cache_time: 0,
            period,
        }
    }

    pub open spec fn wf(self) -> bool {
        self.sma.wf() && self.ticks.wf() && self.period >= 1
    }

    /// The population standard deviation, about the current mean, of the
    /// newest `period` recorded mid prices; zero if there is no record.
    pub open spec fn spread(self) -> i64 {
        if self.ticks.bids.len() == 0 {
            0
        } else {
            spread_about(tail_of(self.ticks.mids(), self.period), self.sma.mean as int) as i64
        }
    }

    /// Whether the cache has run out at `t`.
    pub open spec fn stale(self, t: u64) -> bool {
        t >= self.last_cache_time + self.frequency
    }

    /// The state with the cache renewed at `t`.
    pub open spec fn with_cache(self, t: u64) -> StdModel {
        StdModel {
            cached_sma: self.sma.mean,
            cached_std: self.spread(),
            last_cache_time: t,
            ..self
        }
    }

    /// The state after a quote has been received at `t`, but for the cache.
    pub open spec fn with_tick(self, t: u64, bid: i64, ask: i64) -> StdModel {
        StdModel {
            ticks: self.ticks.on_tick(bid, ask).on_period(t),
            sma: if mid_of(bid, ask) > 0 {
                self.sma.add(t, mid_of(bid, ask))
            } else {
                self.sma
            },
            ..self
        }
    }

    /// The mean and the spread that would be current after a quote had been
    /// received at `t`.
    pub open spec fn peek(self, t: u64, bid: i64, ask: i64) -> (i64, i64) {
        (self.with_tick(t, bid, ask).sma.mean, self.with_tick(t, bid, ask).spread())
    }

    /// The state after a quote has been received at `t`.
    pub open spec fn on_tick(self, t: u64, bid: i64, ask: i64) -> StdModel {
        if self.stale(t) {
            self.with_tick(t, bid, ask).with_cache(t)
        } else {
            self.with_tick(t, bid, ask)
        }
    }

    /// The mean as read at `t`.
    pub open spec fn sma_at(self, t: u64) -> i64 {
        if self.stale(t) {
            self.sma.mean
        } else {
            self.cached_sma
        }
    }

    /// The spread as read at `t`.
    pub open spec fn std_at(self, t: u64) -> i64 {
        if self.stale(t) {
            self.spread()
        } else {
            self.cached_std
        }
    }
}

/// Keeps the mean and the spread of the mid price, and caches both for a
/// period.
pub struct StdKeeper {
    sma_keeper: SmaKeeper,
    tick_price_keeper: TickPriceKeeper,
    frequency_ms: u64,
    cached_sma: i64,
    cached_std: i64,
    last_cache_timestamp: u64,
    period: usize,
}

impl View for StdKeeper {
    type V = StdModel;

    closed spec fn view(&self) -> StdModel {
        StdModel {
            sma: self.sma_keeper@,
            ticks: self.tick_price_keeper@,
            frequency: self.frequency_ms,
            cached_sma: self.cached_sma,
            cached_std: self.cached_std,
            last_cache_time: self.last_cache_timestamp,
            period: self.period as nat,
        }
    }
}

impl StdKeeper {
    /// The mean keeps its own invariant.
    pub closed spec fn parts_wf(&self) -> bool {
        self.sma_keeper.wf()
    }

    pub open spec fn wf(&self) -> bool {
        self@.wf() && self.parts_wf()
    }

    /// Creates a keeper whose mean and spread run over `period` samples,
    /// whose cache lasts `frequency_ms`, and which records at most
    /// `max_length` quotes.
    pub fn new(period: usize, frequency_ms: u64, max_length: usize) -> (keeper: Self)
        requires
            period >= 1,
        ensures
            keeper.wf(),
            keeper@ == StdModel::new(period as nat, frequency_ms, max_length as nat),
    {
        StdKeeper {
            sma_keeper: SmaKeeper::new(period, 0, 0),
            tick_price_keeper: TickPriceKeeper::new(
                #[verifier::truncate]
                (frequency_ms as usize),
                max_length,
            ),
            frequency_ms,
            cached_sma: 0,
            cached_std: 0,
            last_cache_timestamp: 0,
            period,
        }
    }

    /// Takes a quote received at `timestamp`: it becomes the latest and is
    /// recorded, its mid price, if above zero, enters the mean, and the cache
    /// is renewed if it has run out.
    pub fn on_receive_tick(&mut self, timestamp: u64, bid: i64, ask: i64)
        requires
            old(self).wf(),
        ensures
            final(self).wf(),
            final(self)@ == old(self)@.on_tick(timestamp, bid, ask),
    {
        let stale: bool = self.is_stale(timestamp);
        self.tick_price_keeper.on_receive_tick(bid, ask);
        self.tick_price_keeper.on_period_callback(timestamp);

        let mid: i64 = mid_price(bid, ask);
        if mid > 0 {
            self.sma_keeper.add(timestamp, mid);
        }
        if stale {
            self.update_cache(timestamp);
        }
    }

    /// Whether the cache has run out at `timestamp`.
    fn is_stale(&self, timestamp: u64) -> (stale: bool)
        ensures
            stale == self@.stale(timestamp),
    {
        timestamp as u128 >= self.last_cache_timestamp as u128 + self.frequency_ms as u128
    }

    /// The mean: the current one if the cache has run out at `timestamp`,
    /// else the cached one.
    pub fn get_sma(&self, timestamp: u64) -> (mean: i64)
        ensures
            mean == self@.sma_at(timestamp),
    {
        if self.is_stale(timestamp) {
            self.sma_keeper.get()
        } else {
            self.cached_sma
        }
    }

    /// The spread: the current one if the cache has run out at `timestamp`,
    /// else the cached one.
    pub fn get_std(&self, timestamp: u64) -> (spread: i64)
        requires
            self.wf(),
        ensures
            spread == self@.std_at(timestamp),
    {
        if self.is_stale(timestamp) {
            self.calculate_std()
        } else {
            self.cached_std
        }
    }

    /// The mean and the spread, as [`StdKeeper::get_sma`] and
    /// [`StdKeeper::get_std`] give them.
    pub fn get_sma_and_std(&self, timestamp: u64) -> (both: (i64, i64))
        requires
            self.wf(),
        ensures
            both.0 == self@.sma_at(timestamp),
            both.1 == self@.std_at(timestamp),
    {
        if self.is_stale(timestamp) {
            (self.sma_keeper.get(), self.calculate_std())
        } else {
            (self.cached_sma, self.cached_std)
        }
    }

    /// Renews the cache at `timestamp`.
    fn update_cache(&mut self, timestamp: u64)
        requires
            old(self).wf(),
        ensures
            final(self).wf(),
            final(self)@ == old(self)@.with_cache(timestamp),
    {
        self.cached_sma = self.sma_keeper.get();
        self.cached_std = self.calculate_std();
        self.last_cache_timestamp = timestamp;
    }

    /// The population standard deviation, about the current mean, of the
    /// newest `period` recorded mid prices.
    fn calculate_std(&self) -> (spread: i64)
        requires
            self.wf(),
        ensures
            spread == self@.spread(),
    {
        if self.tick_price_keeper.get_history_prices_size() == 0 {
            return 0;
        }
        proof {
            let mids = self@.ticks.mids();
            assert(tail_of(mids, self.period as nat) =~= newest(mids, None, self.period as nat));
        }
        self.spread_of_newest(None, self.period, self.sma_keeper.get())
    }

    /// The population standard deviation about `mean` of the newest `count`
    /// of the recorded mid prices with `next`, if any, after them.
    fn spread_of_newest(&self, next: Option<i64>, count: usize, mean: i64) -> (spread: i64)
        requires
            self.wf(),
            count >= 1,
            self@.ticks.bids.len() > 0 || next is Some,
        ensures
            spread == spread_about(newest(self@.ticks.mids(), next, count as nat), mean as int),
    {
        let size: usize = self.tick_price_keeper.get_history_prices_size();
        let extra: usize = if next.is_some() {
            1
        } else {
            0
        };
        let wanted: usize = count - extra;
        let start: usize = if size > wanted {
            size - wanted
        } else {
            0
        };
        let ghost mids = self@.ticks.mids();
        let mut acc = SquareAcc::new(size - start + extra);
        let mut i: usize = start;
        assert(mids.subrange(start as int, start as int) =~= Seq::<i64>::empty());
        while i < size
            invariant
                start <= i <= size,
                self.wf(),
                mids == self@.ticks.mids(),
                size == self@.ticks.bids.len(),
                size == mids.len(),
                acc.wf(),
                acc.size() == size - start + extra,
                acc.terms() == i - start,
                acc.total() == sum_sq_dev(mids.subrange(start as int, i as int), mean as int),
            decreases size - i,
        {
            let bid: i64 = self.tick_price_keeper.get_history_bid(signed_index(size, i));
            let ask: i64 = self.tick_price_keeper.get_history_ask(signed_index(size, i));
            let price: i64 = mid_price(bid, ask);
            assert(mids.subrange(start as int, i + 1).drop_last() =~= mids.subrange(
                start as int,
                i as int,
            ));
            acc.feed(price as i128 - mean as i128);
            i = i + 1;
        }
        let ghost kept = mids.subrange(start as int, size as int);
        match next {
            Some(price) => {
                assert(kept.push(price).drop_last() =~= kept);
                acc.feed(price as i128 - mean as i128);
                assert(kept.push(price) =~= newest(mids, next, count as nat));
            },
            None => {
                assert(kept =~= newest(mids, next, count as nat));
            },
        }
        acc.root()
    }

    /// The mean and the spread that would be current once
    /// [`StdKeeper::on_receive_tick`] had taken this quote, computed without
    /// changing anything.
    pub fn peek_next(&self, timestamp: u64, bid: i64, ask: i64) -> (both: (i64, i64))
        requires
            self.wf(),
        ensures
            both == self@.peek(timestamp, bid, ask),
    {
        let mid: i64 = mid_price(bid, ask);
        let mean: i64 = if mid > 0 {
            self.sma_keeper.peek_next(timestamp, mid)
        } else {
            self.sma_keeper.get()
        };
        let size: usize = self.tick_price_keeper.get_history_prices_size();
        let capacity: usize = self.tick_price_keeper.get_max_length();
        let ghost mids = self@.ticks.mids();
        let ghost after = self@.with_tick(timestamp, bid, ask);
        if bid > 0 && ask > 0 {
            if capacity == 0 {
                return (mean, 0);
            }
            let count: usize = if capacity < self.period {
                capacity
            } else {
                self.period
            };
            proof {
                assert(after.ticks.mids() =~= tail_of(mids.push(mid), capacity as nat));
                assert(tail_of(after.ticks.mids(), self.period as nat) =~= newest(
                    mids,
                    Some(mid),
                    count as nat,
                ));
            }
            (mean, self.spread_of_newest(Some(mid), count, mean))
        } else {
            if size == 0 {
                return (mean, 0);
            }
            proof {
                assert(tail_of(mids, self.period as nat) =~= newest(
                    mids,
                    None,
                    self.period as nat,
                ));
            }
            (mean, self.spread_of_newest(None, self.period, mean))
        }
    }

    /// The quotes.
    pub fn get_tick_price_keeper(&self) -> (keeper: &TickPriceKeeper)
        ensures
            keeper@ == self@.ticks,
    {
        &self.tick_price_keeper
    }

    /// The mean of the mid prices.
    pub fn get_sma_keeper(&self) -> (keeper: &SmaKeeper)
        ensures
            keeper@ == self@.sma,
    {
        &self.sma_keeper
    }
}

/// What [`StdKeeper::peek_next`] gives for a quote are the mean and the
/// spread that are current once [`StdKeeper::on_receive_tick`] has taken it.
pub proof fn law_peek_agrees_with_tick(m: StdModel, t: u64, bid: i64, ask: i64)
    ensures
        m.on_tick(t, bid, ask).sma.mean == m.peek(t, bid, ask).0,
        m.on_tick(t, bid, ask).spread() == m.peek(t, bid, ask).1,
        m.stale(t) ==> m.on_tick(t, bid, ask).cached_sma == m.peek(t, bid, ask).0,
        m.stale(t) ==> m.on_tick(t, bid, ask).cached_std == m.peek(t, bid, ask).1,
{
}

} // verus!
