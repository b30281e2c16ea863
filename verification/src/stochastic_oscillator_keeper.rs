//! The stochastic oscillator: where the latest value lies between the
//! rolling low and high, and the mean of that reading.

use vstd::prelude::*;
use crate::error::KeeperError;
use crate::fixed::{lemma_percent_in_scale, percent_in_range, percent_of_range, HUNDRED};
use crate::min_max_keeper::{MinMaxKeeper, MinMaxModel};
use crate::series::{lemma_max_is_maximum, lemma_min_is_minimum, next_tick, seq_max, seq_min, tick};
use crate::sma_keeper::{SmaKeeper, SmaModel};

verus! {

/// Above this the reading counts as overbought: eighty.
pub const OVERBOUGHT: i64 = 80_000_000;

/// Below this the reading counts as oversold: twenty.
pub const OVERSOLD: i64 = 20_000_000;

/// What a [`StochasticOscillatorKeeper`] stands for.
pub struct StochasticModel {
    /// The rolling high and low.
    pub extrema: MinMaxModel,
    /// The mean of the readings.
    pub sma: SmaModel,
    /// The latest reading, %K.
    pub percent_k: i64,
    /// The mean of the readings, %D.
    pub percent_d: i64,
    /// The number of values that make the window of the extremes full.
    pub k_period: nat,
    /// The number of readings that the mean runs over.
    pub d_period: nat,
    /// The time that the next reading is stamped with.
    pub clock: u64,
}

impl StochasticModel {
    pub open spec fn new(k_period: nat, d_period: nat) -> StochasticModel {
        StochasticModel {
            extrema: MinMaxModel::with_capacity(k_period, 0),
            sma: SmaModel::new(d_period, 0, 0),
            percent_k: 0,
            percent_d: 0,
            k_period,
            d_period,
            clock: 1,
        }
    }

    /// The mean is well formed and closed to no sample.
    pub open spec fn wf(self) -> bool {
        self.sma.wf() && self.sma.gap == 0 && self.sma.last_time <= self.clock
    }

    /// The state after `value` has been taken in: it enters the rolling
    /// extremes, and its place between them enters the mean. Without a
    /// capacity for the extremes nothing changes.
    pub open spec fn add(self, value: i64) -> StochasticModel {
        if self.extrema.capacity == 0 {
            self
        } else {
            let extrema = self.extrema.insert(value);
            let percent_k = percent_in_range(value, extrema.min(), extrema.max());
            let sma = self.sma.add(self.clock, percent_k);
            StochasticModel {
                extrema,
                sma,
                percent_k,
                percent_d: sma.mean,
                clock: tick(self.clock),
                ..self
            }
        }
    }

    /// The readings %K and %D that would be read after `value` had been
    /// taken in.
    pub open spec fn peek(self, value: i64) -> (i64, i64) {
        let range = self.extrema.peek(value);
        let percent_k = percent_in_range(value, range.0, range.1);
        (percent_k, self.sma.peek(self.clock, percent_k))
    }

    /// Whether the window of the extremes holds a full period.
    pub open spec fn ready(self) -> bool {
        self.extrema.window.len() >= self.k_period
    }
}

pub struct StochasticOscillatorKeeper {
    sma_keeper: SmaKeeper,
    percent_k: i64,
    percent_d: i64,
    k_period: usize,
    d_period: usize,
    min_max_keeper: MinMaxKeeper,
    timestamp_counter: u64,
}

impl View for StochasticOscillatorKeeper {
    type V = StochasticModel;

    closed spec fn view(&self) -> StochasticModel {
        StochasticModel {
            extrema: self.min_max_keeper@,
            sma: self.sma_keeper@,
            percent_k: self.percent_k,
            percent_d: self.percent_d,
            k_period: self.k_period as nat,
            d_period: self.d_period as nat,
            clock: self.timestamp_counter,
        }
    }
}

impl StochasticOscillatorKeeper {
    /// The parts keep their own invariants.
    pub closed spec fn parts_wf(&self) -> bool {
        self.min_max_keeper.wf() && self.sma_keeper.wf()
    }

    pub open spec fn wf(&self) -> bool {
        self@.wf() && self.parts_wf()
    }

    /// Creates the indicator: the rolling extremes run over `k_period`
    /// values and shed every value that widens them, and the mean runs over
    /// `d_period` readings.
    pub fn new(k_period: usize, d_period: usize) -> (keeper: Self)
        requires
            d_period >= 1,
        ensures
            keeper.wf(),
            keeper@ == StochasticModel::new(k_period as nat, d_period as nat),
    {
        StochasticOscillatorKeeper {
            k_period,
            d_period,
            sma_keeper: SmaKeeper::new(d_period, 0, 0),
            percent_k: 0,
            percent_d: 0,
            min_max_keeper: MinMaxKeeper::with_capacity(k_period, 0),
            timestamp_counter: 1,
        }
    }

    /// Takes in a value. An indicator whose period is zero refuses it and
    /// stays as it is.
    pub fn add(&mut self, value: i64) -> (res: Result<(), KeeperError>)
        requires
            old(self).wf(),
        ensures
            final(self).wf(),
            final(self)@ == old(self)@.add(value),
            old(self)@.extrema.capacity == 0 ==> res == Err::<(), KeeperError>(
                KeeperError::NotConfigured,
            ),
            old(self)@.extrema.capacity > 0 ==> res is Ok,
    {
        match self.min_max_keeper.add(value) {
            Err(e) => {
                return Err(e);
            },
            Ok(()) => {},
        }
        let highest_high: i64 = self.min_max_keeper.get_max();
        let lowest_low: i64 = self.min_max_keeper.get_min();

        self.percent_k = percent_of_range(value, lowest_low, highest_high);

        self.sma_keeper.add(self.timestamp_counter, self.percent_k);
        self.timestamp_counter = next_tick(self.timestamp_counter);
        self.percent_d = self.sma_keeper.get();

        Ok(())
    }

    /// The readings %K and %D that [`StochasticOscillatorKeeper::add`] would
    /// arrive at for `value`, computed without changing anything. An
    /// indicator whose period is zero has none.
    pub fn peek_next(&self, value: i64) -> (res: Result<(i64, i64), KeeperError>)
        requires
            self.wf(),
        ensures
            self@.extrema.capacity == 0 ==> res == Err::<(i64, i64), KeeperError>(
                KeeperError::NotConfigured,
            ),
            self@.extrema.capacity > 0 ==> res == Ok::<(i64, i64), KeeperError>(self@.peek(value)),
    {
        match self.min_max_keeper.peek_next(value) {
            None => Err(KeeperError::NotConfigured),
            Some((lowest_low, highest_high)) => {
                let percent_k: i64 = percent_of_range(value, lowest_low, highest_high);
                let percent_d: i64 = self.sma_keeper.peek_next(self.timestamp_counter, percent_k);
                Ok((percent_k, percent_d))
            },
        }
    }

    /// The latest reading, %K.
    pub fn get_percent_k(&self) -> (k: i64)
        ensures
            k == self@.percent_k,
    {
        self.percent_k
    }

    /// The mean of the readings, %D.
    pub fn get_percent_d(&self) -> (d: i64)
        ensures
            d == self@.percent_d,
    {
        self.percent_d
    }

    /// The latest reading, %K.
    pub fn get_k(&self) -> (k: i64)
        ensures
            k == self@.percent_k,
    {
        self.percent_k
    }

    /// The mean of the readings, %D.
    pub fn get_d(&self) -> (d: i64)
        ensures
            d == self@.percent_d,
    {
        self.percent_d
    }

    /// Whether the window of the extremes is full and the latest reading is
    /// above eighty.
    pub fn is_overbought(&self) -> (yes: bool)
        ensures
            yes == (self@.ready() && self@.percent_k > OVERBOUGHT),
    {
        if self.min_max_keeper.get_len() < self.k_period {
            return false;
        }
        self.percent_k > OVERBOUGHT
    }

    /// Whether the window of the extremes is full and the latest reading is
    /// below twenty.
    pub fn is_oversold(&self) -> (yes: bool)
        ensures
            yes == (self@.ready() && self@.percent_k < OVERSOLD),
    {
        if self.min_max_keeper.get_len() < self.k_period {
            return false;
        }
        self.percent_k < OVERSOLD
    }

    /// The number of values that make the window of the extremes full.
    pub fn k_period(&self) -> (n: usize)
        ensures
            n == self@.k_period,
    {
        self.k_period
    }

    /// The number of readings that the mean runs over.
    pub fn d_period(&self) -> (n: usize)
        ensures
            n == self@.d_period,
    {
        self.d_period
    }
}

/// What [`StochasticOscillatorKeeper::peek_next`] gives for a value are the
/// readings that [`StochasticOscillatorKeeper::add`] arrives at for it.
pub proof fn law_peek_agrees_with_add(m: StochasticModel, value: i64)
    requires
        m.extrema.capacity > 0,
    ensures
        m.add(value).percent_k == m.peek(value).0,
        m.add(value).percent_d == m.peek(value).1,
{
    crate::min_max_keeper::law_peek_agrees_with_add(m.extrema, value);
}

/// Every reading lies between zero and one hundred: the value that has just
/// entered the window is neither below its low nor above its high.
pub proof fn law_reading_in_scale(m: StochasticModel, value: i64)
    requires
        m.extrema.capacity > 0,
    ensures
        0 <= m.add(value).percent_k <= HUNDRED,
{
    let window = m.extrema.insert(value).window;
    lemma_min_is_minimum(window);
    lemma_max_is_maximum(window);
    assert(window[window.len() - 1] == value);
    lemma_percent_in_scale(value, seq_min(window), seq_max(window));
}

} // verus!
