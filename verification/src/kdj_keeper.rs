//! The KDJ oscillator: where the close lies between the rolling low and
//! high, smoothed twice into the lines K and D, and the line J that leads
//! them.

use vstd::prelude::*;
use crate::error::KeeperError;
use crate::fixed::{clamp, percent_in_range, percent_of_range, saturate};
use crate::min_max_keeper::{MinMaxKeeper, MinMaxModel};
use crate::series::{next_tick, tick};
use crate::sma_keeper::{SmaKeeper, SmaModel};

verus! {

/// The target range of the rolling high and low: one ten-thousandth.
pub const TARGET_RANGE: i64 = 100;

/// The answer of a signal that points up: one.
pub const SIGNAL_UP: i64 = 1_000_000;

/// The answer of a signal that points down: minus one.
pub const SIGNAL_DOWN: i64 = -1_000_000;

/// The answer where there is no signal: one millionth.
pub const NO_SIGNAL: i64 = 1;

/// The middle of the scale: fifty.
pub const MIDDLE: i64 = 50_000_000;

/// The line J for the lines `k` and `d`: three times K less twice D.
pub open spec fn j_of(k: i64, d: i64) -> i64 {
    clamp(3 * k - 2 * d) as i64
}

/// The answer of a signal on `x`: up if it is above `high`, else down if it
/// is below `low`, else none.
pub open spec fn band_signal(x: i64, high: i64, low: i64) -> i64 {
    if x > high {
        SIGNAL_UP
    } else if x < low {
        SIGNAL_DOWN
    } else {
        NO_SIGNAL
    }
}

/// What a [`KdjKeeper`] stands for.
pub struct KdjModel {
    /// The rolling high and low.
    pub extrema: MinMaxModel,
    /// The line K: the mean of the raw readings.
    pub slow_k: SmaModel,
    /// The line D: the mean of the line K.
    pub slow_d: SmaModel,
    /// The line J.
    pub j: i64,
    /// The time that the next reading is stamped with.
    pub clock: u64,
}

impl KdjModel {
    pub open spec fn new(fast_k: nat, slow_k: nat, slow_d: nat) -> KdjModel {
        KdjModel {
            extrema: MinMaxModel::with_capacity(2 * fast_k, TARGET_RANGE),
            slow_k: SmaModel::new(slow_k, 0, 0),
            slow_d: SmaModel::new(slow_d, 0, 0),
            j: 0,
            clock: 1,
        }
    }

    /// The two means are well formed and closed to no sample.
    pub open spec fn wf(self) -> bool {
        &&& self.slow_k.wf() && self.slow_k.gap == 0 && self.slow_k.last_time <= self.clock
        &&& self.slow_d.wf() && self.slow_d.gap == 0 && self.slow_d.last_time <= self.clock
    }

    /// The raw reading for `close` against the rolling low and high as they
    /// stand.
    pub open spec fn peek(self, close: i64) -> i64 {
        percent_in_range(close, self.extrema.min(), self.extrema.max())
    }

    /// The lines K, D and J that would be read after a candle had been taken
    /// in.
    pub open spec fn peek_candle(self, high: i64, low: i64, close: i64) -> (i64, i64, i64) {
        let range = self.extrema.insert(high).peek(low);
        let k = self.slow_k.peek(self.clock, percent_in_range(close, range.0, range.1));
        let d = self.slow_d.peek(self.clock, k);
        (k, d, j_of(k, d))
    }

    /// The state once the high and the low of a candle have entered the
    /// rolling extremes.
    pub open spec fn with_range(self, high: i64, low: i64) -> KdjModel {
        KdjModel { extrema: self.extrema.insert(high).insert(low), ..self }
    }

    /// The state once the raw reading `k_fast` has entered the lines.
    pub open spec fn with_reading(self, k_fast: i64) -> KdjModel {
        let slow_k = self.slow_k.add(self.clock, k_fast);
        let slow_d = self.slow_d.add(self.clock, slow_k.mean);
        KdjModel {
            slow_k,
            slow_d,
            j: j_of(slow_k.mean, slow_d.mean),
            clock: tick(self.clock),
            ..self
        }
    }

    /// The state after a candle has been taken in: its high and low enter
    /// the rolling extremes, and the raw reading for its close against them
    /// enters the lines. Without a capacity for the extremes nothing changes.
    pub open spec fn add(self, high: i64, low: i64, close: i64) -> KdjModel {
        if self.extrema.capacity == 0 {
            self
        } else {
            self.with_range(high, low).with_reading(self.with_range(high, low).peek(close))
        }
    }
}

pub struct KdjKeeper {
    period_fast_k: usize,
    period_slow_k: usize,
    period_slow_d: usize,
    min_max_keeper: MinMaxKeeper,
    slow_k: SmaKeeper,
    slow_d: SmaKeeper,
    j: i64,
    timestamp_counter: u64,
}

impl View for KdjKeeper {
    type V = KdjModel;

    closed spec fn view(&self) -> KdjModel {
        KdjModel {
            extrema: self.min_max_keeper@,
            slow_k: self.slow_k@,
            slow_d: self.slow_d@,
            j: self.j,
            clock: self.timestamp_counter,
        }
    }
}

impl KdjKeeper {
    /// The parts keep their own invariants.
    pub closed spec fn parts_wf(&self) -> bool {
        self.min_max_keeper.wf() && self.slow_k.wf() && self.slow_d.wf()
    }

    pub open spec fn wf(&self) -> bool {
        self@.wf() && self.parts_wf()
    }

    /// Creates the indicator: the rolling extremes run over twice
    /// `period_fast_k` values, the line K over `period_slow_k` raw readings,
    /// and the line D over `period_slow_d` readings of K.
    pub fn new(period_fast_k: usize, period_slow_k: usize, period_slow_d: usize) -> (keeper: Self)
        requires
            2 * period_fast_k <= usize::MAX,
            period_slow_k >= 1,
            period_slow_d >= 1,
        ensures
            keeper.wf(),
            keeper@ == KdjModel::new(
                period_fast_k as nat,
                period_slow_k as nat,
                period_slow_d as nat,
            ),
    {
        KdjKeeper {
            period_fast_k,
            period_slow_k,
            period_slow_d,
            slow_k: SmaKeeper::new(period_slow_k, 0, 0),
            slow_d: SmaKeeper::new(period_slow_d, 0, 0),
            min_max_keeper: MinMaxKeeper::with_capacity(period_fast_k * 2, TARGET_RANGE),
            j: 0,
            timestamp_counter: 1,
        }
    }

    /// Takes in a candle. An indicator whose fast period is zero refuses it
    /// and stays as it is.
    pub fn add(&mut self, high: i64, low: i64, close: i64) -> (res: Result<(), KeeperError>)
        requires
            old(self).wf(),
        ensures
            final(self).wf(),
            final(self)@ == old(self)@.add(high, low, close),
            old(self)@.extrema.capacity == 0 ==> res == Err::<(), KeeperError>(
                KeeperError::NotConfigured,
            ),
            old(self)@.extrema.capacity > 0 ==> res is Ok,
    {
        match self.min_max_keeper.add(high) {
            Err(e) => {
                return Err(e);
            },
            Ok(()) => {},
        }
        match self.min_max_keeper.add(low) {
            Err(e) => {
                return Err(e);
            },
            Ok(()) => {},
        }
        let k_fast: i64 = self.peek_next(close);
        self.slow_k.add(self.timestamp_counter, k_fast);
        self.slow_d.add(self.timestamp_counter, self.slow_k.get());
        self.timestamp_counter = next_tick(self.timestamp_counter);
        let k: i64 = self.slow_k.get();
        let d: i64 = self.slow_d.get();
        self.j = saturate(3 * (k as i128) - 2 * (d as i128));
        Ok(())
    }

    /// The raw reading that `close` would give against the rolling low and
    /// high as they stand: its place between them in percent, zero where
    /// they coincide.
    pub fn peek_next(&self, close: i64) -> (k_fast: i64)
        requires
            self.wf(),
        ensures
            k_fast == self@.peek(close),
    {
        let rolling_high: i64 = self.min_max_keeper.get_max();
        let rolling_low: i64 = self.min_max_keeper.get_min();
        percent_of_range(close, rolling_low, rolling_high)
    }

    /// The lines K, D and J that [`KdjKeeper::add`] would arrive at for a
    /// candle, computed without changing anything. An indicator whose fast
    /// period is zero has none.
    pub fn peek_candle(
        &self,
        high: i64,
        low: i64,
        close: i64,
    ) -> (res: Result<(i64, i64, i64), KeeperError>)
        requires
            self.wf(),
        ensures
            self@.extrema.capacity == 0 ==> res == Err::<(i64, i64, i64), KeeperError>(
                KeeperError::NotConfigured,
            ),
            self@.extrema.capacity > 0 ==> res == Ok::<(i64, i64, i64), KeeperError>(
                self@.peek_candle(high, low, close),
            ),
    {
        match self.min_max_keeper.peek_pair(high, low) {
            None => Err(KeeperError::NotConfigured),
            Some((rolling_low, rolling_high)) => {
                let k_fast: i64 = percent_of_range(close, rolling_low, rolling_high);
                let k: i64 = self.slow_k.peek_next(self.timestamp_counter, k_fast);
                let d: i64 = self.slow_d.peek_next(self.timestamp_counter, k);
                Ok((k, d, saturate(3 * (k as i128) - 2 * (d as i128))))
            },
        }
    }

    /// The line J, measured from the middle of the scale.
    pub fn get_j_centered(&self) -> (j: i64)
        ensures
            j == clamp(self@.j - MIDDLE),
    {
        saturate(self.j as i128 - MIDDLE as i128)
    }

    /// The lines K, D and J.
    pub fn get(&self) -> (kdj: (i64, i64, i64))
        ensures
            kdj == (self@.slow_k.mean, self@.slow_d.mean, self@.j),
    {
        (self.slow_k.get(), self.slow_d.get(), self.j)
    }

    /// The number of values that the rolling extremes run over.
    pub fn length(&self) -> (n: usize)
        ensures
            n == self@.extrema.window.len(),
    {
        self.min_max_keeper.get_len()
    }

    /// Whether the line D is above `over_bought_thresh` (up) or below
    /// `over_sold_thresh` (down); no signal before the first reading.
    pub fn is_over_bought_sold(
        &self,
        over_bought_thresh: i64,
        over_sold_thresh: i64,
    ) -> (signal: i64)
        ensures
            signal == (if self@.slow_k.window.len() == 0 {
                NO_SIGNAL
            } else {
                band_signal(self@.slow_d.mean, over_bought_thresh, over_sold_thresh)
            }),
    {
        if self.slow_k.size() == 0 {
            return NO_SIGNAL;
        }
        let d: i64 = self.slow_d.get();
        if d > over_bought_thresh {
            return SIGNAL_UP;
        }
        if d < over_sold_thresh {
            return SIGNAL_DOWN;
        }
        NO_SIGNAL
    }

    /// Whether the line K has just crossed the line D: from below, while not
    /// above `cross_golden_thresh` (up), or from above, while not below
    /// `cross_death_thresh` (down); no signal before the second reading.
    pub fn is_cross_golden_death(
        &self,
        cross_golden_thresh: i64,
        cross_death_thresh: i64,
    ) -> (signal: i64)
        ensures
            signal == (if self@.slow_k.window.len() < 2 {
                NO_SIGNAL
            } else if self@.slow_k.mean > self@.slow_d.mean && self@.slow_k.prev_mean
                < self@.slow_d.prev_mean && self@.slow_k.mean <= cross_golden_thresh {
                SIGNAL_UP
            } else if self@.slow_k.mean < self@.slow_d.mean && self@.slow_k.prev_mean
                > self@.slow_d.prev_mean && self@.slow_k.mean >= cross_death_thresh {
                SIGNAL_DOWN
            } else {
                NO_SIGNAL
            }),
    {
        if self.slow_k.size() < 2 {
            return NO_SIGNAL;
        }
        let k: i64 = self.slow_k.get();
        let d: i64 = self.slow_d.get();
        let k_prev: i64 = self.slow_k.get_prev();
        let d_prev: i64 = self.slow_d.get_prev();

        if k > d && k_prev < d_prev && k <= cross_golden_thresh {
            return SIGNAL_UP;
        }
        if k < d && k_prev > d_prev && k >= cross_death_thresh {
            return SIGNAL_DOWN;
        }
        NO_SIGNAL
    }

    /// Whether the line J is above `peak_thresh` (up) or below
    /// `bottom_thresh` (down); no signal before the first reading.
    pub fn is_peak_bottom(&self, peak_thresh: i64, bottom_thresh: i64) -> (signal: i64)
        ensures
            signal == (if self@.slow_k.window.len() == 0 {
                NO_SIGNAL
            } else {
                band_signal(self@.j, peak_thresh, bottom_thresh)
            }),
    {
        if self.slow_k.size() == 0 {
            return NO_SIGNAL;
        }
        if self.j > peak_thresh {
            return SIGNAL_UP;
        }
        if self.j < bottom_thresh {
            return SIGNAL_DOWN;
        }
        NO_SIGNAL
    }
}

/// What [`KdjKeeper::peek_candle`] gives for a candle are the lines that
/// [`KdjKeeper::add`] arrives at for it.
pub proof fn law_peek_candle_agrees_with_add(m: KdjModel, high: i64, low: i64, close: i64)
    requires
        m.extrema.capacity > 0,
    ensures
        m.add(high, low, close).slow_k.mean == m.peek_candle(high, low, close).0,
        m.add(high, low, close).slow_d.mean == m.peek_candle(high, low, close).1,
        m.add(high, low, close).j == m.peek_candle(high, low, close).2,
{
    crate::min_max_keeper::law_peek_agrees_with_add(m.extrema.insert(high), low);
}

/// The raw reading that [`KdjKeeper::add`] enters into the line K for a
/// candle is what [`KdjKeeper::peek_next`] gives for the candle's close once
/// the candle's high and low have entered the rolling extremes.
pub proof fn law_add_commits_the_peek(m: KdjModel, high: i64, low: i64, close: i64)
    requires
        m.wf(),
        m.extrema.capacity > 0,
    ensures
        m.add(high, low, close).slow_k.window.len() > 0,
        m.add(high, low, close).slow_k.window.last() == m.with_range(high, low).peek(close),
{
}

/// Where a candle's high and low leave the rolling low and high as they are,
/// what [`KdjKeeper::peek_next`] gives for its close beforehand is the raw
/// reading that [`KdjKeeper::add`] enters into the line K.
pub proof fn law_peek_agrees_with_add(m: KdjModel, high: i64, low: i64, close: i64)
    requires
        m.wf(),
        m.extrema.capacity > 0,
        m.with_range(high, low).extrema.min() == m.extrema.min(),
        m.with_range(high, low).extrema.max() == m.extrema.max(),
    ensures
        m.add(high, low, close).slow_k.window.last() == m.peek(close),
{
}

} // verus!
