//! The average true range: the mean, over a window of candles, of the
//! largest of three distances that describe a candle's range.

use std::collections::HashMap;
use std::collections::VecDeque;
use vstd::prelude::*;
use crate::error::KeeperError;
use crate::fixed::{abs, clamp, div_floor, fx_div, max2, quotient, saturate};
use crate::series::{
    lemma_mean_bounds, lemma_sum_drop_first, lemma_sum_push, next_tick, push_bounded, seq_sum,
    tail_of, tick,
};
use crate::sma_keeper::{SmaKeeper, SmaModel};

verus! {

broadcast use vstd::std_specs::hash::group_hash_axioms;

/// The least period that an average true range is taken over.
pub const MIN_PERIOD: usize = 2;

/// What the index of fluctuation is before any candle: one millionth.
pub const NO_READING: i64 = 1;

/// The factor that turns a share into hundredths of a percent.
pub const BASIS_POINTS: i64 = 10000;

/// The true range of a candle from `low` to `high` that follows a close at
/// `prev_close`: the largest of the candle's height and the distances of its
/// two ends from that close.
pub open spec fn true_range(high: i64, low: i64, prev_close: i64) -> i64 {
    clamp(max2(max2(high - low, abs(high - prev_close)), abs(low - prev_close))) as i64
}

/// How far the average true range `atr`, as a share of the price `close`,
/// is above the share `avg`, in hundredths of a percent.
pub open spec fn fluctuation(atr: i64, close: i64, avg: i64) -> i64
    recommends
        close != 0,
{
    clamp(BASIS_POINTS * (quotient(atr as int, close as int) - avg)) as i64
}

/// What an [`AtrKeeper`] stands for.
pub struct AtrModel {
    /// The number of true ranges that the average is taken over.
    pub period: nat,
    /// The length of a candle, by which the day's averages are looked up.
    pub candle_period: usize,
    /// The highs of the latest candles, oldest first.
    pub highs: Seq<i64>,
    /// The lows of the latest candles.
    pub lows: Seq<i64>,
    /// The closes of the latest candles.
    pub closes: Seq<i64>,
    /// The mean of the true ranges.
    pub atr: SmaModel,
    /// The time that the next true range is stamped with.
    pub clock: u64,
}

impl AtrModel {
    pub open spec fn new(period: nat, candle_period: usize) -> AtrModel {
        AtrModel {
            period,
            candle_period,
            highs: Seq::empty(),
            lows: Seq::empty(),
            closes: Seq::empty(),
            atr: SmaModel::new(period, 0, 0),
            clock: 1,
        }
    }

    /// The period is at least two, the three histories run side by side, and
    /// the mean is closed to no sample.
    pub open spec fn wf(self) -> bool {
        &&& self.period >= MIN_PERIOD
        &&& self.highs.len() == self.closes.len()
        &&& self.lows.len() == self.closes.len()
        &&& self.atr.wf()
        &&& self.atr.capacity == self.period
        &&& self.atr.gap == 0
        &&& self.atr.last_time <= self.clock
    }

    /// The close of the latest candle; zero before the first.
    pub open spec fn last_close(self) -> i64 {
        if self.closes.len() > 0 {
            self.closes.last()
        } else {
            0
        }
    }

    /// The state after a candle has been taken in: from the second candle
    /// on, its true range against the close before it enters the mean.
    pub open spec fn add(self, high: i64, low: i64, close: i64) -> AtrModel {
        AtrModel {
            highs: tail_of(self.highs.push(high), self.period),
            lows: tail_of(self.lows.push(low), self.period),
            closes: tail_of(self.closes.push(close), self.period),
            atr: if self.closes.len() > 0 {
                self.atr.add(self.clock, true_range(high, low, self.closes.last()))
            } else {
                self.atr
            },
            clock: if self.closes.len() > 0 {
                tick(self.clock)
            } else {
                self.clock
            },
            ..self
        }
    }

    /// The average that would be read after a candle from `low` to `high`
    /// had been taken in.
    pub open spec fn peek_candle(self, high: i64, low: i64) -> i64 {
        if self.closes.len() > 0 {
            self.atr.peek(self.clock, true_range(high, low, self.closes.last()))
        } else {
            self.atr.mean
        }
    }

    /// What the average would become if a candle from `low` to `high` came
    /// next, taking the current average for each of the `period - 1` true
    /// ranges that stay.
    pub open spec fn peek(self, high: i64, low: i64) -> i64 {
        clamp(
            (self.atr.mean * (self.period - 1) + true_range(high, low, self.last_close())) / (
            self.period as int),
        ) as i64
    }

    /// The index of fluctuation against the day's average share `avg`: how
    /// far the average true range, as a share of the latest close, is above
    /// it. Before the first candle it is [`NO_READING`]; with a latest close of
    /// zero there is none.
    pub open spec fn fluctuant_index(self, avg: i64) -> Option<i64> {
        if self.closes.len() == 0 {
            Some(NO_READING)
        } else if self.closes.last() == 0 {
            None
        } else {
            Some(fluctuation(self.atr.mean, self.closes.last(), avg))
        }
    }
}

pub struct AtrKeeper {
    period: usize,
    candle_period: usize,
    high: VecDeque<i64>,
    low: VecDeque<i64>,
    close: VecDeque<i64>,
    atr_keeper: SmaKeeper,
    timestamp_counter: u64,
}

impl View for AtrKeeper {
    type V = AtrModel;

    closed spec fn view(&self) -> AtrModel {
        AtrModel {
            period: self.period as nat,
            candle_period: self.candle_period,
            highs: self.high@,
            lows: self.low@,
            closes: self.close@,
            atr: self.atr_keeper@,
            clock: self.timestamp_counter,
        }
    }
}

impl AtrKeeper {
    /// The mean keeps its own invariant.
    pub closed spec fn parts_wf(&self) -> bool {
        self.atr_keeper.wf()
    }

    pub open spec fn wf(&self) -> bool {
        self@.wf() && self.parts_wf()
    }

    /// Creates the indicator over `period` true ranges of candles of length
    /// `candle_period`. A period below two is refused.
    pub fn new(period: usize, candle_period: usize) -> (res: Result<Self, KeeperError>)
        ensures
            period < MIN_PERIOD ==> res is Err && res->Err_0 == KeeperError::PeriodTooShort,
            period >= MIN_PERIOD ==> res is Ok && res->Ok_0.wf() && res->Ok_0@ == AtrModel::new(
                period as nat,
                candle_period,
            ),
    {
        if period < MIN_PERIOD {
            return Err(KeeperError::PeriodTooShort);
        }
        Ok(
            AtrKeeper {
                period,
                candle_period,
                high: VecDeque::new(),
                low: VecDeque::new(),
                close: VecDeque::new(),
                atr_keeper: SmaKeeper::new(period, 0, 0),
                timestamp_counter: 1,
            },
        )
    }

    /// The true range of a candle from `low` to `high` that follows a close
    /// at `prev_close`.
    pub fn get_tr(&self, high: i64, low: i64, prev_close: i64) -> (tr: i64)
        ensures
            tr == true_range(high, low, prev_close),
    {
        let hl: i128 = high as i128 - low as i128;
        let hc: i128 = high as i128 - prev_close as i128;
        let hc: i128 = if hc < 0 {
            -hc
        } else {
            hc
        };
        let lc: i128 = low as i128 - prev_close as i128;
        let lc: i128 = if lc < 0 {
            -lc
        } else {
            lc
        };
        let widest: i128 = if hl >= hc {
            hl
        } else {
            hc
        };
        let widest: i128 = if widest >= lc {
            widest
        } else {
            lc
        };
        saturate(widest)
    }

    /// The true range of the latest candle against the close before it,
    /// taking zero for what is missing.
    pub fn fast_get_tr(&self) -> (tr: i64)
        ensures
            tr == true_range(
                if self@.highs.len() > 0 {
                    self@.highs.last()
                } else {
                    0
                },
                if self@.lows.len() > 0 {
                    self@.lows.last()
                } else {
                    0
                },
                if self@.closes.len() >= 2 {
                    self@.closes[self@.closes.len() - 2]
                } else {
                    0
                },
            ),
    {
        let prev_close: i64 = if self.close.len() >= 2 {
            self.close[self.close.len() - 2]
        } else {
            0
        };
        let high: i64 = if self.high.len() > 0 {
            self.high[self.high.len() - 1]
        } else {
            0
        };
        let low: i64 = if self.low.len() > 0 {
            self.low[self.low.len() - 1]
        } else {
            0
        };
        self.get_tr(high, low, prev_close)
    }

    /// Takes in a candle. From the second candle on, its true range against
    /// the close before it enters the average.
    pub fn add(&mut self, high_val: i64, low_val: i64, close_val: i64)
        requires
            old(self).wf(),
        ensures
            final(self).wf(),
            final(self)@ == old(self)@.add(high_val, low_val, close_val),
    {
        push_bounded(&mut self.high, high_val, self.period);
        push_bounded(&mut self.low, low_val, self.period);
        push_bounded(&mut self.close, close_val, self.period);

        if self.close.len() > 1 {
            let tr: i64 = self.fast_get_tr();
            self.atr_keeper.add(self.timestamp_counter, tr);
            self.timestamp_counter = next_tick(self.timestamp_counter);
        }
    }

    /// What the average would become if a candle from `low_val` to
    /// `high_val` came next, by the closed form that takes the current
    /// average for each true range that stays in the window.
    pub fn peek_next(&self, high_val: i64, low_val: i64) -> (atr: i64)
        requires
            self.wf(),
        ensures
            atr == self@.peek(high_val, low_val),
    {
        let last_close: i64 = if self.close.len() > 0 {
            self.close[self.close.len() - 1]
        } else {
            0
        };
        let mean: i128 = self.atr_keeper.get() as i128;
        let kept: i128 = (self.period - 1) as i128;
        let tr: i128 = self.get_tr(high_val, low_val, last_close) as i128;
        assert(-0x7fff_ffff_ffff_ffff_0000_0000_0000_0000 <= mean * kept
            <= 0x7fff_ffff_ffff_ffff_0000_0000_0000_0000) by (nonlinear_arith)
            requires
                -0x8000_0000_0000_0000 <= mean <= 0x7fff_ffff_ffff_ffff,
                0 <= kept <= 0xffff_ffff_ffff_fffe,
        ;
        saturate(div_floor(mean * kept + tr, self.period as i128))
    }

    /// The average that [`AtrKeeper::add`] would arrive at for a candle from
    /// `low_val` to `high_val`, whatever its close, computed without changing
    /// anything.
    pub fn peek_candle(&self, high_val: i64, low_val: i64) -> (atr: i64)
        requires
            self.wf(),
        ensures
            atr == self@.peek_candle(high_val, low_val),
    {
        let n: usize = self.close.len();
        if n == 0 {
            return self.atr_keeper.get();
        }
        let tr: i64 = self.get_tr(high_val, low_val, self.close[n - 1]);
        self.atr_keeper.peek_next(self.timestamp_counter, tr)
    }

    /// The average true range.
    pub fn get(&self) -> (atr: i64)
        ensures
            atr == self@.atr.mean,
    {
        self.atr_keeper.get()
    }

    /// The number of candles kept.
    pub fn size(&self) -> (n: usize)
        ensures
            n == self@.closes.len(),
    {
        self.close.len()
    }

    /// The index of fluctuation: how far the average true range, as a share
    /// of the latest close, is above the day's average share for candles of
    /// this length, in hundredths of a percent. The average is zero if
    /// `day_average_atr` has none for this length.
    pub fn fluctuant_index(&self, day_average_atr: &HashMap<usize, i64>) -> (index: Option<i64>)
        ensures
            index == self@.fluctuant_index(
                if day_average_atr@.contains_key(self@.candle_period) {
                    day_average_atr@[self@.candle_period]
                } else {
                    0
                },
            ),
    {
        if self.close.len() == 0 {
            return Some(NO_READING);
        }
        let avg_atr: i64 = match day_average_atr.get(&self.candle_period) {
            Some(avg) => *avg,
            None => 0,
        };
        let last_close: i64 = self.close[self.close.len() - 1];
        if last_close == 0 {
            return None;
        }
        let share: i128 = fx_div(self.atr_keeper.get(), last_close) as i128;
        Some(saturate(BASIS_POINTS as i128 * (share - avg_atr as i128)))
    }
}

/// What [`AtrKeeper::peek_candle`] gives for a candle is the average that
/// [`AtrKeeper::add`] arrives at for it.
pub proof fn law_peek_candle_agrees_with_add(m: AtrModel, high: i64, low: i64, close: i64)
    ensures
        m.add(high, low, close).atr.mean == m.peek_candle(high, low),
{
}

/// Once the window of true ranges is full and the sum of those that stay
/// equals the current average times their number, what
/// [`AtrKeeper::peek_next`] gives for a candle is the average that
/// [`AtrKeeper::add`] arrives at for it.
pub proof fn law_peek_agrees_with_add(m: AtrModel, high: i64, low: i64, close: i64)
    requires
        m.wf(),
        m.closes.len() > 0,
        m.atr.window.len() == m.period,
        seq_sum(m.atr.window) - m.atr.window[0] == m.atr.mean * (m.period - 1),
    ensures
        m.add(high, low, close).atr.mean == m.peek(high, low),
{
    let tr = true_range(high, low, m.closes.last());
    let w = m.atr.window.push(tr);
    lemma_sum_push(m.atr.window, tr);
    lemma_sum_drop_first(w);
    lemma_mean_bounds(w.drop_first());
}

} // verus!
