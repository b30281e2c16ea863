//! Moving-average convergence/divergence: the difference of a fast and a
//! slow mean of the price, a signal line that smooths the difference, and the
//! histogram between the two.

use std::collections::VecDeque;
use vstd::prelude::*;
use crate::fixed::{clamp, div_floor, fx_sub, saturate};
use crate::series::{next_tick, push_bounded, tail_of, tick};
use crate::sma_keeper::{SmaKeeper, SmaModel};

verus! {

/// How many readings of each line are kept.
pub const HISTORY_LEN: usize = 10;

/// How many histogram samples a cross is looked for across.
pub const CROSS_SPAN: usize = 5;

/// Whether one of `a` and `b` is above zero and the other below.
pub open spec fn opposite_signs(a: int, b: int) -> bool {
    (a > 0 && b < 0) || (a < 0 && b > 0)
}

/// The slope of the line through the first and the last element of `s`,
/// rounded down.
pub open spec fn slope(s: Seq<i64>) -> int
    recommends
        s.len() >= 2,
{
    (s.last() - s.first()) / (s.len() - 1)
}

/// What a [`MacdKeeper`] stands for.
pub struct MacdModel {
    /// The slow mean of the price.
    pub slow: SmaModel,
    /// The fast mean of the price.
    pub fast: SmaModel,
    /// The signal line: the mean of the difference line.
    pub signal: SmaModel,
    /// The latest readings of the slow mean.
    pub slow_history: Seq<i64>,
    /// The latest readings of the fast mean.
    pub fast_history: Seq<i64>,
    /// The latest readings of the difference line.
    pub diff_history: Seq<i64>,
    /// The latest readings of the signal line.
    pub signal_history: Seq<i64>,
    /// The latest readings of the histogram, as many as the divergence window.
    pub histogram: Seq<i64>,
    /// The latest prices, as many as the divergence window.
    pub prices: Seq<i64>,
    /// The number of samples across which a divergence is looked for.
    pub divergence_window: nat,
    /// The time that the next sample is stamped with.
    pub clock: u64,
}

impl MacdModel {
    /// An indicator that has seen no price.
    pub open spec fn new(slow: nat, fast: nat, signal: nat, divergence_window: nat) -> MacdModel {
        MacdModel {
            slow: SmaModel::new(slow, 0, 0),
            fast: SmaModel::new(fast, 0, 0),
            signal: SmaModel::new(signal, 0, 0),
            slow_history: Seq::empty(),
            fast_history: Seq::empty(),
            diff_history: Seq::empty(),
            signal_history: Seq::empty(),
            histogram: Seq::empty(),
            prices: Seq::empty(),
            divergence_window,
            clock: 1,
        }
    }

    /// The three means are well formed and closed to no sample, and the
    /// histogram runs along the prices.
    pub open spec fn wf(self) -> bool {
        &&& self.slow.wf() && self.slow.gap == 0 && self.slow.last_time <= self.clock
        &&& self.fast.wf() && self.fast.gap == 0 && self.fast.last_time <= self.clock
        &&& self.signal.wf() && self.signal.gap == 0 && self.signal.last_time <= self.clock
        &&& self.histogram.len() == self.prices.len()
    }

    /// The difference line once `price` has entered both means.
    pub open spec fn diff_with(self, price: i64) -> i64 {
        clamp(self.fast.add(self.clock, price).mean - self.slow.add(self.clock, price).mean) as i64
    }

    /// The signal line once `price` has been taken in.
    pub open spec fn signal_with(self, price: i64) -> SmaModel {
        self.signal.add(tick(self.clock), self.diff_with(price))
    }

    /// The difference line, the signal line and the histogram that would be
    /// read after `price` had been taken in.
    pub open spec fn peek(self, price: i64) -> (i64, i64, i64) {
        let diff = clamp(self.fast.peek(self.clock, price) - self.slow.peek(self.clock, price))
            as i64;
        let signal = self.signal.peek(tick(self.clock), diff);
        (diff, signal, clamp(diff - signal) as i64)
    }

    /// The indicator after `price` has been taken in.
    pub open spec fn add(self, price: i64) -> MacdModel {
        let slow = self.slow.add(self.clock, price);
        let fast = self.fast.add(self.clock, price);
        let diff = self.diff_with(price);
        let signal = self.signal_with(price);
        MacdModel {
            slow,
            fast,
            signal,
            slow_history: tail_of(self.slow_history.push(slow.mean), HISTORY_LEN as nat),
            fast_history: tail_of(self.fast_history.push(fast.mean), HISTORY_LEN as nat),
            diff_history: tail_of(self.diff_history.push(diff), HISTORY_LEN as nat),
            signal_history: tail_of(self.signal_history.push(signal.mean), HISTORY_LEN as nat),
            histogram: tail_of(
                self.histogram.push(clamp(diff - signal.mean) as i64),
                self.divergence_window,
            ),
            prices: tail_of(self.prices.push(price), self.divergence_window),
            divergence_window: self.divergence_window,
            clock: tick(tick(self.clock)),
        }
    }

    /// The indicator after the prices `ps` have been taken in, in order.
    pub open spec fn add_all(self, ps: Seq<i64>) -> MacdModel
        decreases ps.len(),
    {
        if ps.len() == 0 {
            self
        } else {
            self.add_all(ps.drop_last()).add(ps.last())
        }
    }

    /// Whether the histogram has changed sign across its last
    /// [`CROSS_SPAN`] samples: the oldest and the newest of them lie strictly
    /// on opposite sides of zero.
    pub open spec fn cross(self) -> bool {
        &&& self.diff_history.len() >= CROSS_SPAN
        &&& self.histogram.len() >= CROSS_SPAN
        &&& opposite_signs(
            self.histogram.last() as int,
            self.histogram[self.histogram.len() - CROSS_SPAN] as int,
        )
    }

    /// How far the slope of the price is above the slope of the histogram
    /// across the divergence window, where the window is filled and the two
    /// run in strictly opposite directions; zero otherwise.
    pub open spec fn divergence(self) -> i64 {
        if self.histogram.len() < self.divergence_window || self.histogram.len() < 2 {
            0
        } else if !opposite_signs(
            self.histogram.last() - self.histogram.first(),
            self.prices.last() - self.prices.first(),
        ) {
            0
        } else {
            clamp(slope(self.prices) - slope(self.histogram)) as i64
        }
    }
}

pub struct MacdKeeper {
    slow_sma: SmaKeeper,
    fast_sma: SmaKeeper,
    dea_sma: SmaKeeper,
    slow_sma_history: VecDeque<i64>,
    fast_sma_history: VecDeque<i64>,
    diff_line_history: VecDeque<i64>,
    dea_sma_history: VecDeque<i64>,
    macd_line_history: VecDeque<i64>,
    price_history: VecDeque<i64>,
    slow_period: usize,
    fast_period: usize,
    dea_period: usize,
    divergen_wind: usize,
    timestamp_counter: u64,
}

impl View for MacdKeeper {
    type V = MacdModel;

    closed spec fn view(&self) -> MacdModel {
        MacdModel {
            slow: self.slow_sma@,
            fast: self.fast_sma@,
            signal: self.dea_sma@,
            slow_history: self.slow_sma_history@,
            fast_history: self.fast_sma_history@,
            diff_history: self.diff_line_history@,
            signal_history: self.dea_sma_history@,
            histogram: self.macd_line_history@,
            prices: self.price_history@,
            divergence_window: self.divergen_wind as nat,
            clock: self.timestamp_counter,
        }
    }
}

impl MacdKeeper {
    /// The three means keep their own invariants and the periods they were
    /// made with.
    pub closed spec fn parts_wf(&self) -> bool {
        &&& self.slow_sma.wf()
        &&& self.fast_sma.wf()
        &&& self.dea_sma.wf()
        &&& self.slow_sma@.capacity == self.slow_period
        &&& self.fast_sma@.capacity == self.fast_period
        &&& self.dea_sma@.capacity == self.dea_period
    }

    pub open spec fn wf(&self) -> bool {
        self@.wf() && self.parts_wf()
    }

    /// Creates the indicator with the periods of the slow mean, the fast mean
    /// and the signal line, and the window across which a divergence is
    /// looked for, and takes in `prices`, if any, in order.
    pub fn new(
        slow_period: usize,
        fast_period: usize,
        dea_period: usize,
        divergen_wind: usize,
        prices: Option<Vec<i64>>,
    ) -> (keeper: Self)
        requires
            slow_period >= 1,
            fast_period >= 1,
            dea_period >= 1,
        ensures
            keeper.wf(),
            keeper@ == MacdModel::new(
                slow_period as nat,
                fast_period as nat,
                dea_period as nat,
                divergen_wind as nat,
            ).add_all(
                match prices {
                    Some(ps) => ps@,
                    None => Seq::empty(),
                },
            ),
    {
        let mut keeper = MacdKeeper {
            slow_sma: SmaKeeper::new(slow_period, 0, 0),
            fast_sma: SmaKeeper::new(fast_period, 0, 0),
            dea_sma: SmaKeeper::new(dea_period, 0, 0),
            slow_sma_history: VecDeque::new(),
            fast_sma_history: VecDeque::new(),
            diff_line_history: VecDeque::new(),
            dea_sma_history: VecDeque::new(),
            macd_line_history: VecDeque::with_capacity(divergen_wind),
            price_history: VecDeque::with_capacity(divergen_wind),
            slow_period,
            fast_period,
            dea_period,
            divergen_wind,
            timestamp_counter: 1,
        };
        let ghost fresh = keeper@;

        if let Some(price_vec) = prices {
            let n: usize = price_vec.len();
            let mut i: usize = 0;
            assert(price_vec@.subrange(0, 0) =~= Seq::<i64>::empty());
            while i < n
                invariant
                    i <= n,
                    n == price_vec@.len(),
                    keeper.wf(),
                    keeper@ == fresh.add_all(price_vec@.subrange(0, i as int)),
                decreases n - i,
            {
                keeper.add(price_vec[i]);
                assert(price_vec@.subrange(0, i + 1).drop_last() =~= price_vec@.subrange(
                    0,
                    i as int,
                ));
                i = i + 1;
            }
            assert(price_vec@.subrange(0, n as int) =~= price_vec@);
        }
        keeper
    }

    /// Takes in a price: it enters the slow and the fast mean, their
    /// difference enters the signal line, and each line's reading joins its
    /// history.
    pub fn add(&mut self, price: i64)
        requires
            old(self).wf(),
        ensures
            final(self).wf(),
            final(self)@ == old(self)@.add(price),
    {
        self.slow_sma.add(self.timestamp_counter, price);
        self.fast_sma.add(self.timestamp_counter, price);
        self.timestamp_counter = next_tick(self.timestamp_counter);

        let diff: i64 = fx_sub(self.fast_sma.get(), self.slow_sma.get());
        self.dea_sma.add(self.timestamp_counter, diff);
        self.timestamp_counter = next_tick(self.timestamp_counter);

        push_bounded(&mut self.slow_sma_history, self.slow_sma.get(), HISTORY_LEN);
        push_bounded(&mut self.fast_sma_history, self.fast_sma.get(), HISTORY_LEN);
        push_bounded(&mut self.diff_line_history, diff, HISTORY_LEN);
        push_bounded(&mut self.dea_sma_history, self.dea_sma.get(), HISTORY_LEN);
        push_bounded(
            &mut self.macd_line_history,
            fx_sub(diff, self.dea_sma.get()),
            self.divergen_wind,
        );
        push_bounded(&mut self.price_history, price, self.divergen_wind);
    }

    /// The difference line, the signal line and the histogram that
    /// [`MacdKeeper::add`] would arrive at for `price`, computed without
    /// changing anything.
    pub fn peek_next(&self, price: i64) -> (lines: (i64, i64, i64))
        requires
            self.wf(),
        ensures
            lines == self@.peek(price),
    {
        let slow: i64 = self.slow_sma.peek_next(self.timestamp_counter, price);
        let fast: i64 = self.fast_sma.peek_next(self.timestamp_counter, price);
        let diff: i64 = fx_sub(fast, slow);
        let signal: i64 = self.dea_sma.peek_next(next_tick(self.timestamp_counter), diff);
        (diff, signal, fx_sub(diff, signal))
    }

    /// The number of readings kept of each line.
    pub fn size(&self) -> (n: usize)
        ensures
            n == self@.slow_history.len(),
    {
        self.slow_sma_history.len()
    }

    /// The period of the slow mean.
    pub fn slow_period(&self) -> (n: usize)
        requires
            self.wf(),
        ensures
            n == self@.slow.capacity,
    {
        self.slow_period
    }

    /// The period of the fast mean.
    pub fn fast_period(&self) -> (n: usize)
        requires
            self.wf(),
        ensures
            n == self@.fast.capacity,
    {
        self.fast_period
    }

    /// The period of the signal line.
    pub fn dea_period(&self) -> (n: usize)
        requires
            self.wf(),
        ensures
            n == self@.signal.capacity,
    {
        self.dea_period
    }

    /// The number of samples across which a divergence is looked for.
    pub fn divergen_wind(&self) -> (n: usize)
        ensures
            n == self@.divergence_window,
    {
        self.divergen_wind
    }

    /// Whether the histogram has changed sign across its last five samples.
    pub fn check_cross(&self) -> (cross: bool)
        ensures
            cross == self@.cross(),
    {
        if self.diff_line_history.len() < CROSS_SPAN {
            return false;
        }
        let len: usize = self.macd_line_history.len();
        if len < CROSS_SPAN {
            return false;
        }
        let macd_last: i64 = self.macd_line_history[len - 1];
        let macd_prev: i64 = self.macd_line_history[len - CROSS_SPAN];
        (macd_last > 0 && macd_prev < 0) || (macd_last < 0 && macd_prev > 0)
    }

    /// How far the slope of the price is above that of the histogram across
    /// the divergence window; zero unless the window is filled and the two
    /// slopes have strictly opposite signs.
    pub fn check_divergence(&self) -> (gap: i64)
        requires
            self.wf(),
        ensures
            gap == self@.divergence(),
    {
        let size: usize = self.macd_line_history.len();
        if size < self.divergen_wind || size < 2 {
            return 0;
        }
        let macd_rise: i128 = self.macd_line_history[size - 1] as i128
            - self.macd_line_history[0] as i128;
        let price_rise: i128 = self.price_history[size - 1] as i128 - self.price_history[0] as i128;
        if !((macd_rise > 0 && price_rise < 0) || (macd_rise < 0 && price_rise > 0)) {
            return 0;
        }
        let macd_slope: i128 = div_floor(macd_rise, (size - 1) as i128);
        let price_slope: i128 = div_floor(price_rise, (size - 1) as i128);
        assert(-0x1_0000_0000_0000_0000 <= macd_slope <= 0x1_0000_0000_0000_0000
            && -0x1_0000_0000_0000_0000 <= price_slope <= 0x1_0000_0000_0000_0000) by {
            lemma_quotient_within(macd_rise as int, (size - 1) as int);
            lemma_quotient_within(price_rise as int, (size - 1) as int);
        }
        saturate(price_slope - macd_slope)
    }
}

/// What [`MacdKeeper::peek_next`] gives for a price are the readings of the
/// difference line, the signal line and the histogram that
/// [`MacdKeeper::add`] arrives at for it, and enters into their histories.
pub proof fn law_peek_agrees_with_add(m: MacdModel, price: i64)
    ensures
        m.add(price).diff_history.last() == m.peek(price).0,
        m.add(price).signal.mean == m.peek(price).1,
        m.add(price).signal_history.last() == m.peek(price).1,
        m.divergence_window >= 1 ==> m.add(price).histogram.last() == m.peek(price).2,
{
}

/// A quotient by a positive divisor lies no further from zero than the
/// dividend, rounded outward.
proof fn lemma_quotient_within(n: int, d: int)
    requires
        d >= 1,
        -0x1_0000_0000_0000_0000 <= n <= 0x1_0000_0000_0000_0000,
    ensures
        -0x1_0000_0000_0000_0000 <= n / d <= 0x1_0000_0000_0000_0000,
{
    vstd::arithmetic::div_mod::lemma_fundamental_div_mod(n, d);
    vstd::arithmetic::div_mod::lemma_mod_bound(n, d);
    let q = n / d;
    let r = n % d;
    assert(-0x1_0000_0000_0000_0000 <= q <= 0x1_0000_0000_0000_0000) by (nonlinear_arith)
        requires
            n == d * q + r,
            0 <= r < d,
            d >= 1,
            -0x1_0000_0000_0000_0000 <= n <= 0x1_0000_0000_0000_0000,
    ;
}

} // verus!
