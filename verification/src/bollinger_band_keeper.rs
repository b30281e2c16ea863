//! Bollinger bands: the mean of a window of values, and a band on each side
//! of it at a multiple of the window's standard deviation.

use std::collections::VecDeque;
use vstd::prelude::*;
use crate::deviation::{spread_about, sum_sq_dev, SquareAcc};
use crate::fixed::{clamp, fx_add, fx_mul, fx_sub, product, SCALE};
use crate::series::{next_tick, push_bounded, tail_of, tick};
use crate::sma_keeper::{SmaKeeper, SmaModel};

verus! {

/// The multiple of the standard deviation at which the bands lie unless
/// another is asked for: two.
pub const DEFAULT_MULTIPLIER: i64 = 2_000_000;

/// What a [`BollingerBandKeeper`] stands for.
pub struct BollingerModel {
    /// The values in the window, oldest first.
    pub window: Seq<i64>,
    /// The mean of the window.
    pub sma: SmaModel,
    /// The number of values in a full window.
    pub window_size: nat,
    /// The multiple of the standard deviation at which the bands lie.
    pub multiplier: i64,
    /// The upper band.
    pub upper: i64,
    /// The lower band.
    pub lower: i64,
    /// The time that the next value is stamped with.
    pub clock: u64,
}

impl BollingerModel {
    pub open spec fn new(window_size: nat, multiplier: i64) -> BollingerModel {
        BollingerModel {
            window: Seq::empty(),
            sma: SmaModel::new(window_size, 0, 0),
            window_size,
            multiplier,
            upper: 0,
            lower: 0,
            clock: 1,
        }
    }

    /// The mean runs over the very window that the deviation is taken of,
    /// and is closed to no sample.
    pub open spec fn wf(self) -> bool {
        &&& self.window_size >= 1
        &&& self.sma.wf()
        &&& self.sma.capacity == self.window_size
        &&& self.sma.gap == 0
        &&& self.sma.last_time <= self.clock
        &&& self.sma.window == self.window
    }

    /// Half the width of the band about the mean `mean` of the window `w`.
    pub open spec fn reach(self, w: Seq<i64>, mean: i64) -> int {
        product(self.multiplier as int, spread_about(w, mean as int))
    }

    /// The upper and the lower band that would be read after `value` had
    /// been taken in: at the reach of the window with `value` about the mean
    /// with `value`.
    pub open spec fn peek(self, value: i64) -> (i64, i64) {
        let window = tail_of(self.window.push(value), self.window_size);
        let mean = self.sma.peek(self.clock, value);
        (
            clamp(mean + self.reach(window, mean)) as i64,
            clamp(mean - self.reach(window, mean)) as i64,
        )
    }

    /// The state after `value` has been taken in.
    pub open spec fn add(self, value: i64) -> BollingerModel {
        let window = tail_of(self.window.push(value), self.window_size);
        let sma = self.sma.add(self.clock, value);
        BollingerModel {
            window,
            sma,
            upper: clamp(sma.mean + self.reach(window, sma.mean)) as i64,
            lower: clamp(sma.mean - self.reach(window, sma.mean)) as i64,
            clock: tick(self.clock),
            ..self
        }
    }

    /// The state after the values `vs` have been taken in, in order.
    pub open spec fn add_all(self, vs: Seq<i64>) -> BollingerModel
        decreases vs.len(),
    {
        if vs.len() == 0 {
            self
        } else {
            self.add_all(vs.drop_last()).add(vs.last())
        }
    }
}

pub struct BollingerBandKeeper {
    arr: VecDeque<i64>,
    sma_keeper: SmaKeeper,
    window_size: usize,
    std_dev_multiplier: i64,
    upper_band: i64,
    lower_band: i64,
    timestamp_counter: u64,
}

impl View for BollingerBandKeeper {
    type V = BollingerModel;

    closed spec fn view(&self) -> BollingerModel {
        BollingerModel {
            window: self.arr@,
            sma: self.sma_keeper@,
            window_size: self.window_size as nat,
            multiplier: self.std_dev_multiplier,
            upper: self.upper_band,
            lower: self.lower_band,
            clock: self.timestamp_counter,
        }
    }
}

impl BollingerBandKeeper {
    /// The mean keeps its own invariant.
    pub closed spec fn parts_wf(&self) -> bool {
        self.sma_keeper.wf()
    }

    pub open spec fn wf(&self) -> bool {
        self@.wf() && self.parts_wf()
    }

    /// Creates the indicator over a window of one value with bands at two
    /// standard deviations.
    pub fn new() -> (keeper: Self)
        ensures
            keeper.wf(),
            keeper@ == BollingerModel::new(1, DEFAULT_MULTIPLIER),
    {
        BollingerBandKeeper {
            arr: VecDeque::new(),
            sma_keeper: SmaKeeper::new(1, 0, 0),
            window_size: 1,
            std_dev_multiplier: DEFAULT_MULTIPLIER,
            upper_band: 0,
            lower_band: 0,
            timestamp_counter: 1,
        }
    }

    /// Creates the indicator over a window of `window_size` values with
    /// bands at `std_dev_multiplier` standard deviations, and takes in
    /// `window_values`, if any, in order.
    pub fn with_window(
        window_size: usize,
        std_dev_multiplier: i64,
        window_values: Option<Vec<i64>>,
    ) -> (keeper: Self)
        requires
            window_size >= 1,
        ensures
            keeper.wf(),
            keeper@ == BollingerModel::new(window_size as nat, std_dev_multiplier).add_all(
                match window_values {
                    Some(vs) => vs@,
                    None => Seq::empty(),
                },
            ),
    {
        let mut keeper = BollingerBandKeeper {
            arr: VecDeque::new(),
            sma_keeper: SmaKeeper::new(window_size, 0, 0),
            window_size,
            std_dev_multiplier,
            upper_band: 0,
            lower_band: 0,
            timestamp_counter: 1,
        };
        let ghost fresh = keeper@;

        if let Some(values) = window_values {
            let n: usize = values.len();
            let mut i: usize = 0;
            assert(values@.subrange(0, 0) =~= Seq::<i64>::empty());
            while i < n
                invariant
                    i <= n,
                    n == values@.len(),
                    keeper.wf(),
                    keeper@ == fresh.add_all(values@.subrange(0, i as int)),
                decreases n - i,
            {
                keeper.add(values[i]);
                assert(values@.subrange(0, i + 1).drop_last() =~= values@.subrange(0, i as int));
                i = i + 1;
            }
            assert(values@.subrange(0, n as int) =~= values@);
        }
        keeper
    }

    /// The number of values in the window.
    pub fn size(&self) -> (n: usize)
        ensures
            n == self@.window.len(),
    {
        self.arr.len()
    }

    /// Takes in a value: it enters the window and the mean, and the bands are
    /// set about the new mean at the multiple of the window's population
    /// standard deviation.
    pub fn add(&mut self, value: i64)
        requires
            old(self).wf(),
        ensures
            final(self).wf(),
            final(self)@ == old(self)@.add(value),
    {
        push_bounded(&mut self.arr, value, self.window_size);

        self.sma_keeper.add(self.timestamp_counter, value);
        self.timestamp_counter = next_tick(self.timestamp_counter);
        let mean: i64 = self.sma_keeper.get();

        let n: usize = self.arr.len();
        let mut acc = SquareAcc::new(n);
        let mut i: usize = 0;
        assert(self.arr@.subrange(0, 0) =~= Seq::<i64>::empty());
        while i < n
            invariant
                i <= n,
                n == self.arr@.len(),
                acc.wf(),
                acc.size() == n,
                acc.terms() == i,
                acc.total() == sum_sq_dev(self.arr@.subrange(0, i as int), mean as int),
            decreases n - i,
        {
            assert(self.arr@.subrange(0, i + 1).drop_last() =~= self.arr@.subrange(0, i as int));
            acc.feed(self.arr[i] as i128 - mean as i128);
            i = i + 1;
        }
        assert(self.arr@.subrange(0, n as int) =~= self.arr@);
        let stddev: i64 = acc.root();

        let reach: i64 = fx_mul(self.std_dev_multiplier, stddev);
        self.upper_band = fx_add(mean, reach);
        self.lower_band = fx_sub(mean, reach);
    }

    /// The upper and the lower band that [`BollingerBandKeeper::add`] would
    /// arrive at for `value`, computed without changing anything.
    pub fn peek_next(&self, value: i64) -> (bands: (i64, i64))
        requires
            self.wf(),
        ensures
            bands == self@.peek(value),
    {
        let mean: i64 = self.sma_keeper.peek_next(self.timestamp_counter, value);
        let n: usize = self.arr.len();
        let start: usize = if n >= self.window_size {
            n - self.window_size + 1
        } else {
            0
        };
        let ghost kept = self.arr@.subrange(start as int, n as int);
        assert(kept.push(value) =~= tail_of(self.arr@.push(value), self.window_size as nat));
        let mut acc = SquareAcc::new(n - start + 1);
        let mut i: usize = start;
        assert(self.arr@.subrange(start as int, start as int) =~= Seq::<i64>::empty());
        while i < n
            invariant
                start <= i <= n,
                n == self.arr@.len(),
                acc.wf(),
                acc.size() == n - start + 1,
                acc.terms() == i - start,
                acc.total() == sum_sq_dev(self.arr@.subrange(start as int, i as int), mean as int),
            decreases n - i,
        {
            assert(self.arr@.subrange(start as int, i + 1).drop_last() =~= self.arr@.subrange(
                start as int,
                i as int,
            ));
            acc.feed(self.arr[i] as i128 - mean as i128);
            i = i + 1;
        }
        assert(kept.push(value).drop_last() =~= kept);
        acc.feed(value as i128 - mean as i128);
        let stddev: i64 = acc.root();

        let reach: i64 = fx_mul(self.std_dev_multiplier, stddev);
        (fx_add(mean, reach), fx_sub(mean, reach))
    }

    /// Whether `value` lies above the upper band.
    pub fn is_above_upper_band(&self, value: i64) -> (above: bool)
        ensures
            above == (value > self@.upper),
    {
        value > self.upper_band
    }

    /// Whether `value` lies below the lower band.
    pub fn is_below_lower_band(&self, value: i64) -> (below: bool)
        ensures
            below == (value < self@.lower),
    {
        value < self.lower_band
    }

    /// Whether `value` lies between the bands, the bands included.
    pub fn is_inside_band(&self, value: i64) -> (inside: bool)
        ensures
            inside == (self@.lower <= value <= self@.upper),
    {
        value >= self.lower_band && value <= self.upper_band
    }

    /// The number of values in a full window.
    pub fn window_size(&self) -> (n: usize)
        ensures
            n == self@.window_size,
    {
        self.window_size
    }

    /// The multiple of the standard deviation at which the bands lie.
    pub fn std_dev_multiplier(&self) -> (k: i64)
        ensures
            k == self@.multiplier,
    {
        self.std_dev_multiplier
    }

    /// The upper band.
    pub fn upper_band(&self) -> (band: i64)
        ensures
            band == self@.upper,
    {
        self.upper_band
    }

    /// The lower band.
    pub fn lower_band(&self) -> (band: i64)
        ensures
            band == self@.lower,
    {
        self.lower_band
    }

    /// The mean of the window.
    pub fn mean(&self) -> (mean: i64)
        ensures
            mean == self@.sma.mean,
    {
        self.sma_keeper.get()
    }
}

/// What [`BollingerBandKeeper::peek_next`] gives for a value are the bands
/// that [`BollingerBandKeeper::add`] arrives at for it.
pub proof fn law_peek_agrees_with_add(m: BollingerModel, value: i64)
    ensures
        m.add(value).upper == m.peek(value).0,
        m.add(value).lower == m.peek(value).1,
{
}

/// With a multiplier that is not negative the bands enclose the mean, and
/// where neither band is clamped the mean lies exactly halfway between them.
pub proof fn law_bands_enclose_mean(m: BollingerModel, value: i64)
    requires
        m.multiplier >= 0,
    ensures
        m.add(value).lower <= m.add(value).sma.mean <= m.add(value).upper,
        i64::MIN < m.add(value).lower && m.add(value).upper < i64::MAX ==> m.add(value).upper
            + m.add(value).lower == 2 * m.add(value).sma.mean,
{
    let after = m.add(value);
    let spread = spread_about(after.window, after.sma.mean as int);
    assert(spread >= 0);
    let wide = m.multiplier * spread;
    assert(wide >= 0) by (nonlinear_arith)
        requires
            wide == m.multiplier * spread,
            m.multiplier >= 0,
            spread >= 0,
    ;
    assert(wide / (SCALE as int) >= 0) by (nonlinear_arith)
        requires
            wide >= 0,
            SCALE == 1_000_000,
    ;
}

} // verus!
