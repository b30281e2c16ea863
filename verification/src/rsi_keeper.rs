//! The relative strength index: the share of the gains in the sum of the
//! gains and losses of the price across a window, on a scale of 0 to 100.

use std::collections::VecDeque;
use vstd::prelude::*;
use crate::deviation::max_distance;
use crate::fixed::{clamp, div_floor, floor_div, quotient, ratio, saturate, HUNDRED, SCALE};
use crate::series::{push_bounded, tail_of};

verus! {

/// The index before two prices have been seen.
pub const NEUTRAL: i64 = 50_000_000;

/// Below this an average loss counts as none: one ten-thousandth.
pub const NEAR_ZERO: i64 = 100;

/// The sum of the rises from each price of `s` to the next.
pub open spec fn gains(s: Seq<i64>) -> int
    decreases s.len(),
{
    if s.len() < 2 {
        0
    } else if s.last() > s[s.len() - 2] {
        gains(s.drop_last()) + (s.last() - s[s.len() - 2])
    } else {
        gains(s.drop_last())
    }
}

/// The sum of the falls from each price of `s` to the next.
pub open spec fn losses(s: Seq<i64>) -> int
    decreases s.len(),
{
    if s.len() < 2 {
        0
    } else if s.last() > s[s.len() - 2] {
        losses(s.drop_last())
    } else {
        losses(s.drop_last()) + (s[s.len() - 2] - s.last())
    }
}

/// The relative strength: the average gain over the average loss, or one
/// hundred where the average loss is within [`NEAR_ZERO`] of zero.
pub open spec fn strength_of(avg_gain: int, avg_loss: int) -> int {
    if -NEAR_ZERO < avg_loss < NEAR_ZERO {
        HUNDRED as int
    } else {
        quotient(avg_gain, avg_loss)
    }
}

/// The index for the sums `gain` and `loss` over a window of `period`
/// prices: with the relative strength `rs` of the two averages,
/// `100 - 100 / (1 + rs)`.
pub open spec fn rsi_of(gain: int, loss: int, period: int) -> int
    recommends
        period >= 1,
{
    let rs = strength_of(gain / period, loss / period);
    clamp(HUNDRED - floor_div(HUNDRED * SCALE, SCALE + rs))
}

/// What an [`RsiKeeper`] stands for.
pub struct RsiModel {
    /// The number of prices in the window; zero for a keeper that was given
    /// none.
    pub period: nat,
    /// The current index.
    pub rsi: i64,
    /// The index before the last change.
    pub prev_rsi: i64,
    /// The prices in the window, oldest first.
    pub prices: Seq<i64>,
}

impl RsiModel {
    pub open spec fn new(period: nat) -> RsiModel {
        RsiModel { period, rsi: NEUTRAL, prev_rsi: NEUTRAL, prices: Seq::empty() }
    }

    /// The window after `price` has entered it.
    pub open spec fn window_with(self, price: i64) -> Seq<i64> {
        tail_of(self.prices.push(price), self.period)
    }

    /// The index that `price` would bring about.
    pub open spec fn rsi_with(self, price: i64) -> i64 {
        if self.window_with(price).len() < 2 {
            self.rsi
        } else {
            rsi_of(
                gains(self.window_with(price)),
                losses(self.window_with(price)),
                self.period as int,
            ) as i64
        }
    }

    /// The state after `price` has been taken in.
    pub open spec fn add(self, price: i64) -> RsiModel {
        if self.window_with(price).len() < 2 {
            RsiModel { prices: self.window_with(price), ..self }
        } else {
            RsiModel {
                prices: self.window_with(price),
                prev_rsi: self.rsi,
                rsi: self.rsi_with(price),
                ..self
            }
        }
    }
}

/// Whether `value` lies strictly within `epsilon` of zero.
pub fn is_near_zero(value: i64, epsilon: i64) -> (near: bool)
    ensures
        near == (-epsilon < value < epsilon),
{
    value < epsilon && value as i128 > -(epsilon as i128)
}

pub struct RsiKeeper {
    max_len: usize,
    rsi: i64,
    prev_rsi: i64,
    price_arr: VecDeque<i64>,
}

impl View for RsiKeeper {
    type V = RsiModel;

    closed spec fn view(&self) -> RsiModel {
        RsiModel {
            period: self.max_len as nat,
            rsi: self.rsi,
            prev_rsi: self.prev_rsi,
            prices: self.price_arr@,
        }
    }
}

proof fn lemma_change_sums_bounded(s: Seq<i64>)
    ensures
        0 <= gains(s) <= s.len() * max_distance(),
        0 <= losses(s) <= s.len() * max_distance(),
    decreases s.len(),
{
    if s.len() >= 2 {
        lemma_change_sums_bounded(s.drop_last());
    }
}

/// What [`RsiKeeper::peek_next`] gives for a price is the index that
/// [`RsiKeeper::add`] arrives at for it.
pub proof fn law_peek_agrees_with_add(m: RsiModel, price: i64)
    ensures
        m.add(price).rsi == m.rsi_with(price),
{
}

/// The index lies between zero and one hundred.
pub proof fn law_rsi_in_range(gain: int, loss: int, period: int)
    requires
        gain >= 0,
        loss >= 0,
        period >= 1,
    ensures
        0 <= rsi_of(gain, loss, period) <= HUNDRED,
{
    let avg_gain = gain / period;
    let avg_loss = loss / period;
    lemma_floor_nonneg(gain, period);
    lemma_floor_nonneg(loss, period);
    let rs = strength_of(avg_gain, avg_loss);
    if !(-NEAR_ZERO < avg_loss < NEAR_ZERO) {
        lemma_floor_nonneg(avg_gain * SCALE, avg_loss);
    }
    assert(rs >= 0);
    let d = SCALE + rs;
    let q = (HUNDRED * SCALE) / d;
    vstd::arithmetic::div_mod::lemma_fundamental_div_mod(HUNDRED * SCALE, d);
    vstd::arithmetic::div_mod::lemma_mod_bound(HUNDRED * SCALE, d);
    assert(0 <= q <= HUNDRED) by (nonlinear_arith)
        requires
            HUNDRED * SCALE == d * q + (HUNDRED * SCALE) % d,
            0 <= (HUNDRED * SCALE) % d < d,
            d >= SCALE,
            SCALE == 1_000_000,
            HUNDRED == 100_000_000,
    ;
}

proof fn lemma_floor_nonneg(n: int, d: int)
    requires
        n >= 0,
        d >= 1,
    ensures
        0 <= n / d <= n,
{
    vstd::arithmetic::div_mod::lemma_fundamental_div_mod(n, d);
    vstd::arithmetic::div_mod::lemma_mod_bound(n, d);
    let q = n / d;
    assert(0 <= q <= n) by (nonlinear_arith)
        requires
            n == d * q + n % d,
            0 <= n % d < d,
            n >= 0,
            d >= 1,
    ;
}

/// The sums of the rises and of the falls across the prices of `arr` from
/// `start` on.
fn change_sums(arr: &VecDeque<i64>, start: usize) -> (sums: (u128, u128))
    requires
        start <= arr@.len(),
    ensures
        sums.0 == gains(arr@.subrange(start as int, arr@.len() as int)),
        sums.1 == losses(arr@.subrange(start as int, arr@.len() as int)),
{
    let n: usize = arr.len();
    let mut gain: u128 = 0;
    let mut loss: u128 = 0;
    if n - start < 2 {
        return (gain, loss);
    }
    let mut i: usize = start + 1;
    assert(gains(arr@.subrange(start as int, start + 1)) == 0 && losses(
        arr@.subrange(start as int, start + 1),
    ) == 0);
    while i < n
        invariant
            start < i <= n,
            n == arr@.len(),
            gain == gains(arr@.subrange(start as int, i as int)),
            loss == losses(arr@.subrange(start as int, i as int)),
        decreases n - i,
    {
        let ghost w = arr@.subrange(start as int, i + 1);
        proof {
            assert(w.drop_last() =~= arr@.subrange(start as int, i as int));
            assert(w.last() == arr@[i as int] && w[w.len() - 2] == arr@[i - 1]);
            lemma_change_sums_bounded(arr@.subrange(start as int, i as int));
            lemma_change_sums_bounded(w);
        }
        let change: i128 = arr[i] as i128 - arr[i - 1] as i128;
        if change > 0 {
            gain = gain + change as u128;
        } else {
            loss = loss + (-change) as u128;
        }
        i = i + 1;
    }
    (gain, loss)
}

/// The index for the sums `gain` and `loss` across `n` prices, averaged over
/// `period`.
fn index_of(gain: u128, loss: u128, n: usize, period: usize) -> (rsi: i64)
    requires
        1 <= period,
        n <= period,
        gain <= n * max_distance(),
        loss <= n * max_distance(),
    ensures
        rsi == rsi_of(gain as int, loss as int, period as int),
{
    proof {
        lemma_average_bounded(gain as int, n as int, period as int);
        lemma_average_bounded(loss as int, n as int, period as int);
    }
    let avg_gain: i128 = (gain / period as u128) as i128;
    let avg_loss: i128 = (loss / period as u128) as i128;

    let rs: i64 = if is_near_zero(saturate(avg_loss), NEAR_ZERO) {
        HUNDRED
    } else {
        ratio(avg_gain, avg_loss)
    };
    assert(HUNDRED * SCALE == 100_000_000_000_000) by (nonlinear_arith)
        requires
            HUNDRED == 100_000_000,
            SCALE == 1_000_000,
    ;
    let share: i128 = div_floor(100_000_000_000_000, SCALE as i128 + rs as i128);
    proof {
        law_rsi_in_range(gain as int, loss as int, period as int);
    }
    saturate(HUNDRED as i128 - share)
}

impl RsiKeeper {
    /// Creates a keeper without a period. It holds the neutral index and
    /// takes no price.
    pub fn new() -> (keeper: Self)
        ensures
            keeper@ == RsiModel::new(0),
    {
        RsiKeeper {
            max_len: 0,
            rsi: NEUTRAL,
            prev_rsi: NEUTRAL,
            price_arr: VecDeque::with_capacity(10),
        }
    }

    /// Creates a keeper over windows of `max_len` prices.
    pub fn with_period(max_len: usize) -> (keeper: Self)
        ensures
            keeper@ == RsiModel::new(max_len as nat),
    {
        RsiKeeper {
            max_len,
            rsi: NEUTRAL,
            prev_rsi: NEUTRAL,
            price_arr: VecDeque::with_capacity(max_len),
        }
    }

    /// Takes in a price. Once the window holds two prices, the index becomes
    /// that of the gains and losses across the window, each averaged over the
    /// period.
    pub fn add(&mut self, price: i64)
        requires
            old(self)@.period >= 1,
        ensures
            final(self)@ == old(self)@.add(price),
    {
        push_bounded(&mut self.price_arr, price, self.max_len);

        if self.price_arr.len() < 2 {
            return ;
        }
        let sums: (u128, u128) = change_sums(&self.price_arr, 0);
        proof {
            assert(self.price_arr@.subrange(0, self.price_arr@.len() as int) =~= self.price_arr@);
            lemma_change_sums_bounded(self.price_arr@);
        }
        self.prev_rsi = self.rsi;
        self.rsi = index_of(sums.0, sums.1, self.price_arr.len(), self.max_len);
    }

    /// The index that [`RsiKeeper::add`] would arrive at for `price`,
    /// computed without changing anything.
    pub fn peek_next(&self, price: i64) -> (rsi: i64)
        requires
            self@.period >= 1,
        ensures
            rsi == self@.rsi_with(price),
    {
        let n: usize = self.price_arr.len();
        let start: usize = if n >= self.max_len {
            n - self.max_len + 1
        } else {
            0
        };
        let ghost kept = self.price_arr@.subrange(start as int, n as int);
        assert(kept.push(price) =~= self@.window_with(price));
        if n == start {
            return self.rsi;
        }
        let sums: (u128, u128) = change_sums(&self.price_arr, start);
        proof {
            assert(kept.push(price).drop_last() =~= kept);
            lemma_change_sums_bounded(kept);
            lemma_change_sums_bounded(kept.push(price));
        }
        let change: i128 = price as i128 - self.price_arr[n - 1] as i128;
        let (gain, loss): (u128, u128) = if change > 0 {
            (sums.0 + change as u128, sums.1)
        } else {
            (sums.0, sums.1 + (-change) as u128)
        };
        index_of(gain, loss, n - start + 1, self.max_len)
    }

    /// The index before the last change.
    pub fn get_prev(&self) -> (rsi: i64)
        ensures
            rsi == self@.prev_rsi,
    {
        self.prev_rsi
    }

    /// The current index.
    pub fn get(&self) -> (rsi: i64)
        ensures
            rsi == self@.rsi,
    {
        self.rsi
    }

    /// The number of prices in the window.
    pub fn period(&self) -> (n: usize)
        ensures
            n == self@.period,
    {
        self.max_len
    }
}

/// A sum of at most `period` terms, none above the largest distance,
/// averaged over the period, is not above the largest distance.
proof fn lemma_average_bounded(total: int, n: int, period: int)
    requires
        0 <= total <= n * max_distance(),
        0 <= n <= period,
        period >= 1,
    ensures
        0 <= total / period <= max_distance(),
{
    vstd::arithmetic::div_mod::lemma_fundamental_div_mod(total, period);
    vstd::arithmetic::div_mod::lemma_mod_bound(total, period);
    let q = total / period;
    let m = max_distance();
    assert(0 <= q <= m) by (nonlinear_arith)
        requires
            total == period * q + total % period,
            0 <= total % period < period,
            0 <= total <= n * m,
            0 <= n <= period,
            m >= 0,
    ;
}

} // verus!
