//! Sums, means and extremes of finite series of quantities, as mathematical
//! functions on sequences, with the facts the trackers rely on.

use std::collections::VecDeque;
use vstd::prelude::*;

verus! {

/// The last `capacity` elements of `s`, or all of them if there are fewer.
pub open spec fn tail_of<T>(s: Seq<T>, capacity: nat) -> Seq<T> {
    if s.len() <= capacity {
        s
    } else {
        s.subrange(s.len() - capacity, s.len() as int)
    }
}

/// The time after `clock` on a clock that stops at the last `u64`.
pub open spec fn tick(clock: u64) -> u64 {
    if clock < u64::MAX {
        (clock + 1) as u64
    } else {
        clock
    }
}

/// Appends `value` to the history `arr` and drops the oldest entries beyond
/// `capacity`.
pub fn push_bounded<T>(arr: &mut VecDeque<T>, value: T, capacity: usize)
    ensures
        final(arr)@ == tail_of(old(arr)@.push(value), capacity as nat),
{
    arr.push_back(value);
    let ghost whole = arr@;
    while arr.len() > capacity
        invariant
            arr@.len() <= whole.len(),
            arr@.len() >= capacity || arr@.len() == whole.len(),
            arr@ == whole.subrange(whole.len() - arr@.len(), whole.len() as int),
        decreases arr@.len(),
    {
        arr.pop_front();
    }
    assert(whole.subrange(0, whole.len() as int) =~= whole);
}

/// Advances a clock by one, stopping at the last `u64`.
pub fn next_tick(clock: u64) -> (next: u64)
    ensures
        next == tick(clock),
{
    if clock < u64::MAX {
        clock + 1
    } else {
        clock
    }
}

/// The sum of all elements of `s`.
pub open spec fn seq_sum(s: Seq<i64>) -> int
    decreases s.len(),
{
    if s.len() == 0 {
        0
    } else {
        seq_sum(s.drop_last()) + s.last()
    }
}

/// The arithmetic mean of `s`, rounded down.
pub open spec fn seq_mean(s: Seq<i64>) -> int
    recommends
        s.len() > 0,
{
    seq_sum(s) / (s.len() as int)
}

/// Whether `a` is at least as extreme as `b`: not above it when looking for
/// the low end, not below it when looking for the high end.
pub open spec fn reaches(a: i64, b: i64, low: bool) -> bool {
    if low {
        a <= b
    } else {
        a >= b
    }
}

/// The least (`low`) or greatest element of `s`; zero for the empty series.
pub open spec fn seq_extreme(s: Seq<i64>, low: bool) -> i64
    decreases s.len(),
{
    if s.len() == 0 {
        0
    } else if s.len() == 1 {
        s[0]
    } else {
        let rest = seq_extreme(s.drop_first(), low);
        if reaches(s[0], rest, low) {
            s[0]
        } else {
            rest
        }
    }
}

/// The least element of `s`; zero for the empty series.
pub open spec fn seq_min(s: Seq<i64>) -> i64 {
    seq_extreme(s, true)
}

/// The greatest element of `s`; zero for the empty series.
pub open spec fn seq_max(s: Seq<i64>) -> i64 {
    seq_extreme(s, false)
}

pub proof fn lemma_sum_push(s: Seq<i64>, v: i64)
    ensures
        seq_sum(s.push(v)) == seq_sum(s) + v,
{
    assert(s.push(v).drop_last() =~= s);
}

pub proof fn lemma_sum_drop_first(s: Seq<i64>)
    requires
        s.len() > 0,
    ensures
        seq_sum(s.drop_first()) == seq_sum(s) - s[0],
    decreases s.len(),
{
    if s.len() == 1 {
        assert(s.drop_last() =~= Seq::<i64>::empty());
        assert(s.drop_first() =~= Seq::<i64>::empty());
    } else {
        lemma_sum_drop_first(s.drop_last());
        assert(s.drop_first().drop_last() =~= s.drop_last().drop_first());
    }
}

/// A sum of `n` quantities lies between `n` times the least and `n` times
/// the greatest `i64`.
pub proof fn lemma_sum_bounds(s: Seq<i64>)
    ensures
        s.len() * i64::MIN <= seq_sum(s) <= s.len() * i64::MAX,
    decreases s.len(),
{
    if s.len() > 0 {
        lemma_sum_bounds(s.drop_last());
    }
}

/// The rounded mean of a non-empty series is itself an `i64`, and lies
/// within one unit below the exact mean.
pub proof fn lemma_mean_bounds(s: Seq<i64>)
    requires
        s.len() > 0,
    ensures
        i64::MIN <= seq_mean(s) <= i64::MAX,
        seq_mean(s) * s.len() <= seq_sum(s) < (seq_mean(s) + 1) * s.len(),
{
    lemma_sum_bounds(s);
    let n = s.len() as int;
    let t = seq_sum(s);
    let m = t / n;
    vstd::arithmetic::div_mod::lemma_fundamental_div_mod(t, n);
    vstd::arithmetic::div_mod::lemma_mod_bound(t, n);
    assert(m * n <= t < (m + 1) * n) by (nonlinear_arith)
        requires
            t == n * m + t % n,
            0 <= t % n < n,
    ;
    assert(i64::MIN <= m <= i64::MAX) by (nonlinear_arith)
        requires
            m * n <= t < (m + 1) * n,
            n > 0,
            n * i64::MIN <= t <= n * i64::MAX,
    ;
}

/// The extreme of a non-empty series is one of its elements, and every
/// element is reached by it.
pub proof fn lemma_extreme_is_extreme(s: Seq<i64>, low: bool)
    requires
        s.len() > 0,
    ensures
        s.contains(seq_extreme(s, low)),
        forall|i: int| 0 <= i < s.len() ==> reaches(seq_extreme(s, low), #[trigger] s[i], low),
    decreases s.len(),
{
    if s.len() == 1 {
        assert(s[0] == seq_extreme(s, low));
    } else {
        let t = s.drop_first();
        lemma_extreme_is_extreme(t, low);
        let e = seq_extreme(t, low);
        let k = choose|k: int| 0 <= k < t.len() && t[k] == e;
        assert(s[k + 1] == e);
        assert forall|i: int| 0 <= i < s.len() implies reaches(
            seq_extreme(s, low),
            #[trigger] s[i],
            low,
        ) by {
            if i > 0 {
                assert(t[i - 1] == s[i]);
            }
        }
    }
}

/// The least element is a lower bound that the series attains.
pub proof fn lemma_min_is_minimum(s: Seq<i64>)
    requires
        s.len() > 0,
    ensures
        s.contains(seq_min(s)),
        forall|i: int| 0 <= i < s.len() ==> seq_min(s) <= #[trigger] s[i],
{
    lemma_extreme_is_extreme(s, true);
    assert forall|i: int| 0 <= i < s.len() implies seq_min(s) <= #[trigger] s[i] by {
        assert(reaches(seq_extreme(s, true), s[i], true));
    }
}

/// The greatest element is an upper bound that the series attains.
pub proof fn lemma_max_is_maximum(s: Seq<i64>)
    requires
        s.len() > 0,
    ensures
        s.contains(seq_max(s)),
        forall|i: int| 0 <= i < s.len() ==> seq_max(s) >= #[trigger] s[i],
{
    lemma_extreme_is_extreme(s, false);
    assert forall|i: int| 0 <= i < s.len() implies seq_max(s) >= #[trigger] s[i] by {
        assert(reaches(seq_extreme(s, false), s[i], false));
    }
}

} // verus!
