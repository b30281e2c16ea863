//! A sliding-window arithmetic mean, updated in constant time per sample.

use std::collections::VecDeque;
use vstd::prelude::*;
use crate::fixed::div_floor;
use crate::series::{
    lemma_mean_bounds, lemma_sum_bounds, lemma_sum_drop_first, lemma_sum_push, seq_mean, seq_sum,
    tail_of,
};

verus! {

/// What a [`SmaKeeper`] stands for.
pub struct SmaModel {
    /// The retained samples, oldest first.
    pub window: Seq<i64>,
    /// The most samples the window retains.
    pub capacity: nat,
    /// The current mean; the seed until a sample is accepted.
    pub mean: i64,
    /// The mean just before the last accepted sample.
    pub prev_mean: i64,
    /// The time of the last accepted sample.
    pub last_time: u64,
    /// The least distance in time between two accepted samples.
    pub gap: u64,
}

impl SmaModel {
    /// A fresh tracker.
    pub open spec fn new(capacity: nat, gap: u64, seed: i64) -> SmaModel {
        SmaModel { window: Seq::empty(), capacity, mean: seed, prev_mean: 0, last_time: 0, gap }
    }

    /// The window holds at most `capacity >= 1` samples, and once it holds
    /// any, the mean is theirs.
    pub open spec fn wf(self) -> bool {
        &&& self.capacity >= 1
        &&& self.window.len() <= self.capacity
        &&& self.window.len() > 0 ==> self.mean == seq_mean(self.window)
    }

    /// Whether a sample stamped `t` passes the time gate.
    pub open spec fn accepts(self, t: u64) -> bool {
        t >= self.last_time + self.gap
    }

    /// The window after `v` enters it: the oldest sample leaves once the
    /// capacity is exceeded.
    pub open spec fn slide(self, v: i64) -> Seq<i64> {
        let w = self.window.push(v);
        if w.len() > self.capacity {
            w.drop_first()
        } else {
            w
        }
    }

    /// The mean that a sample `v` would produce, were it accepted.
    pub open spec fn mean_with(self, v: i64) -> int {
        seq_mean(self.slide(v))
    }

    /// The mean that would be read after a sample `v` stamped `t` is
    /// offered.
    pub open spec fn peek(self, t: u64, v: i64) -> i64 {
        if self.accepts(t) {
            self.mean_with(v) as i64
        } else {
            self.mean
        }
    }

    /// The tracker after a sample `v` stamped `t` is offered.
    pub open spec fn add(self, t: u64, v: i64) -> SmaModel {
        if self.accepts(t) {
            SmaModel {
                window: self.slide(v),
                mean: self.mean_with(v) as i64,
                prev_mean: self.mean,
                last_time: t,
                ..self
            }
        } else {
            self
        }
    }

    /// The tracker after the samples `vs`, stamped `ts`, are offered in order.
    pub open spec fn add_all(self, ts: Seq<u64>, vs: Seq<i64>) -> SmaModel
        recommends
            ts.len() == vs.len(),
        decreases vs.len(),
    {
        if vs.len() == 0 {
            self
        } else {
            self.add_all(ts.drop_last(), vs.drop_last()).add(ts.last(), vs.last())
        }
    }

    /// Whether every one of the samples stamped `ts` is accepted, one after another.
    pub open spec fn accepts_all(self, ts: Seq<u64>, vs: Seq<i64>) -> bool
        recommends
            ts.len() == vs.len(),
        decreases vs.len(),
    {
        if vs.len() == 0 {
            true
        } else {
            &&& self.accepts_all(ts.drop_last(), vs.drop_last())
            &&& self.add_all(ts.drop_last(), vs.drop_last()).accepts(ts.last())
        }
    }
}

pub struct SmaKeeper {
    arr: VecDeque<i64>,
    max_len: usize,
    sma: i64,
    prev_sma: i64,
    sum: i128,
    pub prev_timestamp: u64,
    time_gap_ms: u64,
}

impl View for SmaKeeper {
    type V = SmaModel;

    closed spec fn view(&self) -> SmaModel {
        SmaModel {
            window: self.arr@,
            capacity: self.max_len as nat,
            mean: self.sma,
            prev_mean: self.prev_sma,
            last_time: self.prev_timestamp,
            gap: self.time_gap_ms,
        }
    }
}

impl SmaKeeper {
    /// The running sum equals the sum of the window.
    pub closed spec fn sum_in_step(&self) -> bool {
        self.sum == seq_sum(self.arr@)
    }

    pub open spec fn wf(&self) -> bool {
        self@.wf() && self.sum_in_step()
    }

    /// Creates a tracker of the last `max_len` samples that accepts a sample
    /// only `time_gap_ms` after the previous one, and reports `initial_sma`
    /// until the first sample.
    pub fn new(max_len: usize, time_gap_ms: u64, initial_sma: i64) -> (keeper: Self)
        requires
            max_len >= 1,
        ensures
            keeper.wf(),
            keeper@ == SmaModel::new(max_len as nat, time_gap_ms, initial_sma),
    {
        SmaKeeper {
            arr: VecDeque::new(),
            max_len,
            sma: initial_sma,
            prev_sma: 0,
            sum: 0,
            prev_timestamp: 0,
            time_gap_ms,
        }
    }

    /// The number of retained samples.
    pub fn size(&self) -> (n: usize)
        ensures
            n == self@.window.len(),
    {
        self.arr.len()
    }

    /// Whether the window holds as many samples as it can.
    pub fn is_full(&self) -> (full: bool)
        ensures
            full == (self@.window.len() == self@.capacity),
    {
        self.arr.len() == self.max_len
    }

    /// Offers a sample. One that comes sooner than the gap after the last
    /// accepted one changes nothing; any other enters the window, pushing out
    /// the oldest sample of a full window. Returns the mean afterwards.
    pub fn add(&mut self, timestamp: u64, value: i64) -> (mean: i64)
        requires
            old(self).wf(),
        ensures
            final(self).wf(),
            final(self)@ == old(self)@.add(timestamp, value),
            mean == final(self)@.mean,
    {
        if (timestamp as u128) < self.prev_timestamp as u128 + self.time_gap_ms as u128 {
            return self.sma;
        }
        self.prev_timestamp = timestamp;

        proof {
            lemma_sum_push(self.arr@, value);
            lemma_sum_bounds(self.arr@);
            lemma_sum_bounds(self.arr@.push(value));
        }
        self.arr.push_back(value);
        self.sum = self.sum + value as i128;

        while self.arr.len() > self.max_len
            invariant
                self.sum == seq_sum(self.arr@),
                self.max_len >= 1,
                old(self)@.window.len() <= self.max_len,
                old(self)@.capacity == self.max_len,
                self.arr@.len() <= self.max_len + 1,
                self.arr@ == old(self)@.window.push(value) || self.arr@ == old(self)@.slide(value),
                self.arr@.len() <= self.max_len ==> self.arr@ == old(self)@.slide(value),
                self.max_len == old(self).max_len,
                self.sma == old(self).sma,
                self.prev_sma == old(self).prev_sma,
                self.time_gap_ms == old(self).time_gap_ms,
                self.prev_timestamp == timestamp,
            decreases self.arr@.len(),
        {
            proof {
                lemma_sum_drop_first(self.arr@);
                lemma_sum_bounds(self.arr@.drop_first());
            }
            if let Some(remove) = self.arr.pop_front() {
                self.sum = self.sum - remove as i128;
            }
        }

        self.prev_sma = self.sma;
        proof {
            lemma_mean_bounds(self.arr@);
        }
        self.sma = div_floor(self.sum, self.arr.len() as i128) as i64;
        self.sma
    }

    /// The mean that [`SmaKeeper::add`] would return for this sample,
    /// computed without changing anything.
    pub fn peek_next(&self, timestamp: u64, value: i64) -> (mean: i64)
        requires
            self.wf(),
        ensures
            mean == self@.peek(timestamp, value),
    {
        if (timestamp as u128) < self.prev_timestamp as u128 + self.time_gap_ms as u128 {
            return self.sma;
        }
        let len: usize = self.arr.len();
        let ghost pushed = self.arr@.push(value);
        proof {
            lemma_sum_push(self.arr@, value);
            lemma_sum_bounds(self.arr@);
            lemma_sum_bounds(pushed);
            lemma_mean_bounds(self@.slide(value));
        }
        if len == self.max_len {
            proof {
                lemma_sum_drop_first(pushed);
                lemma_sum_bounds(pushed.drop_first());
            }
            div_floor(self.sum + value as i128 - self.arr[0] as i128, len as i128) as i64
        } else {
            div_floor(self.sum + value as i128, len as i128 + 1) as i64
        }
    }

    /// The current mean.
    pub fn get(&self) -> (mean: i64)
        ensures
            mean == self@.mean,
    {
        self.sma
    }

    /// The mean just before the last accepted sample.
    pub fn get_prev(&self) -> (mean: i64)
        ensures
            mean == self@.prev_mean,
    {
        self.prev_sma
    }
}

/// Starting from a fresh tracker, once samples have been accepted one after
/// another, the window holds the latest `capacity` of them, or all if there are
/// fewer, and the mean is the mean of exactly those.
pub proof fn law_window_holds_latest_samples(
    capacity: nat,
    gap: u64,
    seed: i64,
    ts: Seq<u64>,
    vs: Seq<i64>,
)
    requires
        capacity >= 1,
        ts.len() == vs.len(),
        SmaModel::new(capacity, gap, seed).accepts_all(ts, vs),
    ensures
        SmaModel::new(capacity, gap, seed).add_all(ts, vs).wf(),
        SmaModel::new(capacity, gap, seed).add_all(ts, vs).capacity == capacity,
        SmaModel::new(capacity, gap, seed).add_all(ts, vs).window == tail_of(vs, capacity),
        vs.len() > 0 ==> SmaModel::new(capacity, gap, seed).add_all(ts, vs).mean == seq_mean(
            tail_of(vs, capacity),
        ),
    decreases vs.len(),
{
    let fresh = SmaModel::new(capacity, gap, seed);
    if vs.len() > 0 {
        law_window_holds_latest_samples(capacity, gap, seed, ts.drop_last(), vs.drop_last());
        let before = fresh.add_all(ts.drop_last(), vs.drop_last());
        let after = before.add(ts.last(), vs.last());
        assert(after.window =~= tail_of(vs, capacity));
        lemma_mean_bounds(after.window);
    }
}

/// While no more samples have been accepted than the window can hold, the
/// mean is the arithmetic mean of all of them.
pub proof fn law_mean_of_all_samples(
    capacity: nat,
    gap: u64,
    seed: i64,
    ts: Seq<u64>,
    vs: Seq<i64>,
)
    requires
        capacity >= 1,
        ts.len() == vs.len(),
        0 < vs.len() <= capacity,
        SmaModel::new(capacity, gap, seed).accepts_all(ts, vs),
    ensures
        SmaModel::new(capacity, gap, seed).add_all(ts, vs).mean == seq_sum(vs) / (vs.len() as int),
{
    law_window_holds_latest_samples(capacity, gap, seed, ts, vs);
}

/// After `capacity + k` accepted samples, `k > 0`, the mean is the arithmetic
/// mean of the latest `capacity` samples alone.
pub proof fn law_mean_after_eviction(
    capacity: nat,
    gap: u64,
    seed: i64,
    ts: Seq<u64>,
    vs: Seq<i64>,
)
    requires
        capacity >= 1,
        ts.len() == vs.len(),
        vs.len() > capacity,
        SmaModel::new(capacity, gap, seed).accepts_all(ts, vs),
    ensures
        SmaModel::new(capacity, gap, seed).add_all(ts, vs).window == vs.subrange(
            vs.len() - capacity,
            vs.len() as int,
        ),
        SmaModel::new(capacity, gap, seed).add_all(ts, vs).mean == seq_sum(
            vs.subrange(vs.len() - capacity, vs.len() as int),
        ) / (capacity as int),
{
    law_window_holds_latest_samples(capacity, gap, seed, ts, vs);
}

/// What [`SmaKeeper::peek_next`] gives for a sample is the mean that
/// [`SmaKeeper::add`] arrives at for it.
pub proof fn law_peek_agrees_with_add(m: SmaModel, t: u64, v: i64)
    ensures
        m.add(t, v).mean == m.peek(t, v),
{
}

/// Offering a second sample stamped no later than the first changes nothing,
/// unless the gap is zero and the two stamps are equal and accepted.
pub proof fn law_repeated_time_is_ignored(m: SmaModel, t1: u64, v1: i64, t2: u64, v2: i64)
    requires
        t2 <= t1,
        m.gap > 0 || t2 < t1 || !m.accepts(t1),
    ensures
        m.add(t1, v1).add(t2, v2) == m.add(t1, v1),
{
}

} // verus!
