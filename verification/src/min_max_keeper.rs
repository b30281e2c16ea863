//! A rolling minimum and maximum over a window that tightens when the series
//! is volatile and stretches when it is flat.
//!
//! Beside the window itself the tracker keeps two monotone sequences, the
//! candidates for the minimum and for the maximum, so that both extremes are
//! read in constant time and each sample is pushed and popped at most once.

use std::collections::VecDeque;
use vstd::prelude::*;
use crate::error::KeeperError;
use crate::fixed::{div_floor, SCALE};
use crate::candidates::{
    candidates, cut_back, lemma_candidates_evict, lemma_candidates_front, lemma_candidates_push,
    lemma_extreme_push, lemma_window_step,
};
use crate::series::{seq_max, seq_min};

verus! {

/// The time that must pass after an accepted sample before
/// [`MinMaxKeeper::add_per_second`] accepts the next, unless another is set:
/// a second, in milliseconds.
pub const THROTTLE_MS: u64 = 1000;

/// How many times its capacity the window may hold before it is cut
/// regardless of its spread.
pub const CEILING_FACTOR: usize = 10;

/// Whether the spread `hi - lo`, taken relative to `lo`, is above `target`.
/// Relative to zero a positive spread is above every target and no other
/// spread is above any.
pub open spec fn range_exceeds(lo: int, hi: int, target: int) -> bool {
    if lo > 0 {
        (hi - lo) * SCALE > target * lo
    } else if lo < 0 {
        (hi - lo) * SCALE < target * lo
    } else {
        hi > 0
    }
}

/// Whether a window of `len` samples between `lo` and `hi` is over its
/// limits: it is not empty, and it has reached ten times the capacity, or has
/// reached the capacity while its spread is above the target.
pub open spec fn over_limits(len: nat, lo: i64, hi: i64, capacity: nat, target: i64) -> bool {
    &&& len > 0
    &&& (len >= CEILING_FACTOR * capacity || (len >= capacity && range_exceeds(
        lo as int,
        hi as int,
        target as int,
    )))
}

/// Whether the oldest sample of the window `s` has to leave before another
/// enters: the window is over its limits.
pub open spec fn must_evict(s: Seq<i64>, capacity: nat, target: i64) -> bool {
    over_limits(s.len(), seq_min(s), seq_max(s), capacity, target)
}

/// The window `s` after the oldest samples have left, one by one, for as long
/// as one has to.
pub open spec fn trim(s: Seq<i64>, capacity: nat, target: i64) -> Seq<i64>
    decreases s.len(),
{
    if must_evict(s, capacity, target) {
        trim(s.drop_first(), capacity, target)
    } else {
        s
    }
}

/// Whether `value` lies below the first of the minimum candidates `lows` or
/// above the first of the maximum candidates `highs`.
pub open spec fn is_outside(lows: Seq<i64>, highs: Seq<i64>, value: i64) -> bool {
    (lows.len() > 0 && value < lows[0]) || (highs.len() > 0 && value > highs[0])
}

/// The candidates `t` once `value` has left the window: without their first,
/// if `value` is that first.
pub open spec fn without_head(t: Seq<i64>, value: i64) -> Seq<i64> {
    if t.len() > 0 && value == t[0] {
        t.drop_first()
    } else {
        t
    }
}

/// Whether a window of `len` samples between `lo` and `hi` is over its
/// limits.
fn is_over_limits(len: u128, lo: i64, hi: i64, capacity: usize, target: i64) -> (over: bool)
    ensures
        over == over_limits(len as nat, lo, hi, capacity as nat, target),
{
    if len == 0 {
        return false;
    }
    if len >= capacity as u128 * 10 {
        return true;
    }
    if len < capacity as u128 {
        return false;
    }
    let lo: i128 = lo as i128;
    let hi: i128 = hi as i128;
    let target: i128 = target as i128;
    assert((hi - lo) * SCALE == (hi - lo) * 1_000_000);
    assert(-0x4000_0000_0000_0000_0000_0000_0000_0000 <= target * lo
        <= 0x4000_0000_0000_0000_0000_0000_0000_0000) by (nonlinear_arith)
        requires
            -0x8000_0000_0000_0000 <= target <= 0x8000_0000_0000_0000,
            -0x8000_0000_0000_0000 <= lo <= 0x8000_0000_0000_0000,
    ;
    if lo > 0 {
        (hi - lo) * (SCALE as i128) > target * lo
    } else if lo < 0 {
        (hi - lo) * (SCALE as i128) < target * lo
    } else {
        hi > 0
    }
}

/// What a [`MinMaxKeeper`] stands for.
pub struct MinMaxModel {
    /// The retained samples, oldest first.
    pub window: Seq<i64>,
    /// The length from which on the window is cut when its spread is above
    /// the target; zero means that the tracker takes no samples.
    pub capacity: nat,
    /// The largest spread, relative to the minimum, with which a window at
    /// capacity is left alone.
    pub target_range: i64,
    /// The time of the last sample accepted by the throttled insertion.
    pub last_time: u64,
    /// The time that must pass after an accepted sample before the throttled
    /// insertion accepts the next.
    pub throttle: u64,
}

impl MinMaxModel {
    /// A tracker that takes no samples until it is given a capacity.
    pub open spec fn new() -> MinMaxModel {
        MinMaxModel {
            window: Seq::empty(),
            capacity: 0,
            target_range: 100,
            last_time: 0,
            throttle: THROTTLE_MS,
        }
    }

    /// An empty tracker.
    pub open spec fn with_capacity(capacity: nat, target_range: i64) -> MinMaxModel {
        MinMaxModel {
            window: Seq::empty(),
            capacity,
            target_range,
            last_time: 0,
            throttle: THROTTLE_MS,
        }
    }

    /// The least sample in the window; zero if there is none.
    pub open spec fn min(self) -> i64 {
        seq_min(self.window)
    }

    /// The greatest sample in the window; zero if there is none.
    pub open spec fn max(self) -> i64 {
        seq_max(self.window)
    }

    /// The tracker after `v` has entered: first the oldest samples leave for
    /// as long as one has to, then `v` joins the rest.
    pub open spec fn insert(self, v: i64) -> MinMaxModel {
        MinMaxModel { window: trim(self.window, self.capacity, self.target_range).push(v), ..self }
    }

    /// The least and the greatest sample that the window would hold once
    /// `v` had entered it.
    pub open spec fn peek(self, v: i64) -> (i64, i64) {
        let kept = trim(self.window, self.capacity, self.target_range);
        if kept.len() == 0 {
            (v, v)
        } else {
            (
                if v < seq_min(kept) {
                    v
                } else {
                    seq_min(kept)
                },
                if v > seq_max(kept) {
                    v
                } else {
                    seq_max(kept)
                },
            )
        }
    }

    /// Whether a sample stamped `t` is far enough from the last accepted one.
    pub open spec fn accepts(self, t: u64) -> bool {
        t > self.last_time + self.throttle
    }

    /// The tracker after `v`, stamped `t`, has been offered to the throttled
    /// insertion.
    pub open spec fn insert_throttled(self, t: u64, v: i64) -> MinMaxModel {
        if self.accepts(t) {
            MinMaxModel { last_time: t, ..self.insert(v) }
        } else {
            self
        }
    }
}

pub struct MinMaxKeeper {
    values_arr: VecDeque<i64>,
    max_arr: VecDeque<i64>,
    min_arr: VecDeque<i64>,
    max_len: usize,
    target_range: i64,
    last_ts: u64,
    throttle_ms: u64,
}

/// A place in the window and in the two candidate sequences, from which on
/// the samples are looked at while those before are taken to have left.
#[derive(Clone, Copy)]
struct Cursor {
    gone: usize,
    low_at: usize,
    high_at: usize,
}

impl View for MinMaxKeeper {
    type V = MinMaxModel;

    closed spec fn view(&self) -> MinMaxModel {
        MinMaxModel {
            window: self.values_arr@,
            capacity: self.max_len as nat,
            target_range: self.target_range,
            last_time: self.last_ts,
            throttle: self.throttle_ms,
        }
    }
}

impl MinMaxKeeper {
    /// The two auxiliary sequences hold exactly the candidates of the window.
    pub closed spec fn wf(&self) -> bool {
        &&& self.min_arr@ == candidates(self.values_arr@, true)
        &&& self.max_arr@ == candidates(self.values_arr@, false)
    }

    /// Creates a tracker of capacity zero, which refuses every sample until
    /// [`MinMaxKeeper::set_max_len`] gives it a capacity.
    pub fn new() -> (keeper: Self)
        ensures
            keeper.wf(),
            keeper@ == MinMaxModel::new(),
    {
        MinMaxKeeper {
            values_arr: VecDeque::new(),
            max_arr: VecDeque::new(),
            min_arr: VecDeque::new(),
            max_len: 0,
            target_range: 100,
            last_ts: 0,
            throttle_ms: THROTTLE_MS,
        }
    }

    /// Creates an empty tracker with the given capacity and target range.
    pub fn with_capacity(period: usize, target_range: i64) -> (keeper: Self)
        ensures
            keeper.wf(),
            keeper@ == MinMaxModel::with_capacity(period as nat, target_range),
    {
        let mut keeper = MinMaxKeeper {
            values_arr: VecDeque::new(),
            max_arr: VecDeque::new(),
            min_arr: VecDeque::new(),
            max_len: period,
            target_range,
            last_ts: 0,
            throttle_ms: THROTTLE_MS,
        };
        keeper.set_max_len(period);
        keeper
    }

    /// Enters `value` at the back of both candidate sequences, after taking
    /// from the back of each the candidates that it beats.
    fn add_tail(&mut self, value: i64)
        ensures
            final(self).min_arr@ == cut_back(old(self).min_arr@, value, true).push(value),
            final(self).max_arr@ == cut_back(old(self).max_arr@, value, false).push(value),
            final(self).values_arr == old(self).values_arr,
            final(self).max_len == old(self).max_len,
            final(self).target_range == old(self).target_range,
            final(self).last_ts == old(self).last_ts,
            final(self).throttle_ms == old(self).throttle_ms,
    {
        while self.min_arr.len() > 0 && value < self.min_arr[self.min_arr.len() - 1]
            invariant
                cut_back(self.min_arr@, value, true) == cut_back(old(self).min_arr@, value, true),
                self.max_arr == old(self).max_arr,
                self.values_arr == old(self).values_arr,
                self.max_len == old(self).max_len,
                self.target_range == old(self).target_range,
                self.last_ts == old(self).last_ts,
                self.throttle_ms == old(self).throttle_ms,
            decreases self.min_arr@.len(),
        {
            self.min_arr.pop_back();
        }
        self.min_arr.push_back(value);

        while self.max_arr.len() > 0 && value > self.max_arr[self.max_arr.len() - 1]
            invariant
                cut_back(self.max_arr@, value, false) == cut_back(old(self).max_arr@, value, false),
                self.min_arr@ == cut_back(old(self).min_arr@, value, true).push(value),
                self.values_arr == old(self).values_arr,
                self.max_len == old(self).max_len,
                self.target_range == old(self).target_range,
                self.last_ts == old(self).last_ts,
                self.throttle_ms == old(self).throttle_ms,
            decreases self.max_arr@.len(),
        {
            self.max_arr.pop_back();
        }
        self.max_arr.push_back(value);
    }

    /// Takes `value`, which is leaving the window, from the front of each
    /// candidate sequence that it heads. A value below the first minimum
    /// candidate or above the first maximum candidate cannot have been in the
    /// window: that is reported, and nothing is changed.
    fn remove_head(&mut self, value: i64) -> (res: Result<(), KeeperError>)
        ensures
            res is Err <==> is_outside(old(self).min_arr@, old(self).max_arr@, value),
            res is Err ==> res == Err::<(), KeeperError>(KeeperError::InvariantViolated),
            res is Err ==> *final(self) == *old(self),
            res is Ok ==> final(self).min_arr@ == without_head(old(self).min_arr@, value),
            res is Ok ==> final(self).max_arr@ == without_head(old(self).max_arr@, value),
            final(self).values_arr == old(self).values_arr,
            final(self).max_len == old(self).max_len,
            final(self).target_range == old(self).target_range,
            final(self).last_ts == old(self).last_ts,
            final(self).throttle_ms == old(self).throttle_ms,
    {
        if self.min_arr.len() > 0 && value < self.min_arr[0] {
            return Err(KeeperError::InvariantViolated);
        }
        if self.max_arr.len() > 0 && value > self.max_arr[0] {
            return Err(KeeperError::InvariantViolated);
        }
        if self.min_arr.len() > 0 && value == self.min_arr[0] {
            self.min_arr.pop_front();
        }
        if self.max_arr.len() > 0 && value == self.max_arr[0] {
            self.max_arr.pop_front();
        }
        Ok(())
    }

    /// Whether the oldest sample has to leave before another enters.
    fn must_trim(&self) -> (yes: bool)
        requires
            self.wf(),
        ensures
            yes == must_evict(self@.window, self@.capacity, self@.target_range),
    {
        is_over_limits(
            self.values_arr.len() as u128,
            self.get_min(),
            self.get_max(),
            self.max_len,
            self.target_range,
        )
    }

    /// Lets the oldest samples leave for as long as one has to, then enters
    /// `value`.
    fn insert(&mut self, value: i64) -> (res: Result<(), KeeperError>)
        requires
            old(self).wf(),
        ensures
            final(self).wf(),
            res is Ok,
            final(self)@ == old(self)@.insert(value),
    {
        while self.must_trim()
            invariant
                self.wf(),
                self.max_len == old(self).max_len,
                self.target_range == old(self).target_range,
                self.last_ts == old(self).last_ts,
                self.throttle_ms == old(self).throttle_ms,
                trim(self.values_arr@, self.max_len as nat, self.target_range) == trim(
                    old(self).values_arr@,
                    old(self).max_len as nat,
                    old(self).target_range,
                ),
            decreases self.values_arr@.len(),
        {
            let head: i64 = self.values_arr[0];
            proof {
                lemma_candidates_evict(self.values_arr@, true);
                lemma_candidates_evict(self.values_arr@, false);
            }
            match self.remove_head(head) {
                Err(e) => {
                    return Err(e);
                },
                Ok(()) => {},
            }
            self.values_arr.pop_front();
        }
        proof {
            lemma_candidates_push(self.values_arr@, value, true);
            lemma_candidates_push(self.values_arr@, value, false);
        }
        self.add_tail(value);
        self.values_arr.push_back(value);
        Ok(())
    }

    /// Offers `value` with its time in milliseconds. It is entered, as by
    /// [`MinMaxKeeper::add`], only if more than the throttle, at first
    /// [`THROTTLE_MS`], has passed since the last sample entered this way;
    /// otherwise nothing changes.
    /// A tracker of capacity zero refuses every sample.
    pub fn add_per_second(
        &mut self,
        timestamp_ms: u64,
        value: i64,
    ) -> (res: Result<(), KeeperError>)
        requires
            old(self).wf(),
        ensures
            final(self).wf(),
            old(self)@.capacity == 0 ==> res == Err::<(), KeeperError>(KeeperError::NotConfigured)
                && final(self)@ == old(self)@,
            old(self)@.capacity > 0 ==> res is Ok && final(self)@ == old(self)@.insert_throttled(
                timestamp_ms,
                value,
            ),
    {
        if self.max_len == 0 {
            return Err(KeeperError::NotConfigured);
        }
        if timestamp_ms as u128 > self.last_ts as u128 + self.throttle_ms as u128 {
            self.last_ts = timestamp_ms;
            return self.insert(value);
        }
        Ok(())
    }

    /// Enters `value`: first the oldest samples leave, for as long as the
    /// window holds ten times the capacity, or holds the capacity and spreads
    /// wider than the target range; then `value` joins the rest.
    /// A tracker of capacity zero refuses every sample.
    pub fn add(&mut self, value: i64) -> (res: Result<(), KeeperError>)
        requires
            old(self).wf(),
        ensures
            final(self).wf(),
            old(self)@.capacity == 0 ==> res == Err::<(), KeeperError>(KeeperError::NotConfigured)
                && final(self)@ == old(self)@,
            old(self)@.capacity > 0 ==> res is Ok && final(self)@ == old(self)@.insert(value),
    {
        if self.max_len == 0 {
            return Err(KeeperError::NotConfigured);
        }
        self.insert(value)
    }

    /// Whether the cursor `c` points into the window and the two candidate
    /// sequences consistently: the candidates from its marks on are those of
    /// the window from its mark on.
    spec fn cursor_ok(&self, c: Cursor) -> bool {
        &&& c.gone <= self.values_arr@.len()
        &&& c.low_at <= self.min_arr@.len()
        &&& c.high_at <= self.max_arr@.len()
        &&& self.min_arr@.subrange(c.low_at as int, self.min_arr@.len() as int) == candidates(
            self.values_arr@.subrange(c.gone as int, self.values_arr@.len() as int),
            true,
        )
        &&& self.max_arr@.subrange(c.high_at as int, self.max_arr@.len() as int) == candidates(
            self.values_arr@.subrange(c.gone as int, self.values_arr@.len() as int),
            false,
        )
    }

    /// The window as seen from the cursor `c`: without the samples before
    /// its mark, and with `tail`, if any, at the end.
    spec fn seen_from(&self, c: Cursor, tail: Option<i64>) -> Seq<i64> {
        let kept = self.values_arr@.subrange(c.gone as int, self.values_arr@.len() as int);
        match tail {
            Some(v) => kept.push(v),
            None => kept,
        }
    }

    /// The least and the greatest sample of the window as seen from `c`, if
    /// it holds any.
    fn extremes_from(&self, c: Cursor, tail: Option<i64>) -> (extremes: Option<(i64, i64)>)
        requires
            self.cursor_ok(c),
        ensures
            self.seen_from(c, tail).len() == 0 ==> extremes is None,
            self.seen_from(c, tail).len() > 0 ==> extremes == Some(
                (seq_min(self.seen_from(c, tail)), seq_max(self.seen_from(c, tail))),
            ),
    {
        let ghost kept = self.seen_from(c, None);
        proof {
            if tail is Some {
                lemma_extreme_push(kept, tail->Some_0, true);
                lemma_extreme_push(kept, tail->Some_0, false);
            }
        }
        if c.gone < self.values_arr.len() {
            proof {
                lemma_window_step(
                    self.values_arr@,
                    self.min_arr@,
                    c.gone as int,
                    c.low_at as int,
                    true,
                );
                lemma_window_step(
                    self.values_arr@,
                    self.max_arr@,
                    c.gone as int,
                    c.high_at as int,
                    false,
                );
            }
            let lo: i64 = self.min_arr[c.low_at];
            let hi: i64 = self.max_arr[c.high_at];
            match tail {
                None => Some((lo, hi)),
                Some(v) => Some((
                    if v < lo {
                        v
                    } else {
                        lo
                    },
                    if v > hi {
                        v
                    } else {
                        hi
                    },
                )),
            }
        } else {
            match tail {
                None => None,
                Some(v) => Some((v, v)),
            }
        }
    }

    /// Moves the cursor past the samples that would have to leave the window
    /// as seen from `from` before another could enter, and drops `tail` if
    /// it would have to leave as well.
    fn settle(&self, from: Cursor, tail: Option<i64>) -> (at: (Cursor, Option<i64>))
        requires
            self.cursor_ok(from),
        ensures
            self.cursor_ok(at.0),
            at.1 is None || at.1 == tail,
            self.seen_from(at.0, at.1) == trim(
                self.seen_from(from, tail),
                self.max_len as nat,
                self.target_range,
            ),
    {
        let n: usize = self.values_arr.len();
        let lows: usize = self.min_arr.len();
        let highs: usize = self.max_arr.len();
        let mut c = from;
        let mut rest = tail;
        loop
            invariant
                n == self.values_arr@.len(),
                lows == self.min_arr@.len(),
                highs == self.max_arr@.len(),
                rest is None || rest == tail,
                self.cursor_ok(c),
                trim(self.seen_from(c, rest), self.max_len as nat, self.target_range) == trim(
                    self.seen_from(from, tail),
                    self.max_len as nat,
                    self.target_range,
                ),
            ensures
                self.cursor_ok(c),
                rest is None || rest == tail,
                self.seen_from(c, rest) == trim(
                    self.seen_from(from, tail),
                    self.max_len as nat,
                    self.target_range,
                ),
            decreases
                    n - c.gone + (if rest is Some {
                        1int
                    } else {
                        0int
                    }),
        {
            let len: u128 = (n - c.gone) as u128 + (if rest.is_some() {
                1u128
            } else {
                0u128
            });
            match self.extremes_from(c, rest) {
                None => {
                    break ;
                },
                Some((lo, hi)) => {
                    if !is_over_limits(len, lo, hi, self.max_len, self.target_range) {
                        break ;
                    }
                },
            }
            let ghost seen = self.seen_from(c, rest);
            if c.gone < n {
                proof {
                    lemma_window_step(
                        self.values_arr@,
                        self.min_arr@,
                        c.gone as int,
                        c.low_at as int,
                        true,
                    );
                    lemma_window_step(
                        self.values_arr@,
                        self.max_arr@,
                        c.gone as int,
                        c.high_at as int,
                        false,
                    );
                }
                let head: i64 = self.values_arr[c.gone];
                let next = Cursor {
                    gone: c.gone + 1,
                    low_at: if head == self.min_arr[c.low_at] {
                        c.low_at + 1
                    } else {
                        c.low_at
                    },
                    high_at: if head == self.max_arr[c.high_at] {
                        c.high_at + 1
                    } else {
                        c.high_at
                    },
                };
                assert(seen.drop_first() =~= self.seen_from(next, rest));
                c = next;
            } else {
                assert(seen.drop_first() =~= self.seen_from(c, None));
                rest = None;
            }
        }
        (c, rest)
    }

    /// The cursor at the oldest sample of the window.
    fn origin(&self) -> (c: Cursor)
        requires
            self.wf(),
        ensures
            self.cursor_ok(c),
            self.seen_from(c, None) == self@.window,
    {
        proof {
            let n = self.values_arr@.len() as int;
            assert(self.values_arr@.subrange(0, n) =~= self.values_arr@);
            assert(self.min_arr@.subrange(0, self.min_arr@.len() as int) =~= self.min_arr@);
            assert(self.max_arr@.subrange(0, self.max_arr@.len() as int) =~= self.max_arr@);
        }
        Cursor { gone: 0, low_at: 0, high_at: 0 }
    }

    /// The least and the greatest sample that the window would hold once
    /// `value` had entered it, found without changing anything; nothing for a
    /// tracker of capacity zero.
    pub fn peek_next(&self, value: i64) -> (extremes: Option<(i64, i64)>)
        requires
            self.wf(),
        ensures
            self@.capacity == 0 ==> extremes is None,
            self@.capacity > 0 ==> extremes == Some(self@.peek(value)),
    {
        if self.max_len == 0 {
            return None;
        }
        let from = self.origin();
        let at = self.settle(from, None);
        proof {
            law_peek_agrees_with_add(self@, value);
        }
        self.extremes_from(at.0, Some(value))
    }

    /// The least and the greatest sample that the window would hold once
    /// `first` and then `second` had entered it, found without changing
    /// anything; nothing for a tracker of capacity zero.
    pub fn peek_pair(&self, first: i64, second: i64) -> (extremes: Option<(i64, i64)>)
        requires
            self.wf(),
        ensures
            self@.capacity == 0 ==> extremes is None,
            self@.capacity > 0 ==> extremes == Some(self@.insert(first).peek(second)),
    {
        if self.max_len == 0 {
            return None;
        }
        let from = self.origin();
        let once = self.settle(from, None);
        let twice = self.settle(once.0, Some(first));
        match self.extremes_from(twice.0, twice.1) {
            None => Some((second, second)),
            Some((lo, hi)) => Some((
                if second < lo {
                    second
                } else {
                    lo
                },
                if second > hi {
                    second
                } else {
                    hi
                },
            )),
        }
    }

    /// The number of samples in the window.
    pub fn get_len(&self) -> (n: usize)
        ensures
            n == self@.window.len(),
    {
        self.values_arr.len()
    }

    /// The greatest sample in the window; zero if the window is empty.
    pub fn get_max(&self) -> (hi: i64)
        requires
            self.wf(),
        ensures
            hi == self@.max(),
            hi == seq_max(self@.window),
    {
        proof {
            if self.values_arr@.len() > 0 {
                lemma_candidates_front(self.values_arr@, false);
            }
        }
        if self.max_arr.len() > 0 {
            self.max_arr[0]
        } else {
            0
        }
    }

    /// The least sample in the window; zero if the window is empty.
    pub fn get_min(&self) -> (lo: i64)
        requires
            self.wf(),
        ensures
            lo == self@.min(),
            lo == seq_min(self@.window),
    {
        proof {
            if self.values_arr@.len() > 0 {
                lemma_candidates_front(self.values_arr@, true);
            }
        }
        if self.min_arr.len() > 0 {
            self.min_arr[0]
        } else {
            0
        }
    }

    /// The point halfway between the least and the greatest sample, rounded
    /// down.
    pub fn get_mid(&self) -> (mid: i64)
        requires
            self.wf(),
        ensures
            mid == (self@.max() + self@.min()) / 2,
    {
        let total: i128 = self.get_max() as i128 + self.get_min() as i128;
        div_floor(total, 2) as i64
    }

    /// The capacity.
    pub fn get_max_len(&self) -> (n: usize)
        ensures
            n == self@.capacity,
    {
        self.max_len
    }

    /// The greatest sample in the window; zero if the window is empty.
    pub fn get_now_max(&self) -> (hi: i64)
        requires
            self.wf(),
        ensures
            hi == self@.max(),
    {
        self.get_max()
    }

    /// The least sample in the window; zero if the window is empty.
    pub fn get_now_min(&self) -> (lo: i64)
        requires
            self.wf(),
        ensures
            lo == self@.min(),
    {
        self.get_min()
    }

    /// Sets the capacity. The window is left as it is; it is cut to the new
    /// capacity as samples enter.
    pub fn set_max_len(&mut self, max_len: usize)
        requires
            old(self).wf(),
        ensures
            final(self).wf(),
            final(self)@ == (MinMaxModel { capacity: max_len as nat, ..old(self)@ }),
    {
        self.max_len = max_len;
    }

    /// Sets the target range.
    pub fn set_target_range(&mut self, target_range: i64)
        requires
            old(self).wf(),
        ensures
            final(self).wf(),
            final(self)@ == (MinMaxModel { target_range, ..old(self)@ }),
    {
        self.target_range = target_range;
    }

    /// Sets the time that must pass between two samples that the throttled
    /// insertion accepts.
    pub fn set_throttle_ms(&mut self, throttle_ms: u64)
        requires
            old(self).wf(),
        ensures
            final(self).wf(),
            final(self)@ == (MinMaxModel { throttle: throttle_ms, ..old(self)@ }),
    {
        self.throttle_ms = throttle_ms;
    }

    /// Whether the window holds at least as many samples as the capacity.
    pub fn is_full(&self) -> (full: bool)
        ensures
            full == (self@.window.len() >= self@.capacity),
    {
        self.values_arr.len() >= self.max_len
    }
}

/// What is left after trimming is the newest part of the window, and none of
/// it has to leave.
pub proof fn lemma_trim_keeps_newest(s: Seq<i64>, capacity: nat, target: i64)
    ensures
        trim(s, capacity, target).len() <= s.len(),
        trim(s, capacity, target) == s.subrange(
            s.len() - trim(s, capacity, target).len(),
            s.len() as int,
        ),
        !must_evict(trim(s, capacity, target), capacity, target),
    decreases s.len(),
{
    if must_evict(s, capacity, target) {
        let t = s.drop_first();
        lemma_trim_keeps_newest(t, capacity, target);
        let k = trim(t, capacity, target);
        assert(t.subrange(t.len() - k.len(), t.len() as int) =~= s.subrange(
            s.len() - k.len(),
            s.len() as int,
        ));
    } else {
        assert(s.subrange(0, s.len() as int) =~= s);
    }
}

/// Whatever the window holds, the reported minimum is a sample of it that no
/// sample is below, and the reported maximum one that no sample is above.
pub proof fn law_extremes_are_exact(m: MinMaxModel)
    requires
        m.window.len() > 0,
    ensures
        m.window.contains(m.min()),
        m.window.contains(m.max()),
        forall|i: int| 0 <= i < m.window.len() ==> m.min() <= #[trigger] m.window[i] <= m.max(),
{
    crate::series::lemma_min_is_minimum(m.window);
    crate::series::lemma_max_is_maximum(m.window);
}

/// What [`MinMaxKeeper::peek_next`] gives for a sample are the extremes
/// that [`MinMaxKeeper::add`] arrives at for it.
pub proof fn law_peek_agrees_with_add(m: MinMaxModel, v: i64)
    ensures
        m.insert(v).min() == m.peek(v).0,
        m.insert(v).max() == m.peek(v).1,
{
    let kept = trim(m.window, m.capacity, m.target_range);
    lemma_extreme_push(kept, v, true);
    lemma_extreme_push(kept, v, false);
}

/// A window that has reached the capacity and spreads wider than the target
/// range shrinks before the next sample enters: what stays is strictly
/// shorter, and is below the capacity or within the target range.
pub proof fn law_volatile_window_shrinks(m: MinMaxModel, v: i64)
    requires
        m.capacity >= 1,
        m.window.len() >= m.capacity,
        range_exceeds(m.min() as int, m.max() as int, m.target_range as int),
    ensures
        m.insert(v).window == trim(m.window, m.capacity, m.target_range).push(v),
        trim(m.window, m.capacity, m.target_range).len() < m.window.len(),
        trim(m.window, m.capacity, m.target_range).len() < m.capacity || !range_exceeds(
            seq_min(trim(m.window, m.capacity, m.target_range)) as int,
            seq_max(trim(m.window, m.capacity, m.target_range)) as int,
            m.target_range as int,
        ),
{
    lemma_trim_keeps_newest(m.window, m.capacity, m.target_range);
    lemma_trim_keeps_newest(m.window.drop_first(), m.capacity, m.target_range);
}

/// With a capacity of at least one, the window never holds more than ten
/// times the capacity after a sample has entered.
pub proof fn law_window_stays_under_ceiling(m: MinMaxModel, v: i64)
    requires
        m.capacity >= 1,
    ensures
        m.insert(v).window.len() <= CEILING_FACTOR * m.capacity,
        m.insert(v).window.len() <= m.window.len() + 1,
        m.insert(v).window.last() == v,
{
    lemma_trim_keeps_newest(m.window, m.capacity, m.target_range);
}

/// A second sample offered to the throttled insertion with a time not after
/// the first changes nothing.
pub proof fn law_throttled_repeat_is_ignored(m: MinMaxModel, t1: u64, v1: i64, t2: u64, v2: i64)
    requires
        t2 <= t1,
    ensures
        m.insert_throttled(t1, v1).insert_throttled(t2, v2) == m.insert_throttled(t1, v1),
{
}

} // verus!
