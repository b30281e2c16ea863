//! The latest bid and ask and a bounded history of the quotes that were
//! current at each period's end.

use std::collections::VecDeque;
use vstd::pervasive::unreached;
use vstd::prelude::*;
use crate::fixed::div_floor;
use crate::history::{in_history, position, resolve_index};
use crate::series::{push_bounded, tail_of};

verus! {

/// The price halfway between `bid` and `ask`, rounded down.
pub open spec fn mid_of(bid: i64, ask: i64) -> i64 {
    ((bid + ask) / 2) as i64
}

/// What a [`TickPriceKeeper`] stands for.
pub struct TickModel {
    /// The latest bid; zero before the first quote.
    pub current_bid: i64,
    /// The latest ask; zero before the first quote.
    pub current_ask: i64,
    /// The recorded bids, oldest first.
    pub bids: Seq<i64>,
    /// The recorded asks.
    pub asks: Seq<i64>,
    /// The times of the records.
    pub times: Seq<u64>,
    /// The most records that are kept.
    pub capacity: nat,
}

impl TickModel {
    pub open spec fn new(capacity: nat) -> TickModel {
        TickModel {
            current_bid: 0,
            current_ask: 0,
            bids: Seq::empty(),
            asks: Seq::empty(),
            times: Seq::empty(),
            capacity,
        }
    }

    /// Each record has a bid, an ask and a time.
    pub open spec fn wf(self) -> bool {
        self.bids.len() == self.asks.len() && self.asks.len() == self.times.len()
    }

    /// Whether a quote is current: both sides are above zero.
    pub open spec fn quoted(self) -> bool {
        self.current_bid > 0 && self.current_ask > 0
    }

    /// The state after a period has ended at `t`: a current quote is
    /// recorded.
    pub open spec fn on_period(self, t: u64) -> TickModel {
        if self.quoted() {
            TickModel {
                bids: tail_of(self.bids.push(self.current_bid), self.capacity),
                asks: tail_of(self.asks.push(self.current_ask), self.capacity),
                times: tail_of(self.times.push(t), self.capacity),
                ..self
            }
        } else {
            self
        }
    }

    /// The state after a quote has been received.
    pub open spec fn on_tick(self, bid: i64, ask: i64) -> TickModel {
        TickModel { current_bid: bid, current_ask: ask, ..self }
    }

    /// The recorded mid prices, oldest first.
    pub open spec fn mids(self) -> Seq<i64> {
        Seq::new(self.bids.len(), |i: int| mid_of(self.bids[i], self.asks[i]))
    }
}

/// Keeps the latest quote and a bounded history of what was current at the
/// end of each period.
pub struct TickPriceKeeper {
    frequency_ms: usize,
    current_bid: i64,
    current_ask: i64,
    history_bid: VecDeque<i64>,
    history_ask: VecDeque<i64>,
    history_ts: VecDeque<u64>,
    max_length: usize,
}

impl View for TickPriceKeeper {
    type V = TickModel;

    closed spec fn view(&self) -> TickModel {
        TickModel {
            current_bid: self.current_bid,
            current_ask: self.current_ask,
            bids: self.history_bid@,
            asks: self.history_ask@,
            times: self.history_ts@,
            capacity: self.max_length as nat,
        }
    }
}

impl TickPriceKeeper {
    pub open spec fn wf(&self) -> bool {
        self@.wf()
    }

    /// Creates a keeper of at most `max_length` records, one for each period
    /// of `frequency_ms`.
    pub fn new(frequency_ms: usize, max_length: usize) -> (keeper: Self)
        ensures
            keeper.wf(),
            keeper@ == TickModel::new(max_length as nat),
    {
        TickPriceKeeper {
            frequency_ms,
            current_bid: 0,
            current_ask: 0,
            history_bid: VecDeque::with_capacity(max_length),
            history_ask: VecDeque::with_capacity(max_length),
            history_ts: VecDeque::with_capacity(max_length),
            max_length,
        }
    }

    /// Ends a period at `timestamp`: records the latest quote, if both its
    /// sides are above zero, with the time, and forgets the oldest records
    /// beyond the capacity.
    pub fn on_period_callback(&mut self, timestamp: u64)
        requires
            old(self).wf(),
        ensures
            final(self).wf(),
            final(self)@ == old(self)@.on_period(timestamp),
    {
        if self.current_bid > 0 && self.current_ask > 0 {
            push_bounded(&mut self.history_bid, self.current_bid, self.max_length);
            push_bounded(&mut self.history_ask, self.current_ask, self.max_length);
            push_bounded(&mut self.history_ts, timestamp, self.max_length);
        }
    }

    /// Takes a quote as the latest.
    pub fn on_receive_tick(&mut self, bid: i64, ask: i64)
        ensures
            final(self)@ == old(self)@.on_tick(bid, ask),
    {
        self.current_bid = bid;
        self.current_ask = ask;
    }

    /// The recorded bid at `index`, which counts from the oldest record, or
    /// from the newest if negative.
    pub fn get_history_bid(&self, index: i64) -> (bid: i64)
        requires
            in_history(self@.bids.len(), index),
        ensures
            bid == self@.bids[position(self@.bids.len(), index)],
    {
        match resolve_index(self.history_bid.len(), index) {
            Ok(at) => self.history_bid[at],
            Err(_) => unreached(),
        }
    }

    /// The recorded ask at `index`, which counts from the oldest record, or
    /// from the newest if negative.
    pub fn get_history_ask(&self, index: i64) -> (ask: i64)
        requires
            in_history(self@.asks.len(), index),
        ensures
            ask == self@.asks[position(self@.asks.len(), index)],
    {
        match resolve_index(self.history_ask.len(), index) {
            Ok(at) => self.history_ask[at],
            Err(_) => unreached(),
        }
    }

    /// The recorded time at `index`, which counts from the oldest record, or
    /// from the newest if negative.
    pub fn get_history_ts(&self, index: i64) -> (time: u64)
        requires
            in_history(self@.times.len(), index),
        ensures
            time == self@.times[position(self@.times.len(), index)],
    {
        match resolve_index(self.history_ts.len(), index) {
            Ok(at) => self.history_ts[at],
            Err(_) => unreached(),
        }
    }

    /// The number of records.
    pub fn get_history_prices_size(&self) -> (n: usize)
        ensures
            n == self@.bids.len(),
    {
        self.history_bid.len()
    }

    /// The most records that are kept.
    pub fn get_max_length(&self) -> (n: usize)
        ensures
            n == self@.capacity,
    {
        self.max_length
    }

    /// The latest bid.
    pub fn get_current_bid(&self) -> (bid: i64)
        ensures
            bid == self@.current_bid,
    {
        self.current_bid
    }

    /// The latest ask.
    pub fn get_current_ask(&self) -> (ask: i64)
        ensures
            ask == self@.current_ask,
    {
        self.current_ask
    }

    /// The price halfway between the latest bid and ask, rounded down; zero
    /// unless both are above zero.
    pub fn get_current_mid(&self) -> (mid: i64)
        ensures
            mid == (if self@.quoted() {
                mid_of(self@.current_bid, self@.current_ask)
            } else {
                0
            }),
    {
        if self.current_bid > 0 && self.current_ask > 0 {
            mid_price(self.current_bid, self.current_ask)
        } else {
            0
        }
    }

    /// The latest ask less the latest bid; zero unless both are above zero.
    pub fn get_current_spread(&self) -> (spread: i64)
        ensures
            spread == (if self@.quoted() {
                self@.current_ask - self@.current_bid
            } else {
                0
            }),
    {
        if self.current_bid > 0 && self.current_ask > 0 {
            self.current_ask - self.current_bid
        } else {
            0
        }
    }
}

/// The price halfway between `bid` and `ask`, rounded down.
pub fn mid_price(bid: i64, ask: i64) -> (mid: i64)
    ensures
        mid == mid_of(bid, ask),
{
    div_floor(bid as i128 + ask as i128, 2) as i64
}

} // verus!
