//! The failures that the trackers report.

use vstd::prelude::*;

verus! {

#[derive(Clone, Copy, Debug, PartialEq, Eq, Structural)]
pub enum KeeperError {
    /// An indicator was asked for with a period below its minimum.
    PeriodTooShort,
    /// A value was offered to an extrema tracker of capacity zero.
    NotConfigured,
    /// A value leaving the window lay outside the tracked extremes.
    InvariantViolated,
    /// A history lookup found the history empty.
    EmptyHistory,
    /// A history lookup named a position outside the history.
    IndexOutOfRange,
}

impl KeeperError {
    /// A sentence that names the failure.
    pub fn message(&self) -> (msg: String)
        ensures
            msg@ == (match *self {
                KeeperError::PeriodTooShort => "ATR Period at least 2"@,
                KeeperError::NotConfigured => "MinMaxKeeper max_len is 0"@,
                KeeperError::InvariantViolated => "evicted value outside the tracked extremes"@,
                KeeperError::EmptyHistory => "history is empty"@,
                KeeperError::IndexOutOfRange => "index out of range"@,
            }),
    {
        match self {
            KeeperError::PeriodTooShort => "ATR Period at least 2".to_owned(),
            KeeperError::NotConfigured => "MinMaxKeeper max_len is 0".to_owned(),
            KeeperError::InvariantViolated => {
                "evicted value outside the tracked extremes".to_owned()
            },
            KeeperError::EmptyHistory => "history is empty".to_owned(),
            KeeperError::IndexOutOfRange => "index out of range".to_owned(),
        }
    }
}

} // verus!
