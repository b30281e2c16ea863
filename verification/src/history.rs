//! Signed positions in a history: a position that is not negative counts
//! from the oldest entry, a negative one from the newest, so that `-1` names
//! the most recent entry.

use vstd::prelude::*;
use crate::error::KeeperError;

verus! {

/// Whether `index` names an entry of a history of `len` entries.
pub open spec fn in_history(len: nat, index: i64) -> bool {
    -(len as int) <= index < len
}

/// The distance from the oldest entry of the entry that `index` names.
pub open spec fn position(len: nat, index: i64) -> int
    recommends
        in_history(len, index),
{
    if index < 0 {
        len + index
    } else {
        index as int
    }
}

/// What a lookup of `index` in a history of `len` entries comes to.
pub open spec fn lookup(len: nat, index: i64) -> Result<int, KeeperError> {
    if len == 0 {
        Err(KeeperError::EmptyHistory)
    } else if in_history(len, index) {
        Ok(position(len, index))
    } else {
        Err(KeeperError::IndexOutOfRange)
    }
}

/// Turns a signed position into a distance from the oldest entry.
pub fn resolve_index(len: usize, index: i64) -> (res: Result<usize, KeeperError>)
    ensures
        match lookup(len as nat, index) {
            Ok(at) => res == Ok::<usize, KeeperError>(at as usize) && 0 <= at < len,
            Err(e) => res == Err::<usize, KeeperError>(e),
        },
{
    if len == 0 {
        return Err(KeeperError::EmptyHistory);
    }
    let at: i128 = if index < 0 {
        len as i128 + index as i128
    } else {
        index as i128
    };
    if at < 0 || at >= len as i128 {
        return Err(KeeperError::IndexOutOfRange);
    }
    Ok(at as usize)
}

/// A signed position that names the entry `at` places after the oldest.
pub fn signed_index(len: usize, at: usize) -> (index: i64)
    requires
        at < len,
    ensures
        in_history(len as nat, index),
        position(len as nat, index) == at,
{
    if at <= i64::MAX as usize {
        at as i64
    } else {
        (at as i128 - len as i128) as i64
    }
}

} // verus!
