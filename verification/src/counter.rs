//! Overflow-safe counter arithmetic.
//!
//! All aggregate fields (post counts, follower/following counts) are unsigned
//! 64-bit counters that must fail explicitly rather than wrap. These two
//! functions are the only way the ledger moves a counter.

use vstd::prelude::*;

use crate::errors::ErrorCode;

verus! {

/// Adds one to a counter, failing with `Overflow` instead of wrapping.
pub fn counter_increment(value: u64) -> (r: Result<u64, ErrorCode>)
    ensures
        value < u64::MAX ==> r == Ok::<u64, ErrorCode>((value + 1) as u64),
        value == u64::MAX ==> r == Err::<u64, ErrorCode>(ErrorCode::Overflow),
{
    if value < u64::MAX {
        Ok(value + 1)
    } else {
        Err(ErrorCode::Overflow)
    }
}

/// Subtracts one from a counter, failing with `Overflow` instead of wrapping
/// below zero.
pub fn counter_decrement(value: u64) -> (r: Result<u64, ErrorCode>)
    ensures
        value > 0 ==> r == Ok::<u64, ErrorCode>((value - 1) as u64),
        value == 0 ==> r == Err::<u64, ErrorCode>(ErrorCode::Overflow),
{
    if value > 0 {
        Ok(value - 1)
    } else {
        Err(ErrorCode::Overflow)
    }
}

} // verus!
