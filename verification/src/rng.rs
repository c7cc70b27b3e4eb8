//! The engine's single source of randomness: one trusted wrapper around the
//! `rand` crate, drawing an integer uniformly from an inclusive range.

use vstd::prelude::*;
use crate::event::DelayRange;

verus! {

/// Relies on `rand::random_range` on an inclusive integer range: it returns
/// a value inside the range and panics only when the range is empty, which
/// the precondition rules out.
#[verifier::external_body]
pub(crate) fn rand_i64_in(lo: i64, hi: i64) -> (r: i64)
    requires
        lo <= hi,
    ensures
        lo <= r <= hi,
{
    rand::random_range(lo..=hi)
}

/// Draw an inter-action delay, in milliseconds, uniformly from a closed
/// delay range: the result always lies within the range, bounds included.
pub fn draw_delay(range: &DelayRange) -> (ms: u64)
    requires
        range.wf(),
    ensures
        range.min_ms <= ms <= range.max_ms,
{
    let d: i64 = rand_i64_in(range.min_ms as i64, range.max_ms as i64);
    d as u64
}

} // verus!
