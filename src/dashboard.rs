//! Values computed for the dashboard's listing of origins.

use vstd::prelude::*;

verus! {

pub open spec fn abs_diff(a: int, b: int) -> int {
    if a >= b {
        a - b
    } else {
        b - a
    }
}

/// How far apart, in milliseconds, a probe's time and `now` are, whichever
/// comes first.
pub fn age_millis(now: i64, queried_at: i64) -> (r: u64)
    ensures
        r == abs_diff(now as int, queried_at as int),
{
    let d: i128 = if now >= queried_at {
        now as i128 - queried_at as i128
    } else {
        queried_at as i128 - now as i128
    };
    d as u64
}

} // verus!
