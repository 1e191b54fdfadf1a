//! Normalisation of raw costs into the target cost range.
use vstd::prelude::*;

verus! {

/// Base cost added to every scaled raw cost.
pub const DEFAULT_COST: i32 = 6000;

/// Smallest raw cost that is scaled rather than replaced.
pub const MIN_COST: i32 = 0;

/// Largest cost; raw costs above it are clamped to it.
pub const MAX_COST: i32 = 10000;

/// Divisor applied to a raw cost before it is added to the base.
pub const COST_ADJUSTMENT: i32 = 10;

/// Cost given to an entry whose raw cost is negative.
pub const NEGATIVE_COST: i32 = 8000;

/// The normalised cost of a raw cost `c`.
pub open spec fn adjusted(c: int) -> int {
    if c < 0 {
        8000
    } else if c > 10000 {
        10000
    } else {
        6000 + c / 10
    }
}

/// Maps a raw cost into the target range: a negative cost becomes 8000,
/// a cost above 10000 becomes 10000, any other becomes `6000 + c / 10`.
pub fn adjust_cost(cost: i32) -> (r: i32)
    ensures
        r == adjusted(cost as int),
        r == NEGATIVE_COST || (6000 <= r <= 10000),
{
    if cost < MIN_COST {
        NEGATIVE_COST
    } else if cost > MAX_COST {
        MAX_COST
    } else {
        DEFAULT_COST + cost / COST_ADJUSTMENT
    }
}

} // verus!
