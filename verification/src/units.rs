//! Units and ranges shared by the whole engine.
//!
//! All session times are integer milliseconds and all world coordinates
//! are integer fixed-point units. Both are kept within a generous bound so
//! that every sum and product the engine forms fits comfortably in `i64`.

use vstd::prelude::*;

verus! {

/// Largest magnitude, in milliseconds, of any time the engine works with
/// (absolute times, relative times, beat times and hit windows).
pub const TIME_LIMIT_MS: i64 = 1_000_000_000;

/// Largest magnitude of any world coordinate.
pub const COORD_LIMIT: i64 = 1_000_000_000;

/// A time (in milliseconds) the engine may work with.
pub open spec fn time_in_range(t: int) -> bool {
    -TIME_LIMIT_MS <= t <= TIME_LIMIT_MS
}

/// A relative time: the difference of two in-range times, so it spans
/// twice the working range.
pub open spec fn rel_time_in_range(t: int) -> bool {
    -2 * TIME_LIMIT_MS <= t <= 2 * TIME_LIMIT_MS
}

/// A world coordinate the engine may work with.
pub open spec fn coord_in_range(c: int) -> bool {
    -COORD_LIMIT <= c <= COORD_LIMIT
}

} // verus!
