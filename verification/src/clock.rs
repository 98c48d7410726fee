//! The gameplay clock: session-relative time from absolute time.

use vstd::prelude::*;

use crate::units::rel_time_in_range;
use crate::units::time_in_range;

verus! {

/// Converts absolute (wall) time into monotonic time relative to the
/// session start. `runtime_start` is set once when a beatmap begins;
/// every matching and interpolation decision runs on the relative time
/// this clock reports. Times are in milliseconds.
#[derive(Clone, Copy, Debug, PartialEq, Eq, Structural)]
pub struct GameplayClock {
    pub runtime_start: i64,
}

impl GameplayClock {
    /// The clock's origin lies within the engine's working range.
    pub open spec fn wf(&self) -> bool {
        time_in_range(self.runtime_start as int)
    }

    /// A clock whose origin is the given absolute start time.
    pub fn new(runtime_start: i64) -> (c: GameplayClock)
        requires
            time_in_range(runtime_start as int),
        ensures
            c.runtime_start == runtime_start,
            c.wf(),
    {
        GameplayClock { runtime_start }
    }

    /// Time elapsed since the session start. Negative before the session's
    /// origin, as happens during a lead-in delay.
    pub fn relative_time(&self, absolute_ms: i64) -> (rel: i64)
        requires
            self.wf(),
            time_in_range(absolute_ms as int),
        ensures
            rel == absolute_ms - self.runtime_start,
            rel_time_in_range(rel as int),
    {
        absolute_ms - self.runtime_start
    }
}

} // verus!
