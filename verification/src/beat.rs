//! Beat events and the time-sorted queue that owns them for a session.

use vstd::prelude::*;

use crate::direction::Direction;
use crate::units::time_in_range;

verus! {

/// A single timed directional target the player must match.
/// `time` is in milliseconds from the session start.
#[derive(Clone, Copy, Debug, PartialEq, Eq, Structural)]
pub struct BeatPoint {
    pub direction: Direction,
    pub time: i64,
}

/// A sequence of beat points is sorted when the times never decrease.
pub open spec fn sorted_by_time(s: Seq<BeatPoint>) -> bool {
    forall|i: int, j: int| 0 <= i < j < s.len() ==> s[i].time <= s[j].time
}

/// Every time in the sequence lies within the engine's working range.
pub open spec fn times_in_range(s: Seq<BeatPoint>) -> bool {
    forall|i: int| 0 <= i < s.len() ==> time_in_range((#[trigger] s[i]).time as int)
}

/// The ordered, time-sorted queue of beat events still to be matched in
/// the active session. The front is the nearest upcoming event. The queue
/// only shrinks while a session runs: matching and expiry pop the front,
/// and nothing is ever inserted.
pub struct BeatQueue {
    events: Vec<BeatPoint>,
}

impl View for BeatQueue {
    type V = Seq<BeatPoint>;

    closed spec fn view(&self) -> Seq<BeatPoint> {
        self.events@
    }
}

impl BeatQueue {
    /// The queue's own invariant: sorted, with every time in range.
    pub open spec fn wf(&self) -> bool {
        sorted_by_time(self@) && times_in_range(self@)
    }

    /// Builds the queue from an already-time-sorted list; the session
    /// loader is responsible for sorting, and the queue does not re-sort.
    pub fn new(points: Vec<BeatPoint>) -> (q: BeatQueue)
        requires
            sorted_by_time(points@),
            times_in_range(points@),
        ensures
            q@ == points@,
            q.wf(),
    {
        BeatQueue { events: points }
    }

    /// The nearest upcoming event, if any, left in place.
    pub fn peek(&self) -> (r: Option<&BeatPoint>)
        ensures
            match r {
                Some(p) => self@.len() > 0 && *p == self@[0],
                None => self@.len() == 0,
            },
    {
        if self.events.len() > 0 {
            Some(&self.events[0])
        } else {
            None
        }
    }

    /// Removes and returns the nearest upcoming event, if any.
    pub fn pop_front(&mut self) -> (r: Option<BeatPoint>)
        ensures
            match r {
                Some(p) => {
                    &&& old(self)@.len() > 0
                    &&& p == old(self)@[0]
                    &&& final(self)@ == old(self)@.drop_first()
                },
                None => old(self)@.len() == 0 && final(self)@ == old(self)@,
            },
            old(self).wf() ==> final(self).wf(),
    {
        if self.events.len() > 0 {
            let p = self.events.remove(0);
            assert(self@ =~= old(self)@.drop_first());
            Some(p)
        } else {
            None
        }
    }

    /// How many events are still queued.
    pub fn len(&self) -> (n: usize)
        ensures
            n == self@.len(),
    {
        self.events.len()
    }

    /// Whether every event has been consumed.
    pub fn is_empty(&self) -> (b: bool)
        ensures
            b <==> self@.len() == 0,
    {
        self.events.len() == 0
    }
}

} // verus!
