//! The input matcher: expires late beat events and classifies key
//! presses against the front of the beat queue.

use vstd::prelude::*;

use crate::beat::BeatPoint;
use crate::beat::BeatQueue;
use crate::beat::sorted_by_time;
use crate::direction::Direction;
use crate::game_result::GameplayResult;
use crate::hit_result::HitResult;
use crate::units::TIME_LIMIT_MS;
use crate::units::rel_time_in_range;

verus! {

/// How many leading events of `q` have expired: an event at time `t` is
/// expired once `t + window < rel`. On a time-sorted queue the expired
/// events always form a prefix.
pub open spec fn expired_prefix_len(q: Seq<BeatPoint>, window: int, rel: int) -> nat
    decreases q.len(),
{
    if q.len() == 0 {
        0
    } else if q[0].time + window < rel {
        1 + expired_prefix_len(q.drop_first(), window, rel)
    } else {
        0
    }
}

/// The record entries expiry appends: one late miss per expired event,
/// carrying the event's own time.
pub open spec fn miss_late_entries(events: Seq<BeatPoint>) -> Seq<(i64, HitResult)> {
    events.map_values(|e: BeatPoint| (e.time, HitResult::MissLate))
}

/// What a single press at relative time `rel` makes of the queue's front:
/// nothing on an empty queue; nothing when the press is too early
/// (`rel < front.time - window`, the event stays for a later press);
/// otherwise the front is consumed, as a hit when the direction matches
/// and as a wrong-key miss when it does not.
pub open spec fn press_outcome(
    q: Seq<BeatPoint>,
    window: int,
    rel: int,
    dir: Direction,
) -> Option<(i64, HitResult)> {
    if q.len() == 0 {
        None
    } else if rel < q[0].time - window {
        None
    } else if q[0].direction == dir {
        Some((q[0].time, HitResult::Hit))
    } else {
        Some((q[0].time, HitResult::MissWrongKey))
    }
}

/// The queue a single press leaves behind: one event shorter when the
/// press consumed the front, untouched otherwise.
pub open spec fn queue_after_press(
    q: Seq<BeatPoint>,
    window: int,
    rel: int,
    dir: Direction,
) -> Seq<BeatPoint> {
    if press_outcome(q, window, rel, dir) is Some {
        q.drop_first()
    } else {
        q
    }
}

/// The record entries a single press appends: one or none.
pub open spec fn press_entries(
    q: Seq<BeatPoint>,
    window: int,
    rel: int,
    dir: Direction,
) -> Seq<(i64, HitResult)> {
    match press_outcome(q, window, rel, dir) {
        Some(e) => seq![e],
        None => Seq::empty(),
    }
}

/// The queue left after a whole sequence of presses, processed in arrival
/// order at one relative time.
pub open spec fn queue_after_presses(
    q: Seq<BeatPoint>,
    window: int,
    rel: int,
    presses: Seq<Direction>,
) -> Seq<BeatPoint>
    decreases presses.len(),
{
    if presses.len() == 0 {
        q
    } else {
        queue_after_presses(
            queue_after_press(q, window, rel, presses[0]),
            window,
            rel,
            presses.drop_first(),
        )
    }
}

/// The record entries a whole sequence of presses appends, in order.
pub open spec fn entries_after_presses(
    q: Seq<BeatPoint>,
    window: int,
    rel: int,
    presses: Seq<Direction>,
) -> Seq<(i64, HitResult)>
    decreases presses.len(),
{
    if presses.len() == 0 {
        Seq::empty()
    } else {
        press_entries(q, window, rel, presses[0]) + entries_after_presses(
            queue_after_press(q, window, rel, presses[0]),
            window,
            rel,
            presses.drop_first(),
        )
    }
}

/// Processing one more press at the end of a sequence is the same as
/// processing the sequence and then that press.
pub proof fn lemma_presses_snoc(
    q: Seq<BeatPoint>,
    window: int,
    rel: int,
    presses: Seq<Direction>,
    dir: Direction,
)
    ensures
        queue_after_presses(q, window, rel, presses.push(dir)) == queue_after_press(
            queue_after_presses(q, window, rel, presses),
            window,
            rel,
            dir,
        ),
        entries_after_presses(q, window, rel, presses.push(dir)) == entries_after_presses(
            q,
            window,
            rel,
            presses,
        ) + press_entries(queue_after_presses(q, window, rel, presses), window, rel, dir),
    decreases presses.len(),
{
    if presses.len() == 0 {
        let q1 = queue_after_press(q, window, rel, dir);
        assert(presses.push(dir)[0] == dir);
        assert(presses.push(dir).drop_first() =~= Seq::<Direction>::empty());
        assert(queue_after_presses(q1, window, rel, Seq::<Direction>::empty()) == q1);
        assert(entries_after_presses(q1, window, rel, Seq::<Direction>::empty())
            =~= Seq::<(i64, HitResult)>::empty());
        assert(entries_after_presses(q, window, rel, presses.push(dir)) =~= press_entries(
            q,
            window,
            rel,
            dir,
        ));
        assert(entries_after_presses(q, window, rel, presses) + press_entries(
            q,
            window,
            rel,
            dir,
        ) =~= press_entries(q, window, rel, dir));
    } else {
        let q1 = queue_after_press(q, window, rel, presses[0]);
        assert(presses.push(dir)[0] == presses[0]);
        assert(presses.push(dir).drop_first() =~= presses.drop_first().push(dir));
        lemma_presses_snoc(q1, window, rel, presses.drop_first(), dir);
        assert(queue_after_presses(q, window, rel, presses.push(dir)) == queue_after_presses(
            q1,
            window,
            rel,
            presses.drop_first().push(dir),
        ));
        assert(entries_after_presses(q, window, rel, presses.push(dir)) == press_entries(
            q,
            window,
            rel,
            presses[0],
        ) + entries_after_presses(q1, window, rel, presses.drop_first().push(dir)));
        assert(press_entries(q, window, rel, presses[0]) + (entries_after_presses(
            q1,
            window,
            rel,
            presses.drop_first(),
        ) + press_entries(
            queue_after_presses(q1, window, rel, presses.drop_first()),
            window,
            rel,
            dir,
        )) =~= (press_entries(q, window, rel, presses[0]) + entries_after_presses(
            q1,
            window,
            rel,
            presses.drop_first(),
        )) + press_entries(
            queue_after_presses(q1, window, rel, presses.drop_first()),
            window,
            rel,
            dir,
        ));
    }
}

/// Consumes key presses and the beat queue. `hit_window` is the symmetric
/// tolerance around an event's time: an event at time `t` is matchable
/// while the relative time lies in `[t - hit_window, t + hit_window]`.
#[derive(Clone, Copy, Debug, PartialEq, Eq, Structural)]
pub struct InputMatcher {
    pub hit_window: i64,
}

impl InputMatcher {
    /// The window is non-negative and within the engine's working range.
    pub open spec fn wf(&self) -> bool {
        0 <= self.hit_window <= TIME_LIMIT_MS
    }

    /// A matcher with the given symmetric tolerance, in milliseconds.
    pub fn new(hit_window: i64) -> (m: InputMatcher)
        requires
            0 <= hit_window <= TIME_LIMIT_MS,
        ensures
            m.hit_window == hit_window,
            m.wf(),
    {
        InputMatcher { hit_window }
    }

    /// The expiry pass: pops every event whose window has closed
    /// (`time + window < rel`) and records a late miss for each, so that a
    /// player is never penalised twice for one expired event and the queue
    /// keeps only live or future events.
    pub fn expiry_pass(
        &self,
        queue: &mut BeatQueue,
        record: &mut GameplayResult,
        rel: i64,
    )
        requires
            self.wf(),
            old(queue).wf(),
            rel_time_in_range(rel as int),
        ensures
            final(queue)@ == old(queue)@.skip(
                expired_prefix_len(old(queue)@, self.hit_window as int, rel as int) as int,
            ),
            final(record).results@ == old(record).results@ + miss_late_entries(
                old(queue)@.take(
                    expired_prefix_len(old(queue)@, self.hit_window as int, rel as int) as int,
                ),
            ),
            final(record).status == old(record).status,
            final(queue).wf(),
            forall|i: int|
                0 <= i < final(queue)@.len()
                    ==> rel <= (#[trigger] final(queue)@[i]).time + self.hit_window,
    {
        let ghost q0 = queue@;
        let ghost r0 = record.results@;
        let ghost st0 = record.status;
        let ghost w = self.hit_window as int;
        let ghost mut j: int = 0;
        loop
            invariant
                self.wf(),
                w == self.hit_window as int,
                rel_time_in_range(rel as int),
                sorted_by_time(q0),
                crate::beat::times_in_range(q0),
                0 <= j <= q0.len(),
                queue@ == q0.skip(j),
                queue.wf(),
                record.results@ == r0 + miss_late_entries(q0.take(j)),
                record.status == st0,
                forall|i: int| 0 <= i < j ==> (#[trigger] q0[i]).time + w < rel,
            ensures
                queue@ == q0.skip(j),
                record.results@ == r0 + miss_late_entries(q0.take(j)),
                record.status == st0,
                queue.wf(),
                0 <= j <= q0.len(),
                forall|i: int| 0 <= i < j ==> (#[trigger] q0[i]).time + w < rel,
                j == q0.len() || q0[j].time + w >= rel,
            decreases q0.len() - j,
        {
            let expired = match queue.peek() {
                Some(p) => p.time + self.hit_window < rel,
                None => false,
            };
            proof {
                if queue@.len() > 0 {
                    assert(queue@[0] == q0[j]);
                }
            }
            if !expired {
                break;
            }
            let p = queue.pop_front().unwrap();
            record.results.push((p.time, HitResult::MissLate));
            proof {
                assert(q0.skip(j)[0] == q0[j]);
                assert(q0.skip(j).drop_first() =~= q0.skip(j + 1));
                assert(q0.take(j + 1).drop_last() =~= q0.take(j));
                assert(miss_late_entries(q0.take(j + 1)) =~= miss_late_entries(q0.take(j)).push(
                    (q0[j].time, HitResult::MissLate),
                ));
                assert(record.results@ =~= r0 + miss_late_entries(q0.take(j + 1)));
                j = j + 1;
            }
        }
        proof {
            lemma_expired_prefix_len_at(q0, w, rel as int, j);
            assert(queue@ =~= q0.skip(expired_prefix_len(q0, w, rel as int) as int));
            assert(forall|i: int|
                0 <= i < queue@.len() ==> rel <= (#[trigger] queue@[i]).time + self.hit_window)
                by {
                assert forall|i: int| 0 <= i < queue@.len() implies rel <= (
                #[trigger] queue@[i]).time + self.hit_window by {
                    assert(queue@[i] == q0[j + i]);
                    assert(q0[j].time <= q0[j + i].time);
                };
            };
        }
    }

    /// The input pass: classifies each press received since the last
    /// tick, in arrival order, against the queue's front. An empty queue
    /// or a too-early press is a no-op; any other press consumes the
    /// front and records a hit or a wrong-key miss.
    pub fn input_pass(
        &self,
        queue: &mut BeatQueue,
        record: &mut GameplayResult,
        rel: i64,
        presses: &Vec<Direction>,
    )
        requires
            self.wf(),
            old(queue).wf(),
            rel_time_in_range(rel as int),
        ensures
            final(queue)@ == queue_after_presses(
                old(queue)@,
                self.hit_window as int,
                rel as int,
                presses@,
            ),
            final(record).results@ == old(record).results@ + entries_after_presses(
                old(queue)@,
                self.hit_window as int,
                rel as int,
                presses@,
            ),
            final(record).status == old(record).status,
            final(queue).wf(),
    {
        let ghost q0 = queue@;
        let ghost r0 = record.results@;
        let ghost st0 = record.status;
        let ghost w = self.hit_window as int;
        let mut i: usize = 0;
        while i < presses.len()
            invariant
                self.wf(),
                w == self.hit_window as int,
                rel_time_in_range(rel as int),
                0 <= i <= presses@.len(),
                queue@ == queue_after_presses(q0, w, rel as int, presses@.take(i as int)),
                queue.wf(),
                record.results@ == r0 + entries_after_presses(
                    q0,
                    w,
                    rel as int,
                    presses@.take(i as int),
                ),
                record.status == st0,
            decreases presses@.len() - i,
        {
            self.process_press(queue, record, rel, presses[i]);
            proof {
                lemma_presses_snoc(q0, w, rel as int, presses@.take(i as int), presses@[i as int]);
                assert(presses@.take(i as int).push(presses@[i as int]) =~= presses@.take(
                    i + 1,
                ));
                assert(record.results@ =~= r0 + entries_after_presses(
                    q0,
                    w,
                    rel as int,
                    presses@.take(i + 1),
                ));
            }
            i = i + 1;
        }
        proof {
            assert(presses@.take(presses@.len() as int) =~= presses@);
        }
    }

    /// Classifies one press against the queue's front.
    pub fn process_press(
        &self,
        queue: &mut BeatQueue,
        record: &mut GameplayResult,
        rel: i64,
        dir: Direction,
    )
        requires
            self.wf(),
            old(queue).wf(),
            rel_time_in_range(rel as int),
        ensures
            final(queue)@ == queue_after_press(
                old(queue)@,
                self.hit_window as int,
                rel as int,
                dir,
            ),
            final(record).results@ == old(record).results@ + press_entries(
                old(queue)@,
                self.hit_window as int,
                rel as int,
                dir,
            ),
            final(record).status == old(record).status,
            final(queue).wf(),
    {
        let front = match queue.peek() {
            Some(p) => *p,
            None => {
                proof {
                    assert(record.results@ =~= old(record).results@ + press_entries(
                        old(queue)@,
                        self.hit_window as int,
                        rel as int,
                        dir,
                    ));
                }
                return;
            },
        };
        if rel < front.time - self.hit_window {
            // too early: the press is ignored and the event stays queued
            proof {
                assert(record.results@ =~= old(record).results@ + press_entries(
                    old(queue)@,
                    self.hit_window as int,
                    rel as int,
                    dir,
                ));
            }
            return;
        }
        queue.pop_front();
        if front.direction == dir {
            record.results.push((front.time, HitResult::Hit));
        } else {
            record.results.push((front.time, HitResult::MissWrongKey));
        }
        proof {
            assert(record.results@ =~= old(record).results@ + press_entries(
                old(queue)@,
                self.hit_window as int,
                rel as int,
                dir,
            ));
        }
    }
}

/// Pins down `expired_prefix_len` on a sorted queue: if the first `j`
/// events are expired and the `j`-th is not (or the queue ends there),
/// then the expired prefix has length exactly `j`.
proof fn lemma_expired_prefix_len_at(q: Seq<BeatPoint>, window: int, rel: int, j: int)
    requires
        sorted_by_time(q),
        0 <= j <= q.len(),
        forall|i: int| 0 <= i < j ==> (#[trigger] q[i]).time + window < rel,
        j == q.len() || q[j].time + window >= rel,
    ensures
        expired_prefix_len(q, window, rel) == j,
    decreases q.len(),
{
    if j == 0 {
        if q.len() > 0 {
            assert(q[0].time + window >= rel);
        }
    } else {
        assert(q[0].time + window < rel);
        let qt = q.drop_first();
        assert(forall|i: int| 0 <= i < j - 1 ==> (#[trigger] qt[i]).time + window < rel) by {
            assert(forall|i: int| 0 <= i < j - 1 ==> qt[i] == q[i + 1]);
        };
        assert(j - 1 == qt.len() || qt[j - 1].time + window >= rel);
        lemma_expired_prefix_len_at(qt, window, rel, j - 1);
    }
}

/// The expired events are never more than the whole queue.
pub proof fn lemma_expired_prefix_len_le(q: Seq<BeatPoint>, window: int, rel: int)
    ensures
        expired_prefix_len(q, window, rel) <= q.len(),
    decreases q.len(),
{
    if q.len() > 0 && q[0].time + window < rel {
        lemma_expired_prefix_len_le(q.drop_first(), window, rel);
    }
}

/// On a sorted queue the expired prefix is exactly the expired events:
/// everything before it has expired, and nothing at or beyond it has.
pub proof fn lemma_expired_prefix_bounds(q: Seq<BeatPoint>, window: int, rel: int)
    requires
        sorted_by_time(q),
    ensures
        expired_prefix_len(q, window, rel) <= q.len(),
        forall|i: int|
            0 <= i < expired_prefix_len(q, window, rel)
                ==> (#[trigger] q[i]).time + window < rel,
        forall|i: int|
            expired_prefix_len(q, window, rel) <= i < q.len()
                ==> rel <= (#[trigger] q[i]).time + window,
    decreases q.len(),
{
    if q.len() == 0 {
    } else if q[0].time + window < rel {
        let tail = q.drop_first();
        lemma_expired_prefix_bounds(tail, window, rel);
        assert forall|i: int| 0 <= i < expired_prefix_len(q, window, rel) implies (
        #[trigger] q[i]).time + window < rel by {
            if i > 0 {
                assert(q[i] == tail[i - 1]);
            }
        };
        assert forall|i: int|
            expired_prefix_len(q, window, rel) <= i < q.len() implies rel <= (
        #[trigger] q[i]).time + window by {
            assert(q[i] == tail[i - 1]);
        };
    } else {
        assert(forall|i: int| 0 <= i < q.len() ==> q[0].time <= (#[trigger] q[i]).time);
    }
}

/// Every press consumes at most one event, and each consumed event
/// yields exactly one record entry: the queue shrinks by exactly as many
/// events as entries are appended.
pub proof fn lemma_presses_preserve_count(
    q: Seq<BeatPoint>,
    window: int,
    rel: int,
    presses: Seq<Direction>,
)
    ensures
        queue_after_presses(q, window, rel, presses).len() + entries_after_presses(
            q,
            window,
            rel,
            presses,
        ).len() == q.len(),
    decreases presses.len(),
{
    if presses.len() > 0 {
        lemma_presses_preserve_count(
            queue_after_press(q, window, rel, presses[0]),
            window,
            rel,
            presses.drop_first(),
        );
    }
}

/// A press whose relative time lies outside `[t - window, t + window]`
/// for the time `t` of every queued event is a pure ignore: once the
/// expiry pass has run (so no queued event has already expired), no such
/// press consumes an event or records anything.
pub proof fn lemma_out_of_window_presses_ignored(
    q: Seq<BeatPoint>,
    window: int,
    rel: int,
    presses: Seq<Direction>,
)
    requires
        forall|i: int|
            0 <= i < q.len()
                ==> rel < (#[trigger] q[i]).time - window || q[i].time + window < rel,
        forall|i: int| 0 <= i < q.len() ==> rel <= (#[trigger] q[i]).time + window,
    ensures
        queue_after_presses(q, window, rel, presses) == q,
        entries_after_presses(q, window, rel, presses) == Seq::<(i64, HitResult)>::empty(),
    decreases presses.len(),
{
    if presses.len() > 0 {
        if q.len() > 0 {
            assert(rel < q[0].time - window);
        }
        assert(press_outcome(q, window, rel, presses[0]) is None);
        lemma_out_of_window_presses_ignored(q, window, rel, presses.drop_first());
        assert(entries_after_presses(q, window, rel, presses)
            =~= Seq::<(i64, HitResult)>::empty());
    }
}

} // verus!
