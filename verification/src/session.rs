//! The session: explicit owner of all gameplay state, ticked once per
//! frame through the fixed pipeline of clock advance, expiry pass, input
//! pass, movement update and status check.

use vstd::prelude::*;

use crate::beat::BeatPoint;
use crate::beat::BeatQueue;
use crate::beat::sorted_by_time;
use crate::beat::times_in_range;
use crate::clock::GameplayClock;
use crate::direction::Direction;
use crate::game_result::GameplayResult;
use crate::hit_result::HitResult;
use crate::matcher::InputMatcher;
use crate::matcher::entries_after_presses;
use crate::matcher::expired_prefix_len;
use crate::matcher::lemma_expired_prefix_len_le;
use crate::matcher::lemma_presses_preserve_count;
use crate::matcher::miss_late_entries;
use crate::matcher::queue_after_presses;
use crate::movement::FACTOR_LIMIT;
use crate::movement::MovementInterpolator;
use crate::movement::PositionNode;
use crate::movement::Vec3;
use crate::movement::arrived;
use crate::movement::nodes_well_formed;
use crate::movement::synced_last;
use crate::movement::synced_nodes;
use crate::movement::update_position;
use crate::status::SessionStatus;
use crate::status::SessionStatusMachine;
use crate::status::status_after_trigger;
use crate::units::TIME_LIMIT_MS;
use crate::units::coord_in_range;
use crate::units::time_in_range;

verus! {

/// The player avatar: its world position, remaining health and a speed
/// factor in thousandths. Position is written only by the movement
/// update; health only through the external miss-penalty hook.
#[derive(Clone, Copy, Debug, PartialEq, Eq, Structural)]
pub struct Player {
    pub position: Vec3,
    pub health: i32,
    pub velocity: i64,
}

impl Default for Player {
    /// A full-health player at the origin with unit speed.
    fn default() -> (p: Player)
        ensures
            p.position == (Vec3 { x: 0i64, y: 0i64, z: 0i64 }),
            p.health == 10,
            p.velocity == 1000,
    {
        Player { position: Vec3 { x: 0, y: 0, z: 0 }, health: 10, velocity: 1000 }
    }
}

/// The beatmap descriptor as the loader hands it over: identification
/// and audio metadata only. The loader resolves `music_path` itself;
/// this engine never touches it.
pub struct BeatMapData {
    pub name: String,
    pub music_path: String,
    pub audio_offset: i64,
}

/// A loaded beatmap: its descriptor data plus the time-sorted beat
/// points and the session clock origin. The loader guarantees the
/// points are sorted before the map reaches the engine.
pub struct BeatMap {
    pub name: String,
    pub audio_offset: i64,
    pub beat_points: Vec<BeatPoint>,
    pub runtime_start: i64,
}

/// The relative time a tick at absolute time `abs` runs on.
pub open spec fn rel_of(s: Session, abs: int) -> int {
    abs - s.clock.runtime_start
}

/// The matcher's window, as a mathematical integer.
pub open spec fn window_of(s: Session) -> int {
    s.matcher.hit_window as int
}

/// The queue once a tick's expiry pass and input pass have both run.
pub open spec fn queue_after_tick(s: Session, abs: int, presses: Seq<Direction>) -> Seq<
    BeatPoint,
> {
    queue_after_presses(
        s.queue@.skip(expired_prefix_len(s.queue@, window_of(s), rel_of(s, abs)) as int),
        window_of(s),
        rel_of(s, abs),
        presses,
    )
}

/// Everything one tick appends to the record: the expired events' late
/// misses, then the outcome of each press in arrival order.
pub open spec fn entries_after_tick(s: Session, abs: int, presses: Seq<Direction>) -> Seq<
    (i64, HitResult),
> {
    miss_late_entries(
        s.queue@.take(expired_prefix_len(s.queue@, window_of(s), rel_of(s, abs)) as int),
    ) + entries_after_presses(
        s.queue@.skip(expired_prefix_len(s.queue@, window_of(s), rel_of(s, abs)) as int),
        window_of(s),
        rel_of(s, abs),
        presses,
    )
}

/// The interpolator's shadow once it has caught up with the ticked queue.
pub open spec fn nodes_after_tick(s: Session, abs: int, presses: Seq<Direction>) -> Seq<
    PositionNode,
> {
    synced_nodes(s.interpolator.nodes_spec(), queue_after_tick(s, abs, presses))
}

/// The last node once the interpolator has caught up, before the update.
pub open spec fn last_after_sync(s: Session, abs: int, presses: Seq<Direction>) -> PositionNode {
    synced_last(
        s.interpolator.nodes_spec(),
        s.interpolator.last_node_spec(),
        queue_after_tick(s, abs, presses),
    )
}

/// Whether this tick's movement update arrives at the final beat node,
/// which signals session completion.
pub open spec fn completes_in_tick(s: Session, abs: int, presses: Seq<Direction>) -> bool {
    let nodes = nodes_after_tick(s, abs, presses);
    &&& nodes.len() == 1
    &&& arrived(
        last_after_sync(s, abs, presses),
        nodes[0],
        s.interpolator.factor_spec().0,
        s.interpolator.factor_spec().1,
        rel_of(s, abs),
    )
}

/// The avatar position the tick leaves: held when the shadow is empty,
/// otherwise whatever the movement update yields.
pub open spec fn position_after_tick(s: Session, abs: int, presses: Seq<Direction>) -> Vec3 {
    let nodes = nodes_after_tick(s, abs, presses);
    if nodes.len() == 0 {
        s.player.position
    } else {
        update_position(
            last_after_sync(s, abs, presses),
            nodes[0],
            s.interpolator.factor_spec().0,
            s.interpolator.factor_spec().1,
            rel_of(s, abs),
        )
    }
}

/// The status the tick's final stage leaves: completion is applied
/// first, then the health-depletion condition; a terminal status
/// swallows both.
pub open spec fn status_after_tick(s: Session, abs: int, presses: Seq<Direction>) -> SessionStatus {
    let s1 = if completes_in_tick(s, abs, presses) {
        status_after_trigger(s.result.status, SessionStatus::Completed)
    } else {
        s.result.status
    };
    if s.player.health <= 0 {
        status_after_trigger(s1, SessionStatus::Failed)
    } else {
        s1
    }
}

/// One gameplay session, the single owner of its queue, record, clock
/// and player, ticked by the caller once per frame. A paused game simply
/// skips the tick: no state moves.
pub struct Session {
    pub queue: BeatQueue,
    pub result: GameplayResult,
    pub clock: GameplayClock,
    pub matcher: InputMatcher,
    pub interpolator: MovementInterpolator,
    pub machine: SessionStatusMachine,
    pub player: Player,
    pub beat_count: usize,
}

impl Session {
    /// The session's invariant: each component well-formed, every beat
    /// event either still queued or recorded exactly once, and the
    /// record's status mirroring the status machine.
    pub open spec fn wf(&self) -> bool {
        &&& self.queue.wf()
        &&& self.clock.wf()
        &&& self.matcher.wf()
        &&& self.interpolator.wf()
        &&& self.result.results@.len() + self.queue@.len() == self.beat_count
        &&& self.result.status == self.machine.status_spec()
    }

    /// Starts a session over a loaded beatmap: the queue takes the
    /// time-sorted beat points, the record starts empty and running,
    /// and the interpolator's anchors are the beat nodes' positions.
    pub fn new(
        beatmap: BeatMap,
        nodes: Vec<PositionNode>,
        hit_window: i64,
        factor_num: i64,
        factor_den: i64,
        player: Player,
    ) -> (s: Session)
        requires
            sorted_by_time(beatmap.beat_points@),
            times_in_range(beatmap.beat_points@),
            time_in_range(beatmap.runtime_start as int),
            nodes_well_formed(nodes@),
            nodes@.len() > 0 ==> nodes@[0].time >= 0,
            coord_in_range(player.position.x as int),
            coord_in_range(player.position.y as int),
            coord_in_range(player.position.z as int),
            0 <= hit_window <= TIME_LIMIT_MS,
            0 < factor_num <= factor_den <= FACTOR_LIMIT,
        ensures
            s.queue@ == beatmap.beat_points@,
            s.result.results@ =~= Seq::<(i64, HitResult)>::empty(),
            s.result.status is Running,
            s.clock.runtime_start == beatmap.runtime_start,
            s.matcher.hit_window == hit_window,
            s.interpolator.nodes_spec() == nodes@,
            s.interpolator.factor_spec() == (factor_num as int, factor_den as int),
            s.player == player,
            s.beat_count == beatmap.beat_points@.len(),
            s.wf(),
    {
        let beat_count = beatmap.beat_points.len();
        Session {
            queue: BeatQueue::new(beatmap.beat_points),
            result: GameplayResult::new(),
            clock: GameplayClock::new(beatmap.runtime_start),
            matcher: InputMatcher::new(hit_window),
            interpolator: MovementInterpolator::new(
                player.position,
                nodes,
                factor_num,
                factor_den,
            ),
            machine: SessionStatusMachine::new(),
            player,
            beat_count,
        }
    }

    /// One frame of the session, at absolute time `absolute_ms` with the
    /// presses received since the last tick: the clock advances, expired
    /// events become late misses, presses are matched, the avatar moves,
    /// and the status machine inspects the outcome. Strictly this order,
    /// so a just-expired event can never be matched by a same-tick press
    /// and a just-matched event moves the avatar in the same tick.
    pub fn tick(&mut self, absolute_ms: i64, presses: &Vec<Direction>)
        requires
            old(self).wf(),
            time_in_range(absolute_ms as int),
        ensures
            final(self).queue@ == queue_after_tick(*old(self), absolute_ms as int, presses@),
            final(self).result.results@ == old(self).result.results@ + entries_after_tick(
                *old(self),
                absolute_ms as int,
                presses@,
            ),
            final(self).result.status == status_after_tick(
                *old(self),
                absolute_ms as int,
                presses@,
            ),
            final(self).machine.status_spec() == final(self).result.status,
            final(self).interpolator.nodes_spec() == nodes_after_tick(
                *old(self),
                absolute_ms as int,
                presses@,
            ),
            final(self).player.position == position_after_tick(
                *old(self),
                absolute_ms as int,
                presses@,
            ),
            final(self).player.health == old(self).player.health,
            final(self).player.velocity == old(self).player.velocity,
            final(self).clock == old(self).clock,
            final(self).matcher == old(self).matcher,
            final(self).beat_count == old(self).beat_count,
            final(self).wf(),
    {
        let ghost s0 = *self;
        let rel = self.clock.relative_time(absolute_ms);
        self.matcher.expiry_pass(&mut self.queue, &mut self.result, rel);
        self.matcher.input_pass(&mut self.queue, &mut self.result, rel, presses);
        proof {
            lemma_expired_prefix_len_le(s0.queue@, window_of(s0), rel as int);
            lemma_presses_preserve_count(
                s0.queue@.skip(expired_prefix_len(s0.queue@, window_of(s0), rel as int) as int),
                window_of(s0),
                rel as int,
                presses@,
            );
            assert(self.result.results@ =~= s0.result.results@ + entries_after_tick(
                s0,
                absolute_ms as int,
                presses@,
            ));
        }
        self.interpolator.sync_with_queue(&self.queue);
        let update_outcome = self.interpolator.update(rel);
        if let Some(p) = update_outcome.0 {
            self.player.position = p;
        }
        if update_outcome.1 {
            self.machine.trigger(SessionStatus::Completed);
        }
        if self.player.health <= 0 {
            self.machine.trigger(SessionStatus::Failed);
        }
        self.result.status = self.machine.status();
    }

    /// The external health hook: the caller's miss-penalty policy hands
    /// in a delta, and the next tick's status check sees the new health.
    pub fn apply_health_delta(&mut self, delta: i32)
        requires
            i32::MIN <= old(self).player.health + delta <= i32::MAX,
        ensures
            final(self).player.health == old(self).player.health + delta,
            final(self).player.position == old(self).player.position,
            final(self).player.velocity == old(self).player.velocity,
            final(self).queue == old(self).queue,
            final(self).result == old(self).result,
            final(self).clock == old(self).clock,
            final(self).matcher == old(self).matcher,
            final(self).interpolator == old(self).interpolator,
            final(self).machine == old(self).machine,
            final(self).beat_count == old(self).beat_count,
            old(self).wf() ==> final(self).wf(),
    {
        self.player.health = self.player.health + delta;
    }
}

/// A press whose relative time lies outside `[t - window, t + window]`
/// for the time `t` of every queued event is a pure ignore across the
/// whole tick: expiry runs as always, but no press consumes an event or
/// records anything.
pub proof fn lemma_tick_ignores_out_of_window_presses(
    s: Session,
    abs: int,
    presses: Seq<Direction>,
)
    requires
        sorted_by_time(s.queue@),
        forall|i: int|
            0 <= i < s.queue@.len() ==> rel_of(s, abs) < (#[trigger] s.queue@[i]).time
                - window_of(s) || s.queue@[i].time + window_of(s) < rel_of(s, abs),
    ensures
        queue_after_tick(s, abs, presses) == s.queue@.skip(
            expired_prefix_len(s.queue@, window_of(s), rel_of(s, abs)) as int,
        ),
        entries_after_tick(s, abs, presses) == miss_late_entries(
            s.queue@.take(expired_prefix_len(s.queue@, window_of(s), rel_of(s, abs)) as int),
        ),
{
    let w = window_of(s);
    let rel = rel_of(s, abs);
    let k = expired_prefix_len(s.queue@, w, rel) as int;
    let live = s.queue@.skip(k);
    crate::matcher::lemma_expired_prefix_bounds(s.queue@, w, rel);
    assert(forall|i: int| 0 <= i < live.len() ==> #[trigger] live[i] == s.queue@[i + k]);
    crate::matcher::lemma_out_of_window_presses_ignored(live, w, rel, presses);
    assert(entries_after_tick(s, abs, presses) =~= miss_late_entries(s.queue@.take(k)));
}

/// At session end the record accounts for every beat event: once the
/// queue is empty, the record holds exactly one entry per original beat
/// point — never zero, never two.
pub proof fn lemma_every_event_accounted(s: Session)
    requires
        s.wf(),
        s.queue@.len() == 0,
    ensures
        s.result.results@.len() == s.beat_count,
{
}

} // verus!
