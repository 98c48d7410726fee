//! The movement interpolator: drives the player avatar's position along
//! interpolated transitions between beat nodes.

use vstd::prelude::*;

use vstd::arithmetic::div_mod::lemma_div_basics_1;
use vstd::arithmetic::div_mod::lemma_div_is_ordered;
use vstd::arithmetic::div_mod::lemma_div_multiples_vanish;
use vstd::arithmetic::div_mod::lemma_div_pos_is_pos;
use vstd::arithmetic::mul::lemma_mul_inequality;

use crate::beat::BeatQueue;
use crate::units::TIME_LIMIT_MS;
use crate::units::coord_in_range;
use crate::units::rel_time_in_range;
use crate::units::time_in_range;

verus! {

/// Largest denominator (and so numerator) of the interpolation factor.
pub const FACTOR_LIMIT: i64 = 1_000_000;

/// A position in the game world, in integer fixed-point units.
#[derive(Clone, Copy, Debug, PartialEq, Eq, Structural)]
pub struct Vec3 {
    pub x: i64,
    pub y: i64,
    pub z: i64,
}

/// An anchor the avatar moves between: a world position paired with the
/// time of the beat event it belongs to.
#[derive(Clone, Copy, Debug, PartialEq, Eq, Structural)]
pub struct PositionNode {
    pub position: Vec3,
    pub time: i64,
}

/// A node whose time and coordinates lie in the engine's working range.
pub open spec fn node_in_range(n: PositionNode) -> bool {
    &&& time_in_range(n.time as int)
    &&& coord_in_range(n.position.x as int)
    &&& coord_in_range(n.position.y as int)
    &&& coord_in_range(n.position.z as int)
}

/// A sequence of nodes sorted by time, each within range.
pub open spec fn nodes_well_formed(s: Seq<PositionNode>) -> bool {
    &&& forall|i: int, j: int| 0 <= i < j < s.len() ==> s[i].time <= s[j].time
    &&& forall|i: int| 0 <= i < s.len() ==> node_in_range(#[trigger] s[i])
}

/// The transition duration from a node at `t0` to one at `t1`, scaled by
/// the interpolation factor `num / den`.
pub open spec fn duration_of(t0: int, t1: int, num: int, den: int) -> int {
    ((t1 - t0) * num) / den
}

/// One coordinate of the interpolated position, `off` of the way through
/// a transition of length `dur` from `a` to `b`. Stated so that both
/// divisions act on non-negative dividends.
pub open spec fn lerp_coord(a: int, b: int, off: int, dur: int) -> int {
    if b >= a {
        a + ((b - a) * off) / dur
    } else {
        a - ((a - b) * off) / dur
    }
}

/// The product of two non-negative quantities is bounded by the product
/// of their bounds.
proof fn lemma_mul_bounds(x: int, y: int, bx: int, by: int)
    requires
        0 <= x <= bx,
        0 <= y <= by,
    ensures
        x * y <= bx * by,
{
    lemma_mul_inequality(x, bx, y);
    lemma_mul_inequality(y, by, bx);
}

/// A fraction `num / den` of a non-negative quantity is between zero and
/// the quantity itself.
proof fn lemma_scaled_fraction_bounds(x: int, num: int, den: int)
    requires
        0 <= x,
        0 <= num <= den,
        0 < den,
    ensures
        0 <= (x * num) / den <= x,
{
    lemma_mul_inequality(0, x, num);
    lemma_mul_inequality(num, den, x);
    lemma_div_pos_is_pos(x * num, den);
    lemma_div_is_ordered(x * num, x * den, den);
    lemma_div_multiples_vanish(x, den);
}

/// Whether the transition from `last` towards `front` has run its full
/// scaled duration by relative time `rel`, so the avatar has arrived.
pub open spec fn arrived(last: PositionNode, front: PositionNode, num: int, den: int, rel: int) -> bool {
    rel >= last.time + duration_of(last.time as int, front.time as int, num, den)
}

/// The position one update yields while a front node exists: the front's
/// position after arrival, the last node's position before the transition
/// begins, and the coordinate-wise interpolation in between.
pub open spec fn update_position(
    last: PositionNode,
    front: PositionNode,
    num: int,
    den: int,
    rel: int,
) -> Vec3 {
    let t0 = last.time as int;
    let dur = duration_of(t0, front.time as int, num, den);
    if rel >= t0 + dur {
        front.position
    } else if rel <= t0 {
        last.position
    } else {
        Vec3 {
            x: lerp_coord(last.position.x as int, front.position.x as int, rel - t0, dur) as i64,
            y: lerp_coord(last.position.y as int, front.position.y as int, rel - t0, dur) as i64,
            z: lerp_coord(last.position.z as int, front.position.z as int, rel - t0, dur) as i64,
        }
    }
}

/// How many leading shadow nodes fail to match the live queue's front
/// time: the live queue has advanced past those nodes.
pub open spec fn sync_drop_count(nodes: Seq<PositionNode>, front_time: Option<i64>) -> nat
    decreases nodes.len(),
{
    if nodes.len() == 0 {
        0
    } else if front_time == Some(nodes[0].time) {
        0
    } else {
        1 + sync_drop_count(nodes.drop_first(), front_time)
    }
}

/// The time of the live queue's front event, if any.
pub open spec fn front_time_of(q: Seq<crate::beat::BeatPoint>) -> Option<i64> {
    if q.len() == 0 {
        None
    } else {
        Some(q[0].time)
    }
}

/// The shadow left after catching up with live queue `q`.
pub open spec fn synced_nodes(
    nodes: Seq<PositionNode>,
    q: Seq<crate::beat::BeatPoint>,
) -> Seq<PositionNode> {
    nodes.skip(sync_drop_count(nodes, front_time_of(q)) as int)
}

/// The last node after catching up with live queue `q`: the most
/// recently passed anchor, or the previous last node if none was passed.
pub open spec fn synced_last(
    nodes: Seq<PositionNode>,
    last: PositionNode,
    q: Seq<crate::beat::BeatPoint>,
) -> PositionNode {
    if sync_drop_count(nodes, front_time_of(q)) == 0 {
        last
    } else {
        nodes[sync_drop_count(nodes, front_time_of(q)) - 1]
    }
}

/// Sorted except that the element at `hole` may still be out of place
/// with respect to the elements before it, within the prefix `0..=upto`.
spec fn sorted_prefix_except(s: Seq<PositionNode>, upto: int, hole: int) -> bool {
    forall|a: int, b: int|
        0 <= a < b <= upto && b != hole ==> (#[trigger] s[a]).time <= (#[trigger] s[b]).time
}

/// Sorts anchors by time, keeping exactly the given anchors: the shadow
/// is built from world entities whose iteration order is arbitrary, so
/// the interpolator's caller sorts them first.
pub fn sort_nodes_by_time(nodes: Vec<PositionNode>) -> (r: Vec<PositionNode>)
    ensures
        r@.len() == nodes@.len(),
        r@.to_multiset() == nodes@.to_multiset(),
        forall|a: int, b: int| 0 <= a < b < r@.len() ==> r@[a].time <= r@[b].time,
{
    broadcast use vstd::seq_lib::to_multiset_update;
    broadcast use vstd::seq_lib::to_multiset_len;
    broadcast use vstd::multiset::group_multiset_axioms;

    let mut v = nodes;
    let ghost m0 = v@.to_multiset();
    if v.len() == 0 {
        return v;
    }
    let mut i: usize = 1;
    while i < v.len()
        invariant
            1 <= i <= v@.len(),
            v@.len() == nodes@.len(),
            v@.to_multiset() == m0,
            m0 == nodes@.to_multiset(),
            forall|a: int, b: int|
                0 <= a < b < i ==> (#[trigger] v@[a]).time <= (#[trigger] v@[b]).time,
        decreases v@.len() - i,
    {
        let mut j: usize = i;
        while j > 0 && v[j - 1].time > v[j].time
            invariant
                0 <= j <= i < v@.len(),
                v@.len() == nodes@.len(),
                v@.to_multiset() == m0,
                sorted_prefix_except(v@, i as int, j as int),
                forall|b: int|
                    j < b <= i ==> (#[trigger] v@[j as int]).time <= v@[b].time,
            decreases j,
        {
            let ghost prev = v@;
            let earlier = v[j];
            let later = v[j - 1];
            v.set(j - 1, earlier);
            v.set(j, later);
            proof {
                broadcast use vstd::multiset::group_multiset_properties;

                let mid = prev.update(j - 1, earlier);
                vstd::seq_lib::to_multiset_update(prev, j - 1, earlier);
                vstd::seq_lib::to_multiset_update(mid, j as int, later);
                vstd::seq_lib::to_multiset_contains(prev, later);
                assert(prev.contains(later));
                assert(mid[j as int] == earlier);
                assert(v@ == mid.update(j as int, later));
                assert(v@.to_multiset() =~= m0);
            }
            j = j - 1;
        }
        proof {
            assert forall|a: int, b: int| 0 <= a < b <= i implies (#[trigger] v@[a]).time <= (
            #[trigger] v@[b]).time by {
                if b == j && j > 0 {
                    if a < j - 1 {
                        assert(v@[a].time <= v@[j - 1].time);
                    }
                    assert(v@[j - 1].time <= v@[j as int].time);
                }
            };
        }
        i = i + 1;
    }
    v
}

/// Computes the avatar's continuously interpolated position. It keeps
/// `last_node`, the node most recently arrived at, and a read-only shadow
/// of upcoming `(position, time)` anchors, one per beat event, matched to
/// the live queue by time. The position is a pure function of
/// `(last_node, the shadow's front, relative time)`, so repeating an
/// update within one tick changes nothing further.
pub struct MovementInterpolator {
    last_node: PositionNode,
    nodes: Vec<PositionNode>,
    factor_num: i64,
    factor_den: i64,
}

impl MovementInterpolator {
    /// The shadow view: the anchors not yet passed.
    pub closed spec fn nodes_spec(&self) -> Seq<PositionNode> {
        self.nodes@
    }

    /// The node the avatar last arrived at.
    pub closed spec fn last_node_spec(&self) -> PositionNode {
        self.last_node
    }

    /// The interpolation factor, as numerator and denominator.
    pub closed spec fn factor_spec(&self) -> (int, int) {
        (self.factor_num as int, self.factor_den as int)
    }

    /// Sorted in-range anchors, a factor in `(0, 1]`, and a last node no
    /// later than the shadow's front.
    pub open spec fn wf(&self) -> bool {
        &&& nodes_well_formed(self.nodes_spec())
        &&& node_in_range(self.last_node_spec())
        &&& self.nodes_spec().len() > 0 ==> self.last_node_spec().time
            <= self.nodes_spec()[0].time
        &&& 0 < self.factor_spec().0 <= self.factor_spec().1 <= FACTOR_LIMIT
    }

    /// The scaled duration of the transition towards the shadow's front.
    pub open spec fn current_duration(&self) -> int
        recommends
            self.nodes_spec().len() > 0,
    {
        duration_of(
            self.last_node_spec().time as int,
            self.nodes_spec()[0].time as int,
            self.factor_spec().0,
            self.factor_spec().1,
        )
    }

    /// A fresh interpolator: the last node is the avatar's starting
    /// position at time zero, and the shadow holds the given anchors.
    pub fn new(
        start_position: Vec3,
        nodes: Vec<PositionNode>,
        factor_num: i64,
        factor_den: i64,
    ) -> (m: MovementInterpolator)
        requires
            nodes_well_formed(nodes@),
            nodes@.len() > 0 ==> nodes@[0].time >= 0,
            coord_in_range(start_position.x as int),
            coord_in_range(start_position.y as int),
            coord_in_range(start_position.z as int),
            0 < factor_num <= factor_den <= FACTOR_LIMIT,
        ensures
            m.nodes_spec() == nodes@,
            m.last_node_spec() == (PositionNode { position: start_position, time: 0i64 }),
            m.factor_spec() == (factor_num as int, factor_den as int),
            m.wf(),
    {
        MovementInterpolator {
            last_node: PositionNode { position: start_position, time: 0 },
            nodes,
            factor_num,
            factor_den,
        }
    }

    /// Catches the shadow up with the live queue: while the shadow's
    /// front time does not match the live front, the live queue has
    /// advanced past that node, so it is popped and becomes `last_node`.
    pub fn sync_with_queue(&mut self, queue: &BeatQueue)
        requires
            old(self).wf(),
        ensures
            final(self).nodes_spec() == old(self).nodes_spec().skip(
                sync_drop_count(old(self).nodes_spec(), front_time_of(queue@)) as int,
            ),
            final(self).last_node_spec() == if sync_drop_count(
                old(self).nodes_spec(),
                front_time_of(queue@),
            ) == 0 {
                old(self).last_node_spec()
            } else {
                old(self).nodes_spec()[sync_drop_count(
                    old(self).nodes_spec(),
                    front_time_of(queue@),
                ) - 1]
            },
            final(self).factor_spec() == old(self).factor_spec(),
            final(self).wf(),
    {
        let ghost n0 = self.nodes@;
        let ghost l0 = self.last_node;
        let ghost fn0 = self.factor_num;
        let ghost fd0 = self.factor_den;
        let ghost ft = front_time_of(queue@);
        let front_time: Option<i64> = match queue.peek() {
            Some(p) => Some(p.time),
            None => None,
        };
        let ghost mut j: int = 0;
        loop
            invariant
                front_time == ft,
                nodes_well_formed(n0),
                node_in_range(l0),
                n0.len() > 0 ==> l0.time <= n0[0].time,
                0 <= j <= n0.len(),
                self.nodes@ == n0.skip(j),
                self.last_node == if j == 0 {
                    l0
                } else {
                    n0[j - 1]
                },
                self.factor_num == fn0,
                self.factor_den == fd0,
                self.wf(),
                forall|i: int| 0 <= i < j ==> ft != Some((#[trigger] n0[i]).time),
            ensures
                self.nodes@ == n0.skip(j),
                self.last_node == if j == 0 {
                    l0
                } else {
                    n0[j - 1]
                },
                self.factor_num == fn0,
                self.factor_den == fd0,
                self.wf(),
                0 <= j <= n0.len(),
                j == n0.len() || ft == Some(n0[j].time),
                forall|i: int| 0 <= i < j ==> ft != Some((#[trigger] n0[i]).time),
            decreases n0.len() - j,
        {
            if self.nodes.len() == 0 {
                break;
            }
            let matches_front = match front_time {
                Some(t) => self.nodes[0].time == t,
                None => false,
            };
            if matches_front {
                break;
            }
            proof {
                assert(n0.skip(j)[0] == n0[j]);
            }
            let passed = self.nodes.remove(0);
            self.last_node = passed;
            proof {
                assert(self.nodes@ =~= n0.skip(j + 1));
                j = j + 1;
            }
        }
        proof {
            lemma_sync_drop_count_at(n0, ft, j);
        }
    }

    /// One position update at relative time `rel`.
    ///
    /// With an empty shadow the position is held and nothing changes.
    /// Otherwise the avatar is `rel - last.time` of the way through a
    /// transition of scaled duration towards the shadow's front: before
    /// the transition starts it stands on the last node, during it the
    /// position is interpolated coordinate-wise, and once the duration
    /// has elapsed it snaps onto the front node, which becomes
    /// `last_node`; reaching it with no further node signals completion.
    pub fn update(&mut self, rel: i64) -> (r: (Option<Vec3>, bool))
        requires
            old(self).wf(),
            rel_time_in_range(rel as int),
        ensures
            final(self).nodes_spec() == old(self).nodes_spec(),
            final(self).factor_spec() == old(self).factor_spec(),
            final(self).wf(),
            old(self).nodes_spec().len() == 0 ==> final(self).last_node_spec() == old(
                self,
            ).last_node_spec() && r.0 is None && r.1 == false,
            old(self).nodes_spec().len() > 0 ==> {
                &&& r.0 == Some(update_position(
                    old(self).last_node_spec(),
                    old(self).nodes_spec()[0],
                    old(self).factor_spec().0,
                    old(self).factor_spec().1,
                    rel as int,
                ))
                &&& final(self).last_node_spec() == if arrived(
                    old(self).last_node_spec(),
                    old(self).nodes_spec()[0],
                    old(self).factor_spec().0,
                    old(self).factor_spec().1,
                    rel as int,
                ) {
                    old(self).nodes_spec()[0]
                } else {
                    old(self).last_node_spec()
                }
                &&& (r.1 <==> arrived(
                    old(self).last_node_spec(),
                    old(self).nodes_spec()[0],
                    old(self).factor_spec().0,
                    old(self).factor_spec().1,
                    rel as int,
                ) && old(self).nodes_spec().len() == 1)
            },
    {
        if self.nodes.len() == 0 {
            return (None, false);
        }
        let target = self.nodes[0];
        let last = self.last_node;
        let span = target.time - last.time;
        proof {
            lemma_mul_bounds(span as int, self.factor_num as int, 2 * TIME_LIMIT_MS as int, FACTOR_LIMIT as int);
            lemma_scaled_fraction_bounds(span as int, self.factor_num as int, self.factor_den as int);
        }
        let dur = (((span as u64) * (self.factor_num as u64)) / (self.factor_den as u64)) as i64;
        assert(dur as int == self.current_duration());
        if rel >= last.time + dur {
            // arrived: snap onto the target node
            self.last_node = target;
            let completed = self.nodes.len() == 1;
            (Some(target.position), completed)
        } else if rel <= last.time {
            // the transition has not begun: hold the last node's position
            (Some(last.position), false)
        } else {
            let off = rel - last.time;
            let x = lerp_axis(last.position.x, target.position.x, off, dur);
            let y = lerp_axis(last.position.y, target.position.y, off, dur);
            let z = lerp_axis(last.position.z, target.position.z, off, dur);
            (Some(Vec3 { x, y, z }), false)
        }
    }
}

/// One interpolated coordinate, `off` of the way from `a` to `b` through
/// a transition of length `dur`.
fn lerp_axis(a: i64, b: i64, off: i64, dur: i64) -> (r: i64)
    requires
        coord_in_range(a as int),
        coord_in_range(b as int),
        0 < off < dur,
        dur <= 2 * TIME_LIMIT_MS,
    ensures
        r as int == lerp_coord(a as int, b as int, off as int, dur as int),
{
    if b >= a {
        let diff = b - a;
        proof {
            lemma_mul_bounds(diff as int, off as int, 2_000_000_000int, 2_000_000_000int);
            lemma_scaled_fraction_bounds(diff as int, off as int, dur as int);
        }
        let step = (((diff as u64) * (off as u64)) / (dur as u64)) as i64;
        a + step
    } else {
        let diff = a - b;
        proof {
            lemma_mul_bounds(diff as int, off as int, 2_000_000_000int, 2_000_000_000int);
            lemma_scaled_fraction_bounds(diff as int, off as int, dur as int);
        }
        let step = (((diff as u64) * (off as u64)) / (dur as u64)) as i64;
        a - step
    }
}

/// The position is a pure function of `(last_node, the shadow's front,
/// relative time)`: repeating an update at the same relative time yields
/// the same position and moves no state, whether or not the first update
/// arrived and snapped onto the front node.
pub proof fn lemma_update_idempotent(
    last: PositionNode,
    front: PositionNode,
    num: int,
    den: int,
    rel: int,
)
    requires
        0 < den,
    ensures
        ({
            let last2 = if arrived(last, front, num, den, rel) {
                front
            } else {
                last
            };
            &&& update_position(last2, front, num, den, rel) == update_position(
                last,
                front,
                num,
                den,
                rel,
            )
            &&& (if arrived(last2, front, num, den, rel) {
                front
            } else {
                last2
            }) == last2
        }),
{
    if arrived(last, front, num, den, rel) {
        assert((front.time - front.time) * num == 0);
        lemma_div_basics_1(den);
        assert(duration_of(front.time as int, front.time as int, num, den) == 0);
    }
}

/// Pins down `sync_drop_count`: if the first `j` nodes all mismatch the
/// front time and the `j`-th matches (or the shadow ends there), the
/// count is exactly `j`.
proof fn lemma_sync_drop_count_at(nodes: Seq<PositionNode>, front_time: Option<i64>, j: int)
    requires
        0 <= j <= nodes.len(),
        forall|i: int| 0 <= i < j ==> front_time != Some((#[trigger] nodes[i]).time),
        j == nodes.len() || front_time == Some(nodes[j].time),
    ensures
        sync_drop_count(nodes, front_time) == j,
    decreases nodes.len(),
{
    if j == 0 {
    } else {
        assert(front_time != Some(nodes[0].time));
        let tail = nodes.drop_first();
        assert(forall|i: int|
            0 <= i < j - 1 ==> front_time != Some((#[trigger] tail[i]).time)) by {
            assert(forall|i: int| 0 <= i < j - 1 ==> tail[i] == nodes[i + 1]);
        };
        assert(j - 1 == tail.len() || front_time == Some(tail[j - 1].time));
        lemma_sync_drop_count_at(tail, front_time, j - 1);
    }
}

} // verus!
