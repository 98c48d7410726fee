//! The scoring engine: numeric score and letter grade of a finished
//! session, with the laws those two functions obey.

use vstd::prelude::*;

use crate::game_result::GameplayResult;
use crate::hit_result::HitResult;
use crate::status::SessionStatus;

verus! {

/// Letter outcome of a session, best to worst. A grade other than `F` is
/// meaningful only for a completed session.
#[derive(Clone, Copy, Debug, PartialEq, Eq, Structural)]
pub enum Grade {
    S,
    A,
    B,
    C,
    F,
}

/// The score each kind of outcome contributes.
pub open spec fn weight(h: HitResult) -> int {
    match h {
        HitResult::Hit => 1000,
        HitResult::MissWrongKey => 100,
        HitResult::MissEarly => 10,
        HitResult::MissLate => 10,
    }
}

/// The total score of a record: the sum of its entries' weights.
pub open spec fn score_of(s: Seq<(i64, HitResult)>) -> int
    decreases s.len(),
{
    if s.len() == 0 {
        0
    } else {
        score_of(s.drop_last()) + weight(s.last().1)
    }
}

/// How many entries of the record are hits.
pub open spec fn hit_count(s: Seq<(i64, HitResult)>) -> int
    decreases s.len(),
{
    if s.len() == 0 {
        0
    } else {
        hit_count(s.drop_last()) + if s.last().1 is Hit {
            1int
        } else {
            0int
        }
    }
}

/// The grade a hit ratio of `hits` out of `total` earns, by exact rational
/// comparison against the thresholds 0.40, 0.70 and 0.97, checked low to
/// high with strict upper bounds.
pub open spec fn grade_for_ratio(hits: int, total: int) -> Grade {
    if 100 * hits < 40 * total {
        Grade::C
    } else if 100 * hits < 70 * total {
        Grade::B
    } else if 100 * hits < 97 * total {
        Grade::A
    } else {
        Grade::S
    }
}

/// The grade of a record: the ratio grade when the session completed,
/// and `F` regardless of ratio otherwise.
pub open spec fn grade_of(status: SessionStatus, s: Seq<(i64, HitResult)>) -> Grade {
    if status is Completed {
        grade_for_ratio(hit_count(s), s.len() as int)
    } else {
        Grade::F
    }
}

/// Grades as ranks, worst to best, for stating monotonicity.
pub open spec fn grade_rank(g: Grade) -> int {
    match g {
        Grade::F => 0,
        Grade::C => 1,
        Grade::B => 2,
        Grade::A => 3,
        Grade::S => 4,
    }
}

/// Every score lies between 0 and 1000 per entry, and the hit count
/// between 0 and the record's length.
pub proof fn lemma_score_bounds(s: Seq<(i64, HitResult)>)
    ensures
        0 <= score_of(s) <= 1000 * s.len(),
        0 <= hit_count(s) <= s.len(),
    decreases s.len(),
{
    if s.len() > 0 {
        lemma_score_bounds(s.drop_last());
    }
}

/// Removing entry `i` takes exactly that entry's weight off the score.
proof fn lemma_score_remove(s: Seq<(i64, HitResult)>, i: int)
    requires
        0 <= i < s.len(),
    ensures
        score_of(s.remove(i)) == score_of(s) - weight(s[i].1),
    decreases s.len(),
{
    if i == s.len() - 1 {
        assert(s.remove(i) =~= s.drop_last());
    } else {
        lemma_score_remove(s.drop_last(), i);
        assert(s.remove(i).drop_last() =~= s.drop_last().remove(i));
        assert(s.remove(i).last() == s.last());
    }
}

/// The score is invariant under permutation of the record: two records
/// with the same entries, in any order, score the same.
pub proof fn lemma_score_permutation(s1: Seq<(i64, HitResult)>, s2: Seq<(i64, HitResult)>)
    requires
        s1.to_multiset() == s2.to_multiset(),
    ensures
        score_of(s1) == score_of(s2),
    decreases s1.len(),
{
    broadcast use vstd::seq_lib::to_multiset_len;
    broadcast use vstd::seq_lib::to_multiset_contains;
    broadcast use vstd::seq_lib::to_multiset_remove;

    if s1.len() == 0 {
        vstd::seq_lib::to_multiset_len(s1);
        vstd::seq_lib::to_multiset_len(s2);
        assert(s2.len() == 0);
    } else {
        let e = s1.last();
        let i1 = s1.len() - 1;
        assert(s1.contains(e));
        assert(s2.to_multiset().count(e) > 0);
        assert(s2.contains(e));
        let i2 = choose|j: int| 0 <= j < s2.len() && s2[j] == e;
        assert(s1.remove(i1).to_multiset() == s2.remove(i2).to_multiset());
        lemma_score_permutation(s1.remove(i1), s2.remove(i2));
        assert(s1.remove(i1) =~= s1.drop_last());
        lemma_score_remove(s2, i2);
    }
}

/// The grade never worsens as the hit ratio rises: with the length held
/// fixed, more hits can only keep or raise the grade's rank.
pub proof fn lemma_grade_monotonic(h1: int, h2: int, total: int)
    requires
        0 <= h1 <= h2 <= total,
    ensures
        grade_rank(grade_for_ratio(h1, total)) <= grade_rank(grade_for_ratio(h2, total)),
{
}

/// Sums the weight of every recorded outcome: 1000 per hit, 100 per
/// wrong-key miss, 10 per early or late miss. Reordering the record does
/// not change the sum.
pub fn compute_score(result: &GameplayResult) -> (score: u32)
    requires
        1000 * result.results@.len() <= u32::MAX,
    ensures
        score == score_of(result.results@),
{
    let s = &result.results;
    let mut score: u32 = 0;
    let mut i: usize = 0;
    while i < s.len()
        invariant
            0 <= i <= s@.len(),
            1000 * s@.len() <= u32::MAX,
            score == score_of(s@.take(i as int)),
        decreases s@.len() - i,
    {
        let w: u32 = match s[i].1 {
            HitResult::Hit => 1000,
            HitResult::MissWrongKey => 100,
            HitResult::MissEarly => 10,
            HitResult::MissLate => 10,
        };
        proof {
            lemma_score_bounds(s@.take(i as int));
            assert(s@.take(i + 1).drop_last() =~= s@.take(i as int));
            assert(s@.take(i + 1).last() == s@[i as int]);
        }
        score = score + w;
        i = i + 1;
    }
    proof {
        assert(s@.take(s@.len() as int) =~= s@);
    }
    score
}

/// Grades a record by its hit ratio. Only meaningful once the session is
/// terminal: a session that did not complete is graded `F` regardless of
/// ratio, and the record must be non-empty so that the ratio exists.
pub fn compute_grade(result: &GameplayResult) -> (g: Grade)
    requires
        result.results@.len() > 0,
    ensures
        g == grade_of(result.status, result.results@),
{
    if result.status != SessionStatus::Completed {
        return Grade::F;
    }
    let s = &result.results;
    let mut hits: usize = 0;
    let mut i: usize = 0;
    while i < s.len()
        invariant
            0 <= i <= s@.len(),
            hits == hit_count(s@.take(i as int)),
            hits <= i,
        decreases s@.len() - i,
    {
        proof {
            assert(s@.take(i + 1).drop_last() =~= s@.take(i as int));
            assert(s@.take(i + 1).last() == s@[i as int]);
        }
        if s[i].1 == HitResult::Hit {
            hits = hits + 1;
        }
        i = i + 1;
    }
    proof {
        assert(s@.take(s@.len() as int) =~= s@);
    }
    let total = s.len();
    let hits128 = hits as u128;
    let total128 = total as u128;
    if 100 * hits128 < 40 * total128 {
        Grade::C
    } else if 100 * hits128 < 70 * total128 {
        Grade::B
    } else if 100 * hits128 < 97 * total128 {
        Grade::A
    } else {
        Grade::S
    }
}

} // verus!
