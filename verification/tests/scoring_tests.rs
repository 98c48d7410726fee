use rhythm_core::game_result::GameplayResult;
use rhythm_core::hit_result::HitResult;
use rhythm_core::scoring::Grade;
use rhythm_core::scoring::compute_grade;
use rhythm_core::scoring::compute_score;
use rhythm_core::status::SessionStatus;

fn completed(results: Vec<(i64, HitResult)>) -> GameplayResult {
    GameplayResult { results, status: SessionStatus::Completed }
}

fn with_hits(hits: usize, total: usize) -> GameplayResult {
    let mut results = Vec::new();
    for i in 0..total {
        let outcome = if i < hits { HitResult::Hit } else { HitResult::MissLate };
        results.push((i as i64 * 1000, outcome));
    }
    completed(results)
}

fn rank(g: Grade) -> u32 {
    match g {
        Grade::F => 0,
        Grade::C => 1,
        Grade::B => 2,
        Grade::A => 3,
        Grade::S => 4,
    }
}

#[test]
fn score_weights_each_outcome_kind() {
    assert_eq!(compute_score(&completed(Vec::new())), 0);
    let mixed = completed(vec![
        (0, HitResult::Hit),
        (1, HitResult::MissWrongKey),
        (2, HitResult::MissEarly),
        (3, HitResult::MissLate),
    ]);
    assert_eq!(compute_score(&mixed), 1000 + 100 + 10 + 10);
}

#[test]
fn score_is_invariant_under_permutation() {
    let forward = completed(vec![
        (0, HitResult::Hit),
        (1, HitResult::MissWrongKey),
        (2, HitResult::Hit),
        (3, HitResult::MissLate),
    ]);
    let shuffled = completed(vec![
        (3, HitResult::MissLate),
        (2, HitResult::Hit),
        (0, HitResult::Hit),
        (1, HitResult::MissWrongKey),
    ]);
    assert_eq!(compute_score(&forward), compute_score(&shuffled));
    assert_eq!(compute_score(&forward), 2110);
}

#[test]
fn grade_thresholds_have_strict_upper_bounds() {
    // below 40% is a C; exactly 40% is a B
    assert_eq!(compute_grade(&with_hits(39, 100)), Grade::C);
    assert_eq!(compute_grade(&with_hits(40, 100)), Grade::B);
    // below 70% is a B; exactly 70% is an A
    assert_eq!(compute_grade(&with_hits(69, 100)), Grade::B);
    assert_eq!(compute_grade(&with_hits(70, 100)), Grade::A);
    // below 97% is an A; exactly 97% is an S
    assert_eq!(compute_grade(&with_hits(96, 100)), Grade::A);
    assert_eq!(compute_grade(&with_hits(97, 100)), Grade::S);
    assert_eq!(compute_grade(&with_hits(100, 100)), Grade::S);
    assert_eq!(compute_grade(&with_hits(0, 100)), Grade::C);
}

#[test]
fn grade_never_falls_as_hits_rise() {
    let mut previous = 0;
    for hits in 0..=10 {
        let r = rank(compute_grade(&with_hits(hits, 10)));
        assert!(r >= previous);
        previous = r;
    }
}
