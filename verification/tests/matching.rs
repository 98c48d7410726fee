use rhythm_core::beat::BeatPoint;
use rhythm_core::beat::BeatQueue;
use rhythm_core::direction::Direction;
use rhythm_core::game_result::GameplayResult;
use rhythm_core::hit_result::HitResult;
use rhythm_core::matcher::InputMatcher;

fn queue_of(points: Vec<BeatPoint>) -> BeatQueue {
    BeatQueue::new(points)
}

fn beat(direction: Direction, time: i64) -> BeatPoint {
    BeatPoint { direction, time }
}

#[test]
fn press_on_empty_queue_is_ignored() {
    let matcher = InputMatcher::new(200);
    let mut queue = queue_of(Vec::new());
    let mut record = GameplayResult::new();
    matcher.input_pass(&mut queue, &mut record, 1000, &vec![Direction::Up]);
    assert!(record.results.is_empty());
    assert!(queue.is_empty());
}

#[test]
fn early_press_leaves_event_in_place_without_record() {
    let matcher = InputMatcher::new(200);
    let mut queue = queue_of(vec![beat(Direction::Up, 1000)]);
    let mut record = GameplayResult::new();
    // 500 lies before the window [800, 1200]: a pure ignore
    matcher.input_pass(&mut queue, &mut record, 500, &vec![Direction::Up]);
    assert!(record.results.is_empty());
    assert_eq!(queue.len(), 1);
    // the event is still matchable afterwards
    matcher.input_pass(&mut queue, &mut record, 900, &vec![Direction::Up]);
    assert_eq!(record.results, vec![(1000, HitResult::Hit)]);
}

#[test]
fn window_boundaries_are_inclusive() {
    let matcher = InputMatcher::new(200);

    // a press exactly at time - window matches
    let mut queue = queue_of(vec![beat(Direction::Down, 1000)]);
    let mut record = GameplayResult::new();
    matcher.input_pass(&mut queue, &mut record, 800, &vec![Direction::Down]);
    assert_eq!(record.results, vec![(1000, HitResult::Hit)]);

    // at time + window the event has not expired and still matches
    let mut queue = queue_of(vec![beat(Direction::Down, 1000)]);
    let mut record = GameplayResult::new();
    matcher.expiry_pass(&mut queue, &mut record, 1200);
    assert!(record.results.is_empty());
    matcher.input_pass(&mut queue, &mut record, 1200, &vec![Direction::Down]);
    assert_eq!(record.results, vec![(1000, HitResult::Hit)]);

    // one past the window the event expires
    let mut queue = queue_of(vec![beat(Direction::Down, 1000)]);
    let mut record = GameplayResult::new();
    matcher.expiry_pass(&mut queue, &mut record, 1201);
    assert_eq!(record.results, vec![(1000, HitResult::MissLate)]);
}

#[test]
fn expiry_records_each_expired_event_once_in_order() {
    let matcher = InputMatcher::new(200);
    let mut queue = queue_of(vec![
        beat(Direction::Up, 1000),
        beat(Direction::Left, 2000),
        beat(Direction::Right, 5000),
    ]);
    let mut record = GameplayResult::new();
    matcher.expiry_pass(&mut queue, &mut record, 3000);
    assert_eq!(
        record.results,
        vec![(1000, HitResult::MissLate), (2000, HitResult::MissLate)]
    );
    assert_eq!(queue.len(), 1);
    // running the pass again at the same time changes nothing
    matcher.expiry_pass(&mut queue, &mut record, 3000);
    assert_eq!(record.results.len(), 2);
}

#[test]
fn presses_consume_events_in_arrival_order() {
    let matcher = InputMatcher::new(500);
    let mut queue = queue_of(vec![beat(Direction::Up, 1000), beat(Direction::Down, 1200)]);
    let mut record = GameplayResult::new();
    matcher.input_pass(
        &mut queue,
        &mut record,
        1100,
        &vec![Direction::Up, Direction::Up],
    );
    assert_eq!(
        record.results,
        vec![(1000, HitResult::Hit), (1200, HitResult::MissWrongKey)]
    );
    assert!(queue.is_empty());
}

#[test]
fn out_of_window_press_is_a_pure_ignore() {
    // the queued events' windows are [800,1200] and [2800,3200]; a press
    // at 2000 lies outside both and must leave everything untouched
    let matcher = InputMatcher::new(200);
    let mut queue = queue_of(vec![beat(Direction::Up, 1000), beat(Direction::Up, 3000)]);
    let mut record = GameplayResult::new();
    matcher.expiry_pass(&mut queue, &mut record, 2000);
    // the first event expired at 2000; the record notes it
    assert_eq!(record.results, vec![(1000, HitResult::MissLate)]);
    matcher.input_pass(&mut queue, &mut record, 2000, &vec![Direction::Up]);
    assert_eq!(record.results.len(), 1);
    assert_eq!(queue.len(), 1);
}
