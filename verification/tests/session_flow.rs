use rhythm_core::beat::BeatPoint;
use rhythm_core::direction::Direction;
use rhythm_core::hit_result::HitResult;
use rhythm_core::scoring::Grade;
use rhythm_core::scoring::compute_grade;
use rhythm_core::scoring::compute_score;
use rhythm_core::movement::sort_nodes_by_time;
use rhythm_core::movement::PositionNode;
use rhythm_core::movement::Vec3;
use rhythm_core::session::BeatMap;
use rhythm_core::session::Player;
use rhythm_core::session::Session;
use rhythm_core::status::SessionStatus;
use rhythm_core::status::SessionStatusMachine;

fn beat(direction: Direction, time: i64) -> BeatPoint {
    BeatPoint { direction, time }
}

fn node(x: i64, y: i64, z: i64, time: i64) -> PositionNode {
    PositionNode { position: Vec3 { x, y, z }, time }
}

fn session_with(points: Vec<BeatPoint>, nodes: Vec<PositionNode>) -> Session {
    let beatmap = BeatMap {
        name: String::from("test"),
        audio_offset: 0,
        beat_points: points,
        runtime_start: 0,
    };
    Session::new(beatmap, nodes, 200, 1, 2, Player::default())
}

#[test]
fn every_event_yields_exactly_one_outcome() {
    let mut session = session_with(
        vec![
            beat(Direction::Up, 1000),
            beat(Direction::Left, 2000),
            beat(Direction::Right, 3000),
        ],
        Vec::new(),
    );
    session.tick(1100, &vec![Direction::Up]);
    session.tick(10000, &Vec::new());
    assert_eq!(session.queue.len(), 0);
    assert_eq!(session.result.results.len(), 3);
    assert_eq!(session.result.results[0], (1000, HitResult::Hit));
    assert_eq!(session.result.results[1], (2000, HitResult::MissLate));
    assert_eq!(session.result.results[2], (3000, HitResult::MissLate));
}

#[test]
fn repeated_trigger_with_same_condition_is_a_no_op() {
    let mut machine = SessionStatusMachine::new();
    assert_eq!(machine.status(), SessionStatus::Running);
    machine.trigger(SessionStatus::Completed);
    assert_eq!(machine.status(), SessionStatus::Completed);
    machine.trigger(SessionStatus::Completed);
    assert_eq!(machine.status(), SessionStatus::Completed);
    // once terminal, even the other condition is rejected
    machine.trigger(SessionStatus::Failed);
    assert_eq!(machine.status(), SessionStatus::Completed);
}

#[test]
fn avatar_interpolates_towards_the_next_node() {
    // one beat at 1000 ms whose node stands at (1000, 140, 0); with
    // factor 1/2 the transition from (0,0,0)@0 lasts 500 ms
    let mut session = session_with(
        vec![beat(Direction::Up, 1000)],
        vec![node(1000, 140, 0, 1000)],
    );
    session.tick(250, &Vec::new());
    assert_eq!(session.player.position, Vec3 { x: 500, y: 70, z: 0 });
    assert_eq!(session.result.status, SessionStatus::Running);
}

#[test]
fn arrival_at_the_final_node_completes_the_session() {
    let mut session = session_with(
        vec![beat(Direction::Up, 1000)],
        vec![node(1000, 140, 0, 1000)],
    );
    session.tick(600, &Vec::new());
    assert_eq!(session.player.position, Vec3 { x: 1000, y: 140, z: 0 });
    assert_eq!(session.result.status, SessionStatus::Completed);
}

#[test]
fn holding_before_the_transition_start() {
    // the clock starts 3000 ms into absolute time, so early ticks run on
    // negative relative time and everything simply waits
    let beatmap = BeatMap {
        name: String::from("lead-in"),
        audio_offset: 0,
        beat_points: vec![beat(Direction::Up, 1000)],
        runtime_start: 3000,
    };
    let mut session = Session::new(
        beatmap,
        vec![node(1000, 140, 0, 1000)],
        200,
        1,
        2,
        Player::default(),
    );
    session.tick(1000, &vec![Direction::Up]);
    // relative time is -2000: no expiry, the press is early, no movement
    assert!(session.result.results.is_empty());
    assert_eq!(session.queue.len(), 1);
    assert_eq!(session.player.position, Vec3 { x: 0, y: 0, z: 0 });
    assert_eq!(session.result.status, SessionStatus::Running);
}

#[test]
fn anchor_nodes_sort_by_time() {
    let sorted = sort_nodes_by_time(vec![
        node(3, 0, 0, 300),
        node(1, 0, 0, 100),
        node(2, 0, 0, 200),
    ]);
    assert_eq!(
        sorted,
        vec![node(1, 0, 0, 100), node(2, 0, 0, 200), node(3, 0, 0, 300)]
    );
    assert_eq!(sort_nodes_by_time(Vec::new()), Vec::new());
}

#[test]
fn health_depletion_fails_the_session() {
    let mut session = session_with(vec![beat(Direction::Up, 1000)], Vec::new());
    session.apply_health_delta(-10);
    assert_eq!(session.player.health, 0);
    session.tick(100, &Vec::new());
    assert_eq!(session.result.status, SessionStatus::Failed);
    // terminal status sticks even after later ticks
    session.tick(5000, &Vec::new());
    assert_eq!(session.result.status, SessionStatus::Failed);
}

#[test]
fn full_session_reaches_the_score_screen() {
    let mut session = session_with(
        vec![
            beat(Direction::Up, 1000),
            beat(Direction::Down, 2000),
            beat(Direction::Left, 3000),
        ],
        vec![node(1000, 140, 1, 1000), node(2000, 140, 1, 2000), node(3000, 140, 1, 3000)],
    );
    // a timely hit, then a timely press of the wrong key
    session.tick(1000, &vec![Direction::Up]);
    session.tick(2050, &vec![Direction::Right]);
    assert_eq!(session.result.status, SessionStatus::Running);
    // no press: the avatar reaches the final node and the session completes
    session.tick(2600, &Vec::new());
    assert_eq!(session.result.status, SessionStatus::Completed);
    // a final timely hit; the terminal status stays as it is
    session.tick(3100, &vec![Direction::Left]);
    assert_eq!(
        session.result.results,
        vec![
            (1000, HitResult::Hit),
            (2000, HitResult::MissWrongKey),
            (3000, HitResult::Hit),
        ]
    );
    assert_eq!(session.result.status, SessionStatus::Completed);
    assert_eq!(compute_score(&session.result), 2100);
    // two hits of three is just under the 70% threshold
    assert_eq!(compute_grade(&session.result), Grade::B);
}

#[test]
fn shadow_follows_the_live_queue() {
    // two beats; matching the first advances the live queue, and the
    // next tick's movement then interpolates towards the second node
    let mut session = session_with(
        vec![beat(Direction::Up, 1000), beat(Direction::Down, 2000)],
        vec![node(1000, 0, 0, 1000), node(2000, 0, 0, 2000)],
    );
    session.tick(1000, &vec![Direction::Up]);
    assert_eq!(session.queue.len(), 1);
    // the shadow dropped the matched node: the avatar now moves from
    // (1000,0,0)@1000 towards (2000,0,0)@2000, a 500 ms transition
    session.tick(1250, &Vec::new());
    assert_eq!(session.player.position, Vec3 { x: 1500, y: 0, z: 0 });
}
