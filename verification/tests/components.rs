use rhythm_core::animation::AnimationState;
use rhythm_core::animation::AnimationStateRes;
use rhythm_core::animation::BeatPointAnimationSystem;
use rhythm_core::beat::BeatPoint;
use rhythm_core::beat::BeatQueue;
use rhythm_core::clock::GameplayClock;
use rhythm_core::command::GameplayCommand;
use rhythm_core::direction::Direction;
use rhythm_core::game_result::GameplayResult;
use rhythm_core::session::Player;
use rhythm_core::states::BeatmapButton;
use rhythm_core::states::TestState;
use rhythm_core::status::SessionStatus;

#[test]
fn beat_queue_pops_in_time_order() {
    let mut queue = BeatQueue::new(vec![
        BeatPoint { direction: Direction::Up, time: 100 },
        BeatPoint { direction: Direction::Down, time: 200 },
    ]);
    assert_eq!(queue.len(), 2);
    assert!(!queue.is_empty());
    assert_eq!(queue.peek().map(|p| p.time), Some(100));
    let first = queue.pop_front().unwrap();
    assert_eq!(first.direction, Direction::Up);
    assert_eq!(first.time, 100);
    assert_eq!(queue.pop_front().map(|p| p.time), Some(200));
    assert_eq!(queue.pop_front(), None);
    assert!(queue.is_empty());
}

#[test]
fn clock_reports_time_relative_to_the_session_start() {
    let clock = GameplayClock::new(3000);
    assert_eq!(clock.relative_time(4500), 1500);
    assert_eq!(clock.relative_time(1000), -2000);
    assert_eq!(clock.relative_time(3000), 0);
}

#[test]
fn fresh_record_is_empty_and_running() {
    let record = GameplayResult::default();
    assert!(record.results.is_empty());
    assert_eq!(record.status, SessionStatus::Running);
}

#[test]
fn default_player_has_full_health_at_the_origin() {
    let player = Player::default();
    assert_eq!(player.health, 10);
    assert_eq!(player.velocity, 1000);
    assert_eq!(player.position.x, 0);
    assert_eq!(player.position.y, 0);
    assert_eq!(player.position.z, 0);
}

#[test]
fn sprite_number_stages_the_countdown_per_direction() {
    let system = BeatPointAnimationSystem::default();
    // 250 ms left: stage 2; the up row starts at 0
    assert_eq!(system.sprite_number(Direction::Up, 1000, 750), 2);
    // far away: capped at stage 4
    assert_eq!(system.sprite_number(Direction::Up, 1000, 0), 4);
    // already past: stage 0
    assert_eq!(system.sprite_number(Direction::Up, 1000, 1100), 0);
    // each direction owns a block of five sprites
    assert_eq!(system.sprite_number(Direction::Down, 1000, 1000), 5);
    assert_eq!(system.sprite_number(Direction::Right, 1000, 1000), 10);
    assert_eq!(system.sprite_number(Direction::Left, 1000, 750), 17);
}

#[test]
fn flow_data_defaults() {
    assert_eq!(GameplayCommand::default(), GameplayCommand::BackToMenu);
    assert_eq!(AnimationState::default(), AnimationState::Idle);
    assert_eq!(AnimationStateRes::default().state, AnimationState::Idle);
    let state = TestState::new();
    assert_eq!(state, TestState::default());
    let button = BeatmapButton::new(String::from("maps/demo"));
    assert_eq!(button.beatmap, "maps/demo");
}
