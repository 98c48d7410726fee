//! Animation state of the player avatar, and the beat-point sprite
//! staging that visual layers read off the countdown to each event.

use vstd::prelude::*;

use crate::direction::Direction;
use crate::units::rel_time_in_range;
use crate::units::time_in_range;

verus! {

/// What the avatar is doing, as far as a visual layer cares.
#[derive(Clone, Copy, Debug, PartialEq, Eq, Structural)]
pub enum AnimationState {
    Running,
    Jumping,
    Falling,
    Idle,
}

impl Default for AnimationState {
    /// No animation until something happens.
    fn default() -> (s: AnimationState)
        ensures
            s is Idle,
    {
        AnimationState::Idle
    }
}

/// The avatar's current animation state, kept alongside the session.
#[derive(Clone, Copy, Debug, PartialEq, Eq, Structural)]
pub struct AnimationStateRes {
    pub state: AnimationState,
}

impl Default for AnimationStateRes {
    /// Holds the default animation state.
    fn default() -> (r: AnimationStateRes)
        ensures
            r.state is Idle,
    {
        AnimationStateRes { state: AnimationState::Idle }
    }
}

/// Milliseconds of countdown each animation stage covers.
pub const STAGE_LENGTH_MS: i64 = 100;

/// The last animation stage; stages run from 0 (imminent) to this.
pub const MAX_STAGE: usize = 4;

/// The row a direction's sprites occupy: each direction owns a block of
/// `MAX_STAGE + 1` consecutive sprite numbers.
pub open spec fn direction_row(d: Direction) -> int {
    match d {
        Direction::Up => 0,
        Direction::Down => 1,
        Direction::Right => 2,
        Direction::Left => 3,
    }
}

/// The stage of an event's countdown: how many whole stage lengths are
/// left until the event, floored at zero and capped at the last stage.
pub open spec fn countdown_stage(beat_time: int, rel: int) -> int {
    let left = if beat_time - rel >= 0 {
        beat_time - rel
    } else {
        0
    };
    if left / (STAGE_LENGTH_MS as int) > MAX_STAGE as int {
        MAX_STAGE as int
    } else {
        left / (STAGE_LENGTH_MS as int)
    }
}

/// Animates beat-point sprites: each event shows the sprite of its
/// direction's row at the stage of its remaining countdown.
#[derive(Clone, Copy, Debug, PartialEq, Eq, Structural, Default)]
pub struct BeatPointAnimationSystem;

impl BeatPointAnimationSystem {
    /// The sprite number for an event in direction `direction` at beat
    /// time `beat_time`, seen at relative time `rel`.
    pub fn sprite_number(&self, direction: Direction, beat_time: i64, rel: i64) -> (n: usize)
        requires
            time_in_range(beat_time as int),
            rel_time_in_range(rel as int),
        ensures
            n == countdown_stage(beat_time as int, rel as int) + 5 * direction_row(direction),
    {
        let row: usize = match direction {
            Direction::Up => 0,
            Direction::Down => 1,
            Direction::Right => 2,
            Direction::Left => 3,
        };
        let left: i64 = if beat_time >= rel {
            beat_time - rel
        } else {
            0
        };
        let quotient = (left as u64) / (STAGE_LENGTH_MS as u64);
        let stage: usize = if quotient > MAX_STAGE as u64 {
            MAX_STAGE
        } else {
            quotient as usize
        };
        stage + 5 * row
    }
}

} // verus!
