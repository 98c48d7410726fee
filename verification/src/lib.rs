//! Core logic of a rhythm game: a time-sorted queue of directional beat
//! events is matched against player key presses, the outcomes are scored
//! and graded, and the player avatar's position is interpolated between
//! beat nodes. Times are integer milliseconds and coordinates integer
//! fixed-point units, so that every computation here is exact.

pub mod animation;
pub mod beat;
pub mod clock;
pub mod command;
pub mod direction;
pub mod game_result;
pub mod hit_result;
pub mod matcher;
pub mod movement;
pub mod scoring;
pub mod session;
pub mod states;
pub mod status;
pub mod units;
