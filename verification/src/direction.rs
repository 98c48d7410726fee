//! The four directions a beat event or a key press can carry.

use vstd::prelude::*;

verus! {

/// A directional key: the only ordering-free datum of a beat event.
/// Equality is the only relation the engine ever asks of it.
#[derive(Clone, Copy, Debug, PartialEq, Eq, Structural)]
pub enum Direction {
    Up,
    Down,
    Left,
    Right,
}

} // verus!
