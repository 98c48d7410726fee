//! The outcome recorded for a consumed beat event.

use vstd::prelude::*;

verus! {

/// Exactly one of these is produced for each beat event that leaves the
/// queue: a timely press of the right key is a `Hit`, a timely press of a
/// wrong key a `MissWrongKey`, and an event that expires unmatched a
/// `MissLate`. `MissEarly` is reserved for a stricter policy that chooses
/// to penalise early presses; the engine itself never records it, it only
/// scores it.
#[derive(Clone, Copy, Debug, PartialEq, Eq, Structural)]
pub enum HitResult {
    Hit,
    MissWrongKey,
    MissEarly,
    MissLate,
}

} // verus!
