//! Plain data of the surrounding game states: the map-selection button
//! payload and the placeholder state.

use vstd::prelude::*;

verus! {

/// The payload of a map-selection button: which beatmap it launches.
#[derive(Clone, Debug)]
pub struct BeatmapButton {
    pub beatmap: String,
}

impl BeatmapButton {
    /// A button for the named beatmap.
    pub fn new(beatmap: String) -> (b: BeatmapButton)
        ensures
            b.beatmap@ == beatmap@,
    {
        BeatmapButton { beatmap }
    }
}

/// A state that does nothing: a stand-in wherever the flow needs a
/// state and no behaviour.
#[derive(Clone, Copy, Debug, PartialEq, Eq, Structural, Default)]
pub struct TestState;

impl TestState {
    /// Creates a new TestState.
    pub fn new() -> (s: TestState)
        ensures
            s == TestState,
    {
        TestState {  }
    }
}

} // verus!
