//! What the gameplay flow should do once a session's outcome is shown.

use vstd::prelude::*;

verus! {

/// Tells the gameplay flow what to do next after the score screen:
/// return to the map selection menu, or retry the same beatmap.
#[derive(Clone, Copy, Debug, PartialEq, Eq, Structural)]
pub enum GameplayCommand {
    BackToMenu,
    Retry,
}

impl Default for GameplayCommand {
    /// Back to the menu unless something chose otherwise.
    fn default() -> (c: GameplayCommand)
        ensures
            c is BackToMenu,
    {
        GameplayCommand::BackToMenu
    }
}

} // verus!
