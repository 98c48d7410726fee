//! The record a session accumulates and hands to the scoring engine.

use vstd::prelude::*;

use crate::hit_result::HitResult;
use crate::status::SessionStatus;

verus! {

/// The outcome record of a session: one `(time, HitResult)` entry per
/// consumed beat event, in consumption order, plus the session status.
/// `results` is append-only while the session runs; the record is handed
/// to the scoring engine once the status is terminal.
pub struct GameplayResult {
    pub results: Vec<(i64, HitResult)>,
    pub status: SessionStatus,
}

impl GameplayResult {
    /// An empty record for a session that is about to run.
    pub fn new() -> (r: GameplayResult)
        ensures
            r.results@ =~= Seq::<(i64, HitResult)>::empty(),
            r.status is Running,
    {
        GameplayResult { results: Vec::new(), status: SessionStatus::Running }
    }
}

impl Default for GameplayResult {
    /// The same empty record `new` builds.
    fn default() -> (r: GameplayResult)
        ensures
            r.results@ =~= Seq::<(i64, HitResult)>::empty(),
            r.status is Running,
    {
        GameplayResult::new()
    }
}

} // verus!
