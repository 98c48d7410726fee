//! Session status and the little machine that guards its transitions.

use vstd::prelude::*;

verus! {

/// Where the session stands. It starts `Running` and moves to `Completed`
/// or `Failed` exactly once; a terminal status never changes again.
#[derive(Clone, Copy, Debug, PartialEq, Eq, Structural)]
pub enum SessionStatus {
    Running,
    Completed,
    Failed,
}

/// What a trigger makes of the current status: a running session adopts
/// the requested terminal status, a terminal one is left untouched.
pub open spec fn status_after_trigger(
    current: SessionStatus,
    terminal: SessionStatus,
) -> SessionStatus {
    if current is Running {
        terminal
    } else {
        current
    }
}

/// Tracks the session status. Completion is triggered when the movement
/// interpolator reports that the final beat node was reached; failure is
/// triggered by an external health-depletion condition. Repeating a
/// trigger on a terminal machine is a no-op, never an error.
pub struct SessionStatusMachine {
    status: SessionStatus,
}

impl SessionStatusMachine {
    /// The status the machine currently holds.
    pub closed spec fn status_spec(&self) -> SessionStatus {
        self.status
    }

    /// A fresh machine for a session that is about to run.
    pub fn new() -> (m: SessionStatusMachine)
        ensures
            m.status_spec() is Running,
    {
        SessionStatusMachine { status: SessionStatus::Running }
    }

    /// Reads the current status.
    pub fn status(&self) -> (s: SessionStatus)
        ensures
            s == self.status_spec(),
    {
        self.status
    }

    /// Requests a transition to the given terminal status. Only a running
    /// machine moves; once terminal, every further trigger is ignored.
    pub fn trigger(&mut self, terminal: SessionStatus)
        requires
            terminal is Completed || terminal is Failed,
        ensures
            final(self).status_spec() == status_after_trigger(
                old(self).status_spec(),
                terminal,
            ),
    {
        if self.status == SessionStatus::Running {
            self.status = terminal;
        }
    }
}

/// Triggering twice with the same terminal condition changes nothing after
/// the first transition: the status a second trigger yields is the status
/// the first one already produced.
pub proof fn lemma_trigger_idempotent(current: SessionStatus, terminal: SessionStatus)
    ensures
        status_after_trigger(status_after_trigger(current, terminal), terminal)
            == status_after_trigger(current, terminal),
{
}

} // verus!
