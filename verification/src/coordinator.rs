//! Shutdown coordinator: intercepts the shell's close request and defers
//! the actual close until supervisor cleanup has finished, so no window
//! disappears while a backend process or a temp directory is still being
//! torn down. A second close request while closing is ignored.

use vstd::prelude::*;

verus! {

#[derive(PartialEq, Eq, Structural)]
pub enum ShellPhase {
    Open,
    Closing,
}

/// What one close request does: the phase is `Closing` afterwards, and
/// cleanup begins only on the transition out of `Open`.
pub open spec fn close_post(
    pre: ShellPhase,
    post: ShellPhase,
    begin: bool,
) -> bool {
    &&& post == ShellPhase::Closing
    &&& begin == (pre == ShellPhase::Open)
}

/// The two-phase gate in front of the window close.
pub struct ShutdownCoordinator {
    phase: ShellPhase,
}

impl ShutdownCoordinator {
    pub closed spec fn phase_view(&self) -> ShellPhase {
        self.phase
    }

    /// A coordinator for a freshly opened shell.
    pub fn new() -> (r: Self)
        ensures
            r.phase_view() == ShellPhase::Open,
    {
        ShutdownCoordinator { phase: ShellPhase::Open }
    }

    /// Consumes one close request. When it returns true the caller must
    /// suppress the platform's default close, announce that closing began,
    /// run the supervisor shutdown off the UI thread, and close the window
    /// once that returns; when it returns false a close is already under
    /// way and the request is dropped.
    pub fn request_close(&mut self) -> (begin: bool)
        ensures
            close_post(old(self).phase_view(), final(self).phase_view(), begin),
    {
        let begin = self.phase == ShellPhase::Open;
        self.phase = ShellPhase::Closing;
        begin
    }
}

/// A second close request while one is under way is ignored: it starts no
/// second cleanup and leaves the phase as it was.
pub proof fn lemma_second_close_ignored(
    p1: ShellPhase,
    p2: ShellPhase,
    p3: ShellPhase,
    b2: bool,
    b3: bool,
)
    requires
        close_post(p1, p2, b2),
        close_post(p2, p3, b3),
    ensures
        !b3,
        p3 == p2,
{
}

} // verus!
