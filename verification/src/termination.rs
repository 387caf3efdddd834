//! The graceful-termination sequencer: terminate, wait out a grace window,
//! then force-kill the whole process group.
//!
//! The termination signal goes to the entire process group, not just the
//! direct child, because a worker command may itself fork descendants that
//! share the group.  Signalling and reaping are operating-system calls made
//! outside the library; this module decides, after each non-blocking wait,
//! what the sequencer does next.

use vstd::prelude::*;

verus! {

/// How long a termination-signalled process is given to exit voluntarily
/// before it is force-killed, in milliseconds.
pub const GRACE_WINDOW_MS: u64 = 2000;

/// How long the sequencer sleeps between non-blocking waits, in
/// milliseconds.
pub const TERMINATION_POLL_MS: u64 = 50;

/// What the sequencer does after one non-blocking wait.
#[derive(Clone, Copy, PartialEq, Eq, Debug, Structural)]
pub enum TerminationAction {
    /// The process exited and was reaped: done.
    Finished,
    /// Still alive and within the grace window: sleep and poll again.
    Poll,
    /// The grace window has passed: force-kill the whole group, then reap.
    ForceKill,
}

/// Decide the next step of the terminate-wait-kill sequence: `reaped` is
/// whether the non-blocking wait just collected the process, `elapsed_ms`
/// how long ago the termination signal was sent.
pub fn termination_step(reaped: bool, elapsed_ms: u64, grace_ms: u64) -> (r: TerminationAction)
    ensures
        reaped ==> r == TerminationAction::Finished,
        !reaped && elapsed_ms < grace_ms ==> r == TerminationAction::Poll,
        !reaped && elapsed_ms >= grace_ms ==> r == TerminationAction::ForceKill,
{
    if reaped {
        TerminationAction::Finished
    } else if elapsed_ms < grace_ms {
        TerminationAction::Poll
    } else {
        TerminationAction::ForceKill
    }
}

} // verus!
