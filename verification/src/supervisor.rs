//! Supervisor-tick helpers. The supervisor is a single thread: each tick
//! it reaps exited children, drains the control FIFO and sleeps; there
//! are no worker threads and no background tasks.

use vstd::prelude::*;

use crate::sys::sys_waitpid_nohang;
use crate::sys::WaitOutcome;

verus! {

/// Reaps every child that has exited, without blocking, and reports the
/// reaped ones (exited with a code, or killed by a signal) so the caller
/// can log them and reconcile rooms whose init died. Stops when no child
/// has changed state or there are no children left.
pub fn reap_zombies() -> (r: Vec<WaitOutcome>)
    ensures
        forall|i: int| 0 <= i < r@.len() ==> ((#[trigger] r@[i]) is Exited || r@[i] is Signaled),
{
    let mut reaped: Vec<WaitOutcome> = Vec::new();
    let mut rounds: usize = 0;
    while rounds < 1024
        invariant
            0 <= rounds <= 1024,
            forall|i: int| 0 <= i < reaped@.len() ==> ((#[trigger] reaped@[i]) is Exited
                || reaped@[i] is Signaled),
        decreases 1024 - rounds,
    {
        match sys_waitpid_nohang(-1) {
            WaitOutcome::Exited(pid, status) => {
                reaped.push(WaitOutcome::Exited(pid, status));
            },
            WaitOutcome::Signaled(pid) => {
                reaped.push(WaitOutcome::Signaled(pid));
            },
            WaitOutcome::StillAlive => {
                return reaped;
            },
            WaitOutcome::NoChild => {
                return reaped;
            },
            WaitOutcome::Other => {
                return reaped;
            },
            WaitOutcome::Failed(_) => {
                return reaped;
            },
        }
        rounds += 1;
    }
    reaped
}

} // verus!
