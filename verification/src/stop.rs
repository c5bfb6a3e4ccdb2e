//! The `stop` command: precondition checks and the wait-for-exit poll.
//!
//! Stopping a VM from the command line means signalling its supervising
//! process and polling for the pid marker to disappear. The decisions are
//! here; the signal, the sleep and the marker reads are the driver's.

use vstd::prelude::*;

use crate::exception::Exception;

verus! {

/// How many one-unit poll rounds the command waits for the guest to stop
/// before reporting failure.
pub const STOP_POLL_ATTEMPTS: u64 = 20;

/// The `stop` command: stops the VM of the given name.
pub struct Stop {
    pub name: String,
}

impl Stop {
    /// Decides whether a stop may proceed, before anything is signalled.
    /// An uninitialized VM and a VM with no live pid both fail at once,
    /// with no waiting; a live pid is returned for the driver to signal.
    pub fn precheck(&self, initialized: bool, pid: Option<i32>) -> (r: Result<i32, Exception>)
        ensures
            !initialized ==> (r matches Err(e) && e matches Exception::NotFoundError(m) && m@
                == "vm not initialized, name="@ + self.name@),
            initialized && pid is None ==> (r matches Err(e) && e
                matches Exception::NotFoundError(m) && m@ == "vm not running, name="@
                + self.name@),
            initialized ==> (pid matches Some(p) ==> r == Ok::<i32, Exception>(p)),
    {
        if !initialized {
            let mut m = String::new();
            m.append("vm not initialized, name=");
            m.append(self.name.as_str());
            assert(m@ =~= "vm not initialized, name="@ + self.name@);
            return Err(Exception::NotFoundError(m));
        }
        match pid {
            None => {
                let mut m = String::new();
                m.append("vm not running, name=");
                m.append(self.name.as_str());
                assert(m@ =~= "vm not running, name="@ + self.name@);
                Err(Exception::NotFoundError(m))
            },
            Some(p) => Ok(p),
        }
    }
}

/// What one poll round decides.
#[derive(Debug, Clone, Copy, PartialEq, Eq, Structural)]
pub enum PollOutcome {
    /// The pid marker is gone: the guest has stopped.
    Stopped,
    /// The attempt budget is spent and the guest still runs.
    GiveUp,
    /// Wait one more unit and poll again, carrying the attempt count.
    Continue { attempts: u64 },
}

/// One round of the wait-for-exit poll, taken after the driver slept one
/// unit and re-read the pid marker. `attempts` counts the rounds already
/// taken; `stopped` reports whether the marker is now absent.
pub fn poll_step(attempts: u64, stopped: bool) -> (r: PollOutcome)
    requires
        attempts < STOP_POLL_ATTEMPTS,
    ensures
        stopped ==> r is Stopped,
        !stopped && attempts + 1 == STOP_POLL_ATTEMPTS ==> r is GiveUp,
        !stopped && attempts + 1 < STOP_POLL_ATTEMPTS ==> r == (PollOutcome::Continue {
            attempts: (attempts + 1) as u64,
        }),
{
    if stopped {
        PollOutcome::Stopped
    } else if attempts + 1 >= STOP_POLL_ATTEMPTS {
        PollOutcome::GiveUp
    } else {
        PollOutcome::Continue { attempts: attempts + 1 }
    }
}

} // verus!
