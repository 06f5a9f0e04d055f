//! The flag behind a wait for termination. Whoever owns the lock and the
//! condition variable keeps the flag under the lock and asks it after every
//! wake.

use vstd::prelude::*;

verus! {

/// What a waiter does after a wake.
#[derive(Copy, Clone, Debug, PartialEq, Eq, Structural)]
pub enum WakeAction {
    /// Wait again: the wake was spurious.
    WaitAgain,
    /// Go on: termination was requested.
    Proceed,
}

/// Whether the process is still meant to run.
pub struct TerminationFlag {
    running: bool,
}

impl TerminationFlag {
    /// Whether termination has not been requested yet.
    pub closed spec fn running(&self) -> bool {
        self.running
    }

    /// The flag of a process that runs.
    pub fn new() -> (flag: Self)
        ensures
            flag.running(),
    {
        TerminationFlag { running: true }
    }

    /// Requests termination. Waiters are to be notified afterwards.
    pub fn request(&mut self)
        ensures
            !final(self).running(),
    {
        self.running = false;
    }

    /// Whether termination has been requested.
    pub fn is_requested(&self) -> (requested: bool)
        ensures
            requested == !self.running(),
    {
        !self.running
    }

    /// What a waiter does after a wake: it goes on only if termination was
    /// requested, whatever woke it.
    pub fn on_wake(&self) -> (action: WakeAction)
        ensures
            action == (if self.running() {
                WakeAction::WaitAgain
            } else {
                WakeAction::Proceed
            }),
    {
        if self.running {
            WakeAction::WaitAgain
        } else {
            WakeAction::Proceed
        }
    }
}

} // verus!
