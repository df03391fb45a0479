//! The state of a stream's termination hook: a callback that must run
//! exactly once, when the inner stream first reports itself terminated.

use vstd::prelude::*;

verus! {

/// Whether the hook still waits to run.
pub struct TerminationHook {
    pub armed: bool,
}

impl TerminationHook {
    pub fn new() -> (r: TerminationHook)
        ensures
            r.armed,
    {
        TerminationHook { armed: true }
    }

    /// Decide after one poll of the inner stream: the hook runs exactly
    /// when it is still armed and the stream has terminated, and is
    /// disarmed the moment it runs.
    pub fn on_poll(&mut self, inner_terminated: bool) -> (run_hook: bool)
        ensures
            run_hook == (old(self).armed && inner_terminated),
            final(self).armed == (old(self).armed && !inner_terminated),
    {
        if self.armed && inner_terminated {
            self.armed = false;
            true
        } else {
            if inner_terminated {
                self.armed = false;
            }
            false
        }
    }

    pub fn is_armed(&self) -> (r: bool)
        ensures
            r == self.armed,
    {
        self.armed
    }
}

} // verus!
