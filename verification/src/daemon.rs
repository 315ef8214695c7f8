//! The stop request shared between the window and the monitor.

use vstd::prelude::*;

verus! {

/// Whether the monitor has been asked to stop.  The program keeps one of
/// these behind a lock, shared by the window and the monitor thread.
pub struct ShutdownFlag {
    requested: bool,
}

impl View for ShutdownFlag {
    type V = bool;

    /// Whether a stop has been requested.
    closed spec fn view(&self) -> bool {
        self.requested
    }
}

impl ShutdownFlag {
    /// A flag with no stop requested.
    pub fn new() -> (r: ShutdownFlag)
        ensures
            !r@,
    {
        ShutdownFlag { requested: false }
    }
}

/// Whether the monitor should stop now.
pub fn should_shutdown(flag: &ShutdownFlag) -> (r: bool)
    ensures
        r == flag@,
{
    flag.requested
}

/// Asks the monitor to stop.
pub fn request_stop(flag: &mut ShutdownFlag)
    ensures
        final(flag)@,
{
    flag.requested = true;
}

/// Clears a stop request, so that a new monitor runs.
pub fn reset(flag: &mut ShutdownFlag)
    ensures
        !final(flag)@,
{
    flag.requested = false;
}

} // verus!
