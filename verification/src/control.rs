//! Whether the monitor runs, as the window tracks it: at most one monitor
//! at a time, a stop request raised to end it, cleared for the next one.

use vstd::prelude::*;
use crate::daemon::{request_stop, reset, ShutdownFlag};

verus! {

/// Whether a monitor thread is running.
pub struct MonitorControl {
    running: bool,
}

impl View for MonitorControl {
    type V = bool;

    /// Whether a monitor thread is running.
    closed spec fn view(&self) -> bool {
        self.running
    }
}

impl MonitorControl {
    /// No monitor running.
    pub fn new() -> (r: MonitorControl)
        ensures
            !r@,
    {
        MonitorControl { running: false }
    }

    /// Whether a monitor is running.
    pub fn is_running(&self) -> (r: bool)
        ensures
            r == self@,
    {
        self.running
    }

    /// Whether a request to start the monitor goes ahead: only when none is
    /// running.
    pub fn start_monitor(&self) -> (r: bool)
        ensures
            r == !self@,
    {
        !self.running
    }

    /// A monitor thread has been launched: the stop request is cleared and
    /// the monitor is running.
    pub fn monitor_started(&mut self, flag: &mut ShutdownFlag)
        ensures
            final(self)@,
            !final(flag)@,
    {
        reset(flag);
        self.running = true;
    }

    /// A request to stop the monitor: when one is running, the stop request
    /// is raised and the result is true (the program then waits for the
    /// thread and calls `monitor_ended`); otherwise nothing changes.
    pub fn stop_monitor(&self, flag: &mut ShutdownFlag) -> (r: bool)
        ensures
            r == self@,
            r ==> final(flag)@,
            !r ==> final(flag)@ == old(flag)@,
    {
        if self.running {
            request_stop(flag);
            true
        } else {
            false
        }
    }

    /// Whether the monitor thread has to be collected: one is running and
    /// its thread has finished.
    pub fn poll_monitor(&self, thread_finished: bool) -> (r: bool)
        ensures
            r == (self@ && thread_finished),
    {
        self.running && thread_finished
    }

    /// The monitor thread has ended: the stop request is cleared and no
    /// monitor is running, so a new one may start.
    pub fn monitor_ended(&mut self, flag: &mut ShutdownFlag)
        ensures
            !final(self)@,
            !final(flag)@,
    {
        reset(flag);
        self.running = false;
    }
}

} // verus!
