//! The traced process.

use vstd::prelude::*;
use crate::patch::BytePatch;
use crate::protocol::{Reply, Request};
use crate::resume::Resume;
use crate::status::{LaunchError, WaitStatus, SIGTRAP};
use crate::tracer::{answers, is_trace_request, perform};
use crate::unwind::Unwind;
use crate::wait::StopWait;

verus! {

/// A live process under trace, stopped at launch before its first instruction.
#[derive(Debug, PartialEq, Eq)]
pub struct Inferior {
    pid: i32,
}

impl View for Inferior {
    type V = i32;

    /// The process id.
    closed spec fn view(&self) -> i32 {
        self.pid
    }
}

/// A launched process is under trace exactly if its first status is a stop at a trap.
pub open spec fn stopped_at_entry(initial: WaitStatus) -> bool {
    initial == WaitStatus::Stopped(SIGTRAP)
}

impl Inferior {
    /// Takes charge of the launched process `pid`, whose first status is
    /// `initial`. Any first status but a stop at a trap is a failed launch.
    pub fn new(pid: i32, initial: WaitStatus) -> (launched: Result<Inferior, LaunchError>)
        ensures
            match launched {
                Ok(inferior) => stopped_at_entry(initial) && inferior@ == pid,
                Err(e) => !stopped_at_entry(initial) && e == LaunchError::UnexpectedInitialStatus,
            },
    {
        match initial {
            WaitStatus::Stopped(signal) => {
                if signal == SIGTRAP {
                    Ok(Inferior { pid })
                } else {
                    Err(LaunchError::UnexpectedInitialStatus)
                }
            },
            _ => Err(LaunchError::UnexpectedInitialStatus),
        }
    }

    /// The process id.
    pub fn pid(&self) -> (pid: i32)
        ensures
            pid == self@,
    {
        self.pid
    }

    /// Begins to let the process go on.
    pub fn cont(&self) -> (resume: Resume)
        ensures
            resume == Resume::Inspecting,
    {
        Resume::Inspecting
    }

    /// Begins to wait for the next stop or the end of the process.
    pub fn wait(&self) -> (wait: StopWait)
        ensures
            wait == StopWait::Waiting,
    {
        StopWait::Waiting
    }

    /// Begins to write `val` at `addr` in the memory of the process.
    pub fn write_byte(&self, addr: usize, val: u8) -> (patch: BytePatch)
        ensures
            patch == BytePatch::start(addr, val),
    {
        BytePatch::new(addr, val)
    }

    /// Begins a backtrace of the process.
    pub fn print_backtrace(&self) -> (unwind: Unwind)
        ensures
            unwind == Unwind::Inspecting,
    {
        Unwind::new()
    }

    /// The request that ends the process and reaps it.
    pub fn kill(&self) -> (request: Request)
        ensures
            request == Request::Kill,
    {
        Request::Kill
    }

    /// Carries out a trace request on the process and gives the answer.
    /// Requests that are not for the traced process are not carried out.
    pub fn perform(&self, request: &Request) -> (reply: Option<Reply>)
        ensures
            match reply {
                Some(reply) => is_trace_request(*request) && answers(*request, reply),
                None => !is_trace_request(*request),
            },
    {
        perform(self.pid, request)
    }
}

} // verus!
