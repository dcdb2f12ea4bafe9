//! Waiting for the traced process to stop or end.

use vstd::prelude::*;
use crate::protocol::{Progress, Reply, Request};
use crate::status::{Status, TraceError, WaitStatus};

verus! {

/// A wait in progress.
#[derive(Clone, Copy, Debug, PartialEq, Eq, Structural)]
pub enum StopWait {
    /// The status change is awaited.
    Waiting,
    /// The process was stopped by this signal; the registers are being read to learn where.
    Locating(i32),
}

impl StopWait {
    /// The request whose answer the wait needs next.
    pub open spec fn awaited(self) -> Request {
        match self {
            StopWait::Waiting => Request::Wait,
            StopWait::Locating(_) => Request::GetRegisters,
        }
    }

    /// Where the wait stands after `reply`.
    ///
    /// An exit or a killing signal ends the wait at once. A stop is reported
    /// together with the instruction pointer, read from the registers.
    pub open spec fn resumed(self, reply: Reply) -> Progress<StopWait, Result<Status, TraceError>> {
        match (self, reply) {
            (StopWait::Waiting, Reply::Status(WaitStatus::Exited(code))) => Progress::Done(
                Ok(Status::Exited(code)),
            ),
            (StopWait::Waiting, Reply::Status(WaitStatus::Signaled(signal))) => Progress::Done(
                Ok(Status::Signaled(signal)),
            ),
            (StopWait::Waiting, Reply::Status(WaitStatus::Stopped(signal))) => Progress::Pending(
                StopWait::Locating(signal),
            ),
            (StopWait::Waiting, Reply::Failed(errno)) => Progress::Done(
                Err(TraceError::Control(errno)),
            ),
            (StopWait::Locating(signal), Reply::Registers(regs)) => Progress::Done(
                Ok(Status::Stopped(signal, regs.ip())),
            ),
            (StopWait::Locating(_), Reply::Failed(errno)) => Progress::Done(
                Err(TraceError::Register(errno)),
            ),
            _ => Progress::Done(Err(TraceError::Unexpected)),
        }
    }

    /// The request to perform next.
    pub fn request(&self) -> (request: Request)
        ensures
            request == self.awaited(),
    {
        match self {
            StopWait::Waiting => Request::Wait,
            StopWait::Locating(_) => Request::GetRegisters,
        }
    }

    /// Takes the answer to the awaited request and moves on.
    pub fn resume(self, reply: Reply) -> (next: Progress<StopWait, Result<Status, TraceError>>)
        requires
            reply.is_handled(),
        ensures
            next == self.resumed(reply),
    {
        match self {
            StopWait::Waiting => match reply {
                Reply::Status(WaitStatus::Exited(code)) => Progress::Done(Ok(Status::Exited(code))),
                Reply::Status(WaitStatus::Signaled(signal)) => Progress::Done(
                    Ok(Status::Signaled(signal)),
                ),
                Reply::Status(WaitStatus::Stopped(signal)) => Progress::Pending(
                    StopWait::Locating(signal),
                ),
                Reply::Failed(errno) => Progress::Done(Err(TraceError::Control(errno))),
                _ => Progress::Done(Err(TraceError::Unexpected)),
            },
            StopWait::Locating(signal) => match reply {
                Reply::Registers(regs) => Progress::Done(
                    Ok(Status::Stopped(signal, regs.instruction_pointer())),
                ),
                Reply::Failed(errno) => Progress::Done(Err(TraceError::Register(errno))),
                _ => Progress::Done(Err(TraceError::Unexpected)),
            },
        }
    }
}

} // verus!
