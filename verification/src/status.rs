//! What a wait on the traced process can report.

use vstd::prelude::*;

verus! {

/// Number of the trace/breakpoint trap signal.
pub const SIGTRAP: i32 = 5;

/// A status change of the traced process as the operating system reports it.
#[derive(Clone, Copy, Debug, PartialEq, Eq, Structural)]
pub enum WaitStatus {
    /// The process ended normally with this exit code.
    Exited(i32),
    /// The process was ended by this signal.
    Signaled(i32),
    /// The process was stopped by this signal.
    Stopped(i32),
    /// Any other status change, which the debugger does not handle.
    Other,
}

/// Why the traced process is no longer running.
#[derive(Clone, Copy, Debug, PartialEq, Eq, Structural)]
pub enum Status {
    /// Stopped by the signal, at the instruction pointer.
    Stopped(i32, usize),
    /// Ended normally with the exit code.
    Exited(i32),
    /// Ended by the signal.
    Signaled(i32),
}

/// Why a launch did not give a traced process.
#[derive(Clone, Copy, Debug, PartialEq, Eq, Structural)]
pub enum LaunchError {
    /// The executable could not be started.
    SpawnFailed,
    /// The new process did not stop at a trap before its first instruction.
    UnexpectedInitialStatus,
}

/// A trace operation that the operating system refused, with its error number.
#[derive(Clone, Copy, Debug, PartialEq, Eq, Structural)]
pub enum TraceError {
    /// Reading or writing a word of target memory failed.
    Memory(i32),
    /// Reading or writing the registers failed.
    Register(i32),
    /// Resuming, stepping or waiting failed.
    Control(i32),
    /// The answer did not belong to the request.
    Unexpected,
}

impl WaitStatus {
    /// The status is one that a wait on a traced process is meant to see.
    pub open spec fn is_handled(self) -> bool {
        !(self is Other)
    }

    /// The status means that the process is gone.
    pub open spec fn is_final(self) -> bool {
        self is Exited || self is Signaled
    }

    /// Whether the process is gone after this status.
    pub fn ended(&self) -> (gone: bool)
        ensures
            gone == self.is_final(),
    {
        match self {
            WaitStatus::Exited(_) => true,
            WaitStatus::Signaled(_) => true,
            _ => false,
        }
    }
}

} // verus!
