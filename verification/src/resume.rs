//! Letting a stopped target go on.
//!
//! If the target stopped because the trap of an active breakpoint fired, it
//! is first stepped over that breakpoint. Then it is made to run, and its
//! next stop or its end is awaited.

use vstd::prelude::*;
use crate::breakpoint::{
    code_kept,
    is_trap_behind,
    same_program,
    traced,
    trap_behind_of,
    traps_in_place,
    well_formed,
    Breakpoint,
    BreakpointTable,
};
use crate::protocol::{runs, Progress, Reply, Request};
use crate::status::{Status, TraceError};
use crate::step_over::{
    lemma_step_over_keeps_program,
    lemma_step_over_keeps_traps,
    lemma_step_over_starts_in_step,
    StepOver,
    StepOverOutcome,
    StepOverStage,
};
use crate::wait::StopWait;

verus! {

/// How far a resume has come.
#[derive(Clone, Copy, Debug, PartialEq, Eq, Structural)]
pub enum Resume {
    /// The registers are being read to see where the target stands.
    Inspecting,
    /// The target is being stepped over the breakpoint it stopped at.
    SteppingOver(StepOver),
    /// The target is being made to run.
    Continuing,
    /// The next stop or the end of the target is awaited.
    Waiting(StopWait),
}

impl Resume {
    /// A step in progress belongs to the table.
    pub open spec fn wf(self, entries: Seq<Breakpoint>) -> bool {
        self matches Resume::SteppingOver(step) ==> step.wf(entries)
    }

    /// The request whose answer the resume needs next.
    pub open spec fn awaited(self) -> Request {
        match self {
            Resume::Inspecting => Request::GetRegisters,
            Resume::SteppingOver(step) => step.awaited(),
            Resume::Continuing => Request::Cont,
            Resume::Waiting(wait) => wait.awaited(),
        }
    }

    /// The table and the resume after `reply`.
    ///
    /// The target is stepped over a breakpoint exactly when its instruction
    /// pointer is one byte past an active one. If the step ends the target,
    /// that is the result and the target is not made to run. Otherwise the
    /// result is what the wait after the run reports.
    pub open spec fn resumed(self, entries: Seq<Breakpoint>, reply: Reply) -> (
        Seq<Breakpoint>,
        Progress<Resume, Result<Status, TraceError>>,
    ) {
        match self {
            Resume::Inspecting => match reply {
                Reply::Registers(regs) => match trap_behind_of(entries, regs.ip()) {
                    Some(number) => (
                        entries,
                        Progress::Pending(
                            Resume::SteppingOver(StepOver::start(entries, number, regs)),
                        ),
                    ),
                    None => (entries, Progress::Pending(Resume::Continuing)),
                },
                Reply::Failed(errno) => (entries, Progress::Done(Err(TraceError::Register(errno)))),
                _ => (entries, Progress::Done(Err(TraceError::Unexpected))),
            },
            Resume::SteppingOver(step) => {
                let (table, next) = step.resumed(entries, reply);
                match next {
                    Progress::Pending(step) => (
                        table,
                        Progress::Pending(Resume::SteppingOver(step)),
                    ),
                    Progress::Done(Ok(StepOverOutcome::StillStopped)) => (
                        table,
                        Progress::Pending(Resume::Continuing),
                    ),
                    Progress::Done(Ok(StepOverOutcome::Exited(code))) => (
                        table,
                        Progress::Done(Ok(Status::Exited(code))),
                    ),
                    Progress::Done(Ok(StepOverOutcome::Signaled(signal))) => (
                        table,
                        Progress::Done(Ok(Status::Signaled(signal))),
                    ),
                    Progress::Done(Err(e)) => (table, Progress::Done(Err(e))),
                }
            },
            Resume::Continuing => match reply {
                Reply::Done => (entries, Progress::Pending(Resume::Waiting(StopWait::Waiting))),
                Reply::Failed(errno) => (entries, Progress::Done(Err(TraceError::Control(errno)))),
                _ => (entries, Progress::Done(Err(TraceError::Unexpected))),
            },
            Resume::Waiting(wait) => match wait.resumed(reply) {
                Progress::Pending(wait) => (entries, Progress::Pending(Resume::Waiting(wait))),
                Progress::Done(result) => (entries, Progress::Done(result)),
            },
        }
    }

    /// The request to perform next.
    pub fn request(&self) -> (request: Request)
        ensures
            request == self.awaited(),
    {
        match self {
            Resume::Inspecting => Request::GetRegisters,
            Resume::SteppingOver(step) => step.request(),
            Resume::Continuing => Request::Cont,
            Resume::Waiting(wait) => wait.request(),
        }
    }

    /// Whether the resume waits for the target to stop or end.
    pub fn is_waiting(&self) -> (waiting: bool)
        ensures
            waiting == (self.awaited() == Request::Wait),
    {
        match self {
            Resume::SteppingOver(step) => match step.stage {
                StepOverStage::Settling(StopWait::Waiting) => true,
                _ => false,
            },
            Resume::Waiting(StopWait::Waiting) => true,
            _ => false,
        }
    }

    /// Takes the answer to the awaited request and moves on.
    pub fn resume(self, table: &mut BreakpointTable, reply: Reply) -> (next: Progress<
        Resume,
        Result<Status, TraceError>,
    >)
        requires
            old(table).wf(),
            self.wf(old(table)@),
            reply.is_handled(),
        ensures
            (final(table)@, next) == self.resumed(old(table)@, reply),
            final(table).wf(),
            next matches Progress::Pending(resume) ==> resume.wf(final(table)@),
    {
        match self {
            Resume::Inspecting => match reply {
                Reply::Registers(regs) => match table.trap_behind(regs.instruction_pointer()) {
                    Some(number) => Progress::Pending(
                        Resume::SteppingOver(StepOver::new(table, number, regs)),
                    ),
                    None => Progress::Pending(Resume::Continuing),
                },
                Reply::Failed(errno) => Progress::Done(Err(TraceError::Register(errno))),
                _ => Progress::Done(Err(TraceError::Unexpected)),
            },
            Resume::SteppingOver(step) => match step.resume(table, reply) {
                Progress::Pending(step) => Progress::Pending(Resume::SteppingOver(step)),
                Progress::Done(Ok(StepOverOutcome::StillStopped)) => Progress::Pending(
                    Resume::Continuing,
                ),
                Progress::Done(Ok(StepOverOutcome::Exited(code))) => Progress::Done(
                    Ok(Status::Exited(code)),
                ),
                Progress::Done(Ok(StepOverOutcome::Signaled(signal))) => Progress::Done(
                    Ok(Status::Signaled(signal)),
                ),
                Progress::Done(Err(e)) => Progress::Done(Err(e)),
            },
            Resume::Continuing => match reply {
                Reply::Done => Progress::Pending(Resume::Waiting(StopWait::Waiting)),
                Reply::Failed(errno) => Progress::Done(Err(TraceError::Control(errno))),
                _ => Progress::Done(Err(TraceError::Unexpected)),
            },
            Resume::Waiting(wait) => match wait.resume(reply) {
                Progress::Pending(wait) => Progress::Pending(Resume::Waiting(wait)),
                Progress::Done(result) => Progress::Done(result),
            },
        }
    }

    /// The table, the resume and the memory of the target agree: every
    /// active breakpoint has its trap in memory, but for the one that is
    /// being stepped over.
    pub open spec fn in_step(self, entries: Seq<Breakpoint>, mem: Map<usize, u64>) -> bool {
        &&& well_formed(entries)
        &&& match self {
            Resume::SteppingOver(step) => step.in_step(entries, mem),
            _ => traps_in_place(entries, mem),
        }
    }
}

/// Every turn of a resume keeps table and memory in agreement, against a
/// target under trace. So whenever the target is made to run, and whenever
/// the resume ends, every active breakpoint has its trap in memory.
pub proof fn lemma_resume_keeps_traps(
    resume: Resume,
    entries: Seq<Breakpoint>,
    mem: Map<usize, u64>,
    reply: Reply,
    after: Map<usize, u64>,
)
    requires
        resume.in_step(entries, mem),
        traced(entries, mem, resume.awaited(), reply, after),
    ensures
        ({
            let (table, next) = resume.resumed(entries, reply);
            match next {
                Progress::Pending(resume) => {
                    &&& resume.in_step(table, after)
                    &&& resume.awaited() is Cont ==> traps_in_place(table, after)
                },
                Progress::Done(_) => well_formed(table) && traps_in_place(table, after),
            }
        }),
{
    match resume {
        Resume::Inspecting => {
            assert(after == mem);
            if let Reply::Registers(regs) = reply {
                if let Some(number) = trap_behind_of(entries, regs.ip()) {
                    let i = choose|i: int| is_trap_behind(entries, regs.ip(), i);
                    assert(number == i);
                    lemma_step_over_starts_in_step(entries, number, regs, mem);
                }
            }
        },
        Resume::SteppingOver(step) => {
            lemma_step_over_keeps_traps(step, entries, mem, reply, after);
        },
        Resume::Continuing => {
            lemma_kept_code_keeps_traps(entries, mem, after);
        },
        Resume::Waiting(wait) => {
            if wait is Waiting {
                lemma_kept_code_keeps_traps(entries, mem, after);
            } else {
                assert(after == mem);
            }
        },
    }
}

/// No turn of a resume changes the program, but for what the program does
/// to itself while it runs.
pub proof fn lemma_resume_keeps_program(
    resume: Resume,
    entries: Seq<Breakpoint>,
    mem: Map<usize, u64>,
    reply: Reply,
    after: Map<usize, u64>,
)
    requires
        resume.in_step(entries, mem),
        traced(entries, mem, resume.awaited(), reply, after),
        !runs(resume.awaited()),
    ensures
        same_program(entries, mem, resume.resumed(entries, reply).0, after),
{
    if let Resume::SteppingOver(step) = resume {
        lemma_step_over_keeps_program(step, entries, mem, reply, after);
    }
}

/// A breakpoint that the target was stepped over is active again, with the
/// saved byte it had, by the time the target is made to run.
pub proof fn lemma_resume_rearms(
    step: StepOver,
    entries: Seq<Breakpoint>,
    reply: Reply,
)
    requires
        step.wf(entries),
        Resume::SteppingOver(step).resumed(entries, reply).1 == Progress::<
            Resume,
            Result<Status, TraceError>,
        >::Pending(Resume::Continuing),
    ensures
        ({
            let table = Resume::SteppingOver(step).resumed(entries, reply).0;
            &&& table[step.number as int].is_active
            &&& table[step.number as int].address == step.address
            &&& table[step.number as int].saved_byte == Some(step.saved)
        }),
{
}

/// Traps stay in place when the bytes at all breakpoint addresses do.
proof fn lemma_kept_code_keeps_traps(
    entries: Seq<Breakpoint>,
    mem: Map<usize, u64>,
    after: Map<usize, u64>,
)
    requires
        traps_in_place(entries, mem),
        code_kept(entries, mem, after),
    ensures
        traps_in_place(entries, after),
{
}

} // verus!
