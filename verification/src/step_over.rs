//! Stepping over a breakpoint whose trap has just fired.
//!
//! The trap occupies the first byte of the instruction it replaced, and the
//! target stops one byte past it. Before the target can go on, the original
//! byte is put back, the instruction pointer is moved back onto it, exactly
//! one instruction is executed, and the trap is written again.

use vstd::prelude::*;
use crate::breakpoint::{
    lemma_number_at_is_unique,
    lemma_program_changes_at_one_entry,
    lemma_updated_stays_well_formed,
    same_program,
    traced,
    traps_in_place,
    well_formed,
    Breakpoint,
    BreakpointTable,
    TRAP_BYTE,
};
use crate::patch::{lemma_patch_turn, BytePatch};
use crate::protocol::{runs, Progress, Reply, Request};
use crate::registers::RegisterSnapshot;
use crate::status::{Status, TraceError};
use crate::wait::StopWait;
use crate::word::byte_at;

verus! {

/// How a step over a breakpoint ended.
#[derive(Clone, Copy, Debug, PartialEq, Eq, Structural)]
pub enum StepOverOutcome {
    /// The instruction was executed, the trap is back, the target is stopped.
    StillStopped,
    /// The target ended normally during the step, with this exit code.
    Exited(i32),
    /// The target was ended by this signal during the step.
    Signaled(i32),
}

/// How far a step over a breakpoint has come.
#[derive(Clone, Copy, Debug, PartialEq, Eq, Structural)]
pub enum StepOverStage {
    /// The original byte is being written back.
    Restoring(BytePatch),
    /// The instruction pointer is being moved back onto the breakpoint.
    Rewinding,
    /// The single step is being issued.
    Stepping,
    /// The end of the single step is awaited.
    Settling(StopWait),
    /// The trap byte is being written again.
    Rearming(BytePatch),
}

/// A step over a breakpoint in progress.
#[derive(Clone, Copy, Debug, PartialEq, Eq, Structural)]
pub struct StepOver {
    /// The number of the breakpoint.
    pub number: usize,
    /// Its address.
    pub address: usize,
    /// The byte that its trap replaced.
    pub saved: u8,
    /// The registers as they were when the target stopped.
    pub regs: RegisterSnapshot,
    /// What has been done so far.
    pub stage: StepOverStage,
}

/// The entries with entry `number` marked as active or not.
pub open spec fn marked(entries: Seq<Breakpoint>, number: usize, active: bool) -> Seq<Breakpoint> {
    entries.update(number as int, Breakpoint { is_active: active, ..entries[number as int] })
}

impl StepOver {
    /// The step over breakpoint `number` of `entries`, before its first request.
    pub open spec fn start(entries: Seq<Breakpoint>, number: usize, regs: RegisterSnapshot) -> StepOver {
        let entry = entries[number as int];
        StepOver {
            number,
            address: entry.address,
            saved: entry.saved_byte.unwrap(),
            regs,
            stage: StepOverStage::Restoring(BytePatch::start(entry.address, entry.saved_byte.unwrap())),
        }
    }

    /// The step belongs to an entry of `entries` and writes only to its address.
    pub open spec fn wf(self, entries: Seq<Breakpoint>) -> bool {
        &&& self.number < entries.len()
        &&& entries[self.number as int].address == self.address
        &&& entries[self.number as int].saved_byte == Some(self.saved)
        &&& match self.stage {
            StepOverStage::Restoring(patch) => patch.addr == self.address && patch.val == self.saved,
            StepOverStage::Rearming(patch) => patch.addr == self.address && patch.val == TRAP_BYTE,
            _ => true,
        }
    }

    /// The request whose answer the step needs next.
    pub open spec fn awaited(self) -> Request {
        match self.stage {
            StepOverStage::Restoring(patch) => patch.awaited(),
            StepOverStage::Rewinding => Request::SetRegisters(self.regs.at(self.address)),
            StepOverStage::Stepping => Request::Step,
            StepOverStage::Settling(wait) => wait.awaited(),
            StepOverStage::Rearming(patch) => patch.awaited(),
        }
    }

    /// The table and the step after `reply`.
    ///
    /// The breakpoint counts as inactive from the moment its original byte is
    /// back in memory until the trap has been written again. Any refusal ends
    /// the step with the error and leaves the table as it stands then.
    pub open spec fn resumed(self, entries: Seq<Breakpoint>, reply: Reply) -> (
        Seq<Breakpoint>,
        Progress<StepOver, Result<StepOverOutcome, TraceError>>,
    ) {
        match self.stage {
            StepOverStage::Restoring(patch) => match patch.resumed(reply) {
                Progress::Pending(patch) => (
                    entries,
                    Progress::Pending(StepOver { stage: StepOverStage::Restoring(patch), ..self }),
                ),
                Progress::Done(Ok(_)) => (
                    marked(entries, self.number, false),
                    Progress::Pending(StepOver { stage: StepOverStage::Rewinding, ..self }),
                ),
                Progress::Done(Err(e)) => (entries, Progress::Done(Err(e))),
            },
            StepOverStage::Rewinding => match reply {
                Reply::Done => (
                    entries,
                    Progress::Pending(StepOver { stage: StepOverStage::Stepping, ..self }),
                ),
                Reply::Failed(errno) => (entries, Progress::Done(Err(TraceError::Register(errno)))),
                _ => (entries, Progress::Done(Err(TraceError::Unexpected))),
            },
            StepOverStage::Stepping => match reply {
                Reply::Done => (
                    entries,
                    Progress::Pending(
                        StepOver { stage: StepOverStage::Settling(StopWait::Waiting), ..self },
                    ),
                ),
                Reply::Failed(errno) => (entries, Progress::Done(Err(TraceError::Control(errno)))),
                _ => (entries, Progress::Done(Err(TraceError::Unexpected))),
            },
            StepOverStage::Settling(wait) => match wait.resumed(reply) {
                Progress::Pending(wait) => (
                    entries,
                    Progress::Pending(StepOver { stage: StepOverStage::Settling(wait), ..self }),
                ),
                Progress::Done(Ok(Status::Stopped(_, _))) => (
                    entries,
                    Progress::Pending(
                        StepOver {
                            stage: StepOverStage::Rearming(
                                BytePatch::start(self.address, TRAP_BYTE),
                            ),
                            ..self
                        },
                    ),
                ),
                Progress::Done(Ok(Status::Exited(code))) => (
                    entries,
                    Progress::Done(Ok(StepOverOutcome::Exited(code))),
                ),
                Progress::Done(Ok(Status::Signaled(signal))) => (
                    entries,
                    Progress::Done(Ok(StepOverOutcome::Signaled(signal))),
                ),
                Progress::Done(Err(e)) => (entries, Progress::Done(Err(e))),
            },
            StepOverStage::Rearming(patch) => match patch.resumed(reply) {
                Progress::Pending(patch) => (
                    entries,
                    Progress::Pending(StepOver { stage: StepOverStage::Rearming(patch), ..self }),
                ),
                Progress::Done(Ok(_)) => (
                    marked(entries, self.number, true),
                    Progress::Done(Ok(StepOverOutcome::StillStopped)),
                ),
                Progress::Done(Err(e)) => (entries, Progress::Done(Err(e))),
            },
        }
    }

    /// Begins the step over the active breakpoint `number`, for a target that
    /// stopped with the registers `regs`.
    pub fn new(table: &BreakpointTable, number: usize, regs: RegisterSnapshot) -> (step: StepOver)
        requires
            table.wf(),
            number < table@.len(),
            table@[number as int].is_active,
        ensures
            step == StepOver::start(table@, number, regs),
            step.wf(table@),
    {
        let entry: Breakpoint = table.get(number);
        let saved: u8 = match entry.saved_byte {
            Some(byte) => byte,
            None => 0,
        };
        StepOver {
            number,
            address: entry.address,
            saved,
            regs,
            stage: StepOverStage::Restoring(BytePatch::new(entry.address, saved)),
        }
    }

    /// The request to perform next.
    pub fn request(&self) -> (request: Request)
        ensures
            request == self.awaited(),
    {
        match self.stage {
            StepOverStage::Restoring(patch) => patch.request(),
            StepOverStage::Rewinding => Request::SetRegisters(
                self.regs.with_instruction_pointer(self.address),
            ),
            StepOverStage::Stepping => Request::Step,
            StepOverStage::Settling(wait) => wait.request(),
            StepOverStage::Rearming(patch) => patch.request(),
        }
    }

    /// Takes the answer to the awaited request and moves on.
    pub fn resume(self, table: &mut BreakpointTable, reply: Reply) -> (next: Progress<
        StepOver,
        Result<StepOverOutcome, TraceError>,
    >)
        requires
            old(table).wf(),
            self.wf(old(table)@),
            reply.is_handled(),
        ensures
            (final(table)@, next) == self.resumed(old(table)@, reply),
            final(table).wf(),
            next matches Progress::Pending(step) ==> step.wf(final(table)@),
    {
        let StepOver { number, address, saved, regs, stage } = self;
        match stage {
            StepOverStage::Restoring(patch) => match patch.resume(reply) {
                Progress::Pending(patch) => Progress::Pending(
                    StepOver { number, address, saved, regs, stage: StepOverStage::Restoring(patch) },
                ),
                Progress::Done(Ok(_)) => {
                    table.disarm(number);
                    Progress::Pending(
                        StepOver { number, address, saved, regs, stage: StepOverStage::Rewinding },
                    )
                },
                Progress::Done(Err(e)) => Progress::Done(Err(e)),
            },
            StepOverStage::Rewinding => match reply {
                Reply::Done => Progress::Pending(
                    StepOver { number, address, saved, regs, stage: StepOverStage::Stepping },
                ),
                Reply::Failed(errno) => Progress::Done(Err(TraceError::Register(errno))),
                _ => Progress::Done(Err(TraceError::Unexpected)),
            },
            StepOverStage::Stepping => match reply {
                Reply::Done => Progress::Pending(
                    StepOver {
                        number,
                        address,
                        saved,
                        regs,
                        stage: StepOverStage::Settling(StopWait::Waiting),
                    },
                ),
                Reply::Failed(errno) => Progress::Done(Err(TraceError::Control(errno))),
                _ => Progress::Done(Err(TraceError::Unexpected)),
            },
            StepOverStage::Settling(wait) => match wait.resume(reply) {
                Progress::Pending(wait) => Progress::Pending(
                    StepOver { number, address, saved, regs, stage: StepOverStage::Settling(wait) },
                ),
                Progress::Done(Ok(Status::Stopped(_, _))) => Progress::Pending(
                    StepOver {
                        number,
                        address,
                        saved,
                        regs,
                        stage: StepOverStage::Rearming(BytePatch::new(address, TRAP_BYTE)),
                    },
                ),
                Progress::Done(Ok(Status::Exited(code))) => Progress::Done(
                    Ok(StepOverOutcome::Exited(code)),
                ),
                Progress::Done(Ok(Status::Signaled(signal))) => Progress::Done(
                    Ok(StepOverOutcome::Signaled(signal)),
                ),
                Progress::Done(Err(e)) => Progress::Done(Err(e)),
            },
            StepOverStage::Rearming(patch) => match patch.resume(reply) {
                Progress::Pending(patch) => Progress::Pending(
                    StepOver { number, address, saved, regs, stage: StepOverStage::Rearming(patch) },
                ),
                Progress::Done(Ok(_)) => {
                    table.rearm(number);
                    Progress::Done(Ok(StepOverOutcome::StillStopped))
                },
                Progress::Done(Err(e)) => Progress::Done(Err(e)),
            },
        }
    }
}

impl StepOver {
    /// The table, the step and the memory of the target agree: every active
    /// breakpoint has its trap in memory; the one being stepped over is
    /// active until its original byte is back, and inactive, with the original
    /// byte in memory, from then until the trap is written again.
    pub open spec fn in_step(self, entries: Seq<Breakpoint>, mem: Map<usize, u64>) -> bool {
        let entry = entries[self.number as int];
        &&& well_formed(entries)
        &&& self.wf(entries)
        &&& traps_in_place(entries, mem)
        &&& match self.stage {
            StepOverStage::Restoring(patch) => entry.is_active && patch.in_flight(mem),
            StepOverStage::Rearming(patch) => !entry.is_active && patch.in_flight(mem) && byte_at(
                mem,
                self.address,
            ) == self.saved,
            _ => !entry.is_active && byte_at(mem, self.address) == self.saved,
        }
    }
}

/// A step over an active breakpoint starts in agreement with any memory
/// that holds the traps of the table.
pub proof fn lemma_step_over_starts_in_step(
    entries: Seq<Breakpoint>,
    number: usize,
    regs: RegisterSnapshot,
    mem: Map<usize, u64>,
)
    requires
        well_formed(entries),
        traps_in_place(entries, mem),
        number < entries.len(),
        entries[number as int].is_active,
    ensures
        StepOver::start(entries, number, regs).in_step(entries, mem),
{
}

/// The instruction pointer is moved back onto the breakpoint itself, not one
/// past it, and no other register is changed.
pub proof fn lemma_step_over_rewinds_onto_breakpoint(step: StepOver)
    requires
        step.stage is Rewinding,
    ensures
        step.awaited() matches Request::SetRegisters(regs) && regs.ip() == step.address && regs
            == (RegisterSnapshot { rip: regs.rip, ..step.regs }),
{
}

/// Every turn of a step over a breakpoint keeps table and memory in
/// agreement, against a target under trace. When the step ends, in whatever
/// way, every active breakpoint has its trap in memory. When it ends with
/// the target still stopped, the breakpoint that was stepped over is active
/// again, with the saved byte it had, and its trap is back in memory: the
/// next pass through its address stops the target again.
pub proof fn lemma_step_over_keeps_traps(
    step: StepOver,
    entries: Seq<Breakpoint>,
    mem: Map<usize, u64>,
    reply: Reply,
    after: Map<usize, u64>,
)
    requires
        step.in_step(entries, mem),
        traced(entries, mem, step.awaited(), reply, after),
    ensures
        ({
            let (table, next) = step.resumed(entries, reply);
            match next {
                Progress::Pending(step) => step.in_step(table, after),
                Progress::Done(result) => {
                    &&& well_formed(table)
                    &&& traps_in_place(table, after)
                    &&& result == Ok::<StepOverOutcome, TraceError>(StepOverOutcome::StillStopped)
                        ==> {
                        &&& table[step.number as int].is_active
                        &&& table[step.number as int].saved_byte == Some(step.saved)
                        &&& byte_at(after, step.address) == TRAP_BYTE
                    }
                },
            }
        }),
{
    let (table, next) = step.resumed(entries, reply);
    match step.stage {
        StepOverStage::Restoring(patch) => {
            lemma_patch_turn(patch, mem, reply, after);
            lemma_others_keep_traps(entries, step.number, mem, after);
        },
        StepOverStage::Rearming(patch) => {
            lemma_patch_turn(patch, mem, reply, after);
            lemma_others_keep_traps(entries, step.number, mem, after);
        },
        _ => {
            assert(entries[step.number as int].address == step.address);
        },
    }
}

/// No turn of a step over a breakpoint changes the program, but for what
/// the program does to itself while it runs: the bytes that the step writes
/// only put the saved byte in the place of the trap and the trap in the
/// place of the saved byte, and the table says which of the two is there.
pub proof fn lemma_step_over_keeps_program(
    step: StepOver,
    entries: Seq<Breakpoint>,
    mem: Map<usize, u64>,
    reply: Reply,
    after: Map<usize, u64>,
)
    requires
        step.in_step(entries, mem),
        traced(entries, mem, step.awaited(), reply, after),
        !runs(step.awaited()),
    ensures
        same_program(entries, mem, step.resumed(entries, reply).0, after),
{
    let (table, next) = step.resumed(entries, reply);
    let n = step.number as int;
    lemma_number_at_is_unique(entries, step.address, n);
    match step.stage {
        StepOverStage::Restoring(patch) => {
            lemma_patch_turn(patch, mem, reply, after);
            if let Progress::Done(Ok(_)) = patch.resumed(reply) {
                lemma_updated_stays_well_formed(entries, n, table[n]);
                lemma_number_at_is_unique(table, step.address, n);
                lemma_program_changes_at_one_entry(entries, mem, n, table[n], after);
                assert(table =~= entries.update(n, table[n]));
            }
        },
        StepOverStage::Rearming(patch) => {
            lemma_patch_turn(patch, mem, reply, after);
            if let Progress::Done(Ok(_)) = patch.resumed(reply) {
                lemma_updated_stays_well_formed(entries, n, table[n]);
                lemma_number_at_is_unique(table, step.address, n);
                lemma_program_changes_at_one_entry(entries, mem, n, table[n], after);
                assert(table =~= entries.update(n, table[n]));
            }
        },
        _ => {},
    }
}

/// A memory change that spares every byte but the one at the address of
/// entry `number` keeps the traps of all other active entries.
proof fn lemma_others_keep_traps(
    entries: Seq<Breakpoint>,
    number: usize,
    mem: Map<usize, u64>,
    after: Map<usize, u64>,
)
    requires
        well_formed(entries),
        number < entries.len(),
        traps_in_place(entries, mem),
        after == mem || forall|other: usize|
            other != entries[number as int].address ==> byte_at(after, other) == byte_at(mem, other),
    ensures
        forall|i: int|
            0 <= i < entries.len() && i != number && (#[trigger] entries[i]).is_active ==> byte_at(
                after,
                entries[i].address,
            ) == TRAP_BYTE,
{
    assert forall|i: int|
        0 <= i < entries.len() && i != number && (#[trigger] entries[i]).is_active implies byte_at(
        after,
        entries[i].address,
    ) == TRAP_BYTE by {
        if i < number {
            assert(entries[i].address != entries[number as int].address);
        } else {
            assert(entries[number as int].address != entries[i].address);
        }
    }
}

} // verus!
