//! What holds of every session, whatever the target does.

use vstd::prelude::*;
use crate::breakpoint::{
    all_disarmed,
    holds,
    lemma_number_at_is_unique,
    lemma_program_changes_at_new_entry,
    lemma_program_changes_at_one_entry,
    lemma_updated_stays_well_formed,
    none_active,
    number_at,
    same_program,
    traced,
    traps_in_place,
    Breakpoint,
    TRAP_BYTE,
};
use crate::command::DebuggerCommand;
use crate::materialize::{
    all_active,
    lemma_materialize_installs_all,
    lemma_materialize_keeps_program,
    lemma_materialize_starts_in_step,
};
use crate::numeral::{breakpoint_spec_of, BreakpointSpec};
use crate::patch::lemma_patch_turn;
use crate::protocol::{runs, Progress, Reply, Request};
use crate::resume::{lemma_resume_keeps_program, lemma_resume_keeps_traps, Resume};
use crate::session::{Phase, Report, Session, TargetState};
use crate::status::TraceError;
use crate::tracer::{answers, is_trace_request};
use crate::unwind::UnwindError;
use crate::word::byte_at;

verus! {

impl Session {
    /// `request` is what the session waits for an answer to.
    pub open spec fn awaits(self, request: Request) -> bool {
        match self.phase {
            Phase::Prompt => request == Request::Command,
            Phase::Replacing(_) => request == Request::Kill,
            Phase::Launching => request is Launch,
            Phase::Discarding => request == Request::Kill,
            Phase::Materializing(m) => request == m.awaited(),
            Phase::Resuming(resume) => request == resume.awaited(),
            Phase::Locating(_, ip) => request == Request::LineOf(ip),
            Phase::Unwinding(unwind) => request == unwind.awaited(),
            Phase::ResolvingLine(line) => request == Request::AddressOfLine(line),
            Phase::ResolvingFunction(name) => request == Request::AddressOfFunction(name),
            Phase::Installing(patch) => request == patch.awaited(),
            Phase::Quitting => request == Request::Kill,
            Phase::Over => request == Request::Quit,
        }
    }

    /// The session and the memory of its target agree: the table is
    /// well-formed; without a target no breakpoint is active; with one,
    /// every active breakpoint has its trap in memory, but for one that the
    /// target is just being stepped over; and a trap is only being written
    /// where none is yet.
    pub open spec fn in_step(self, mem: Map<usize, u64>) -> bool {
        &&& self.wf()
        &&& self.inferior is None ==> none_active(self.breakpoints)
        &&& match self.phase {
            Phase::Materializing(m) => m.in_step(self.breakpoints, mem),
            Phase::Resuming(resume) => resume.in_step(self.breakpoints, mem),
            Phase::Installing(patch) => {
                &&& traps_in_place(self.breakpoints, mem)
                &&& patch.in_flight(mem)
                &&& number_at(self.breakpoints, patch.addr) matches Some(i)
                    ==> !self.breakpoints[i as int].is_active
            },
            _ => traps_in_place(self.breakpoints, mem),
        }
    }
}

/// Without a target, `continue` and `backtrace` only say that there is
/// none: the session stays as it is and asks for the next command, not for
/// any operation on a process.
pub proof fn lemma_no_target_no_trace(session: Session)
    requires
        session.phase is Prompt,
        session.inferior is None,
    ensures
        session.ran(Reply::Command(DebuggerCommand::Continue)) == session.prompt(
            seq![Report::NoInferior],
        ),
        session.ran(Reply::Command(DebuggerCommand::Backtrace)) == session.prompt(
            seq![Report::NoInferior],
        ),
        session.prompt(seq![Report::NoInferior]).session == session,
        !is_trace_request(session.prompt(seq![Report::NoInferior]).request),
{
}

/// The session asks for an operation on the traced process only while it
/// has a target. It waits for a status change exactly while the target
/// runs, and asks for everything else (memory, registers, a step, a run)
/// only while the target is stopped. At the prompt the target never runs.
pub proof fn lemma_operations_need_a_stopped_target(session: Session, request: Request)
    requires
        session.wf(),
        session.awaits(request),
    ensures
        is_trace_request(request) ==> session.inferior is Some,
        is_trace_request(request) && request != Request::Wait ==> session.target_state()
            == TargetState::Stopped,
        request == Request::Wait <==> session.target_state() == TargetState::Running,
        session.phase is Prompt ==> session.target_state() != TargetState::Running,
{
}

/// The session takes every granted trace operation as the answer it asked
/// for: a command is never given up as unexpected when each answer is of the
/// kind of its request.
pub proof fn lemma_fitting_answers_are_expected(session: Session, request: Request, reply: Reply)
    requires
        session.wf(),
        session.awaits(request),
        is_trace_request(request),
        answers(request, reply),
        reply.is_handled(),
    ensures
        !session.ran(reply).reports.contains(Report::TraceFailed(TraceError::Unexpected)),
        !session.ran(reply).reports.contains(
            Report::UnwindFailed(UnwindError::Trace(TraceError::Unexpected)),
        ),
{
}

/// Once the kill of a target has been answered, the session has no target
/// and holds no breakpoint as active.
pub proof fn lemma_killed_target_is_gone(session: Session, reply: Reply)
    requires
        session.phase is Replacing || session.phase is Quitting,
    ensures
        session.ran(reply).session.inferior is None,
        none_active(session.ran(reply).session.breakpoints),
{
}

/// Setting a breakpoint keeps session and memory in agreement. Without a
/// target the breakpoint is recorded at once, inactive, and no trace
/// operation is asked for; a new address gets the next number.
pub proof fn lemma_breakpoint_is_recorded(session: Session, addr: usize, mem: Map<usize, u64>)
    requires
        session.in_step(mem),
        session.breakpoints.len() < usize::MAX,
        session.phase is Prompt || session.phase is ResolvingLine || session.phase
            is ResolvingFunction,
    ensures
        ({
            let set = session.set_breakpoint(addr);
            &&& set.session.in_step(mem)
            &&& set.session.awaits(set.request)
            &&& session.inferior is None ==> {
                &&& holds(set.session.breakpoints, addr)
                &&& set.request == Request::Command
                &&& number_at(session.breakpoints, addr) is None ==> set.reports
                    == seq![Report::BreakpointSet(session.breakpoints.len() as usize, addr)]
            }
        }),
{
    let set = session.set_breakpoint(addr);
    let table = set.session.breakpoints;
    if number_at(session.breakpoints, addr) is None {
        if session.inferior is None {
            assert(table[session.breakpoints.len() as int].address == addr);
            assert forall|i: int, j: int| 0 <= i < j < table.len() implies (#[trigger] table[i]).address
                != (#[trigger] table[j]).address by {
                if j < session.breakpoints.len() {
                    assert(session.breakpoints[i].address != session.breakpoints[j].address);
                } else {
                    assert(session.breakpoints[i].address != addr);
                }
            }
            assert forall|i: int| 0 <= i < table.len() implies !(#[trigger] table[i]).is_active by {
                if i < session.breakpoints.len() {
                    assert(!session.breakpoints[i].is_active);
                }
            }
        }
    } else {
        let i = choose|i: int|
            0 <= i < session.breakpoints.len() && (#[trigger] session.breakpoints[i]).address
                == addr;
        assert(table[i].address == addr);
    }
}

/// A breakpoint whose trap has been written into the live target is
/// active, with the byte that the trap replaced as its saved byte.
proof fn lemma_installed_in_step(
    session: Session,
    addr: usize,
    saved: u8,
    mem: Map<usize, u64>,
    after: Map<usize, u64>,
)
    requires
        session.wf(),
        session.inferior is Some,
        session.breakpoints.len() < usize::MAX,
        traps_in_place(session.breakpoints, mem),
        byte_at(after, addr) == TRAP_BYTE,
        forall|other: usize| other != addr ==> byte_at(after, other) == byte_at(mem, other),
    ensures
        session.installed(addr, saved).session.in_step(after),
        session.installed(addr, saved).session.awaits(session.installed(addr, saved).request),
{
    let table = session.installed(addr, saved).session.breakpoints;
    let entries = session.breakpoints;
    if number_at(entries, addr) is Some {
        let n = choose|i: int| 0 <= i < entries.len() && (#[trigger] entries[i]).address == addr;
        assert forall|i: int, j: int| 0 <= i < j < table.len() implies (#[trigger] table[i]).address
            != (#[trigger] table[j]).address by {
            assert(entries[i].address != entries[j].address);
        }
        assert forall|i: int| 0 <= i < table.len() && (#[trigger] table[i]).is_active implies byte_at(
            after,
            table[i].address,
        ) == TRAP_BYTE by {
            if i != n {
                assert(entries[i].is_active);
                if i < n {
                    assert(entries[i].address != entries[n].address);
                } else {
                    assert(entries[n].address != entries[i].address);
                }
            }
        }
    } else {
        assert forall|i: int, j: int| 0 <= i < j < table.len() implies (#[trigger] table[i]).address
            != (#[trigger] table[j]).address by {
            if j < entries.len() {
                assert(entries[i].address != entries[j].address);
            } else {
                assert(entries[i].address != addr);
            }
        }
        assert forall|i: int| 0 <= i < table.len() && (#[trigger] table[i]).is_active implies byte_at(
            after,
            table[i].address,
        ) == TRAP_BYTE by {
            if i < entries.len() {
                assert(entries[i].is_active);
                assert(entries[i].address != addr);
            }
        }
    }
}

/// Every turn of a session keeps it in agreement with the memory of its
/// target, against a target under trace, and the request it hands out is the
/// one it then waits for. So at every moment: without a target no
/// breakpoint is active, and with one every active breakpoint has its trap in
/// memory, but for one that the target is just being stepped over.
pub proof fn lemma_session_keeps_traps(
    session: Session,
    request: Request,
    mem: Map<usize, u64>,
    reply: Reply,
    after: Map<usize, u64>,
)
    requires
        session.in_step(mem),
        session.awaits(request),
        session.breakpoints.len() < usize::MAX,
        traced(session.breakpoints, mem, request, reply, after),
    ensures
        session.ran(reply).session.in_step(after),
        session.ran(reply).session.awaits(session.ran(reply).request),
{
    let entries = session.breakpoints;
    match session.phase {
        Phase::Prompt => {
            if let Reply::Command(DebuggerCommand::Break(arg)) = reply {
                if let Some(BreakpointSpec::ByAddress(addr)) = breakpoint_spec_of(arg) {
                    lemma_breakpoint_is_recorded(session, addr, mem);
                }
            }
        },
        Phase::Launching => {
            lemma_none_active_in_place(entries, after);
            lemma_materialize_starts_in_step(entries, after);
        },
        Phase::Replacing(_) => {
            lemma_none_active_in_place(all_disarmed(entries), after);
        },
        Phase::Quitting => {
            lemma_none_active_in_place(all_disarmed(entries), after);
        },
        Phase::Discarding => {
            lemma_none_active_in_place(entries, after);
        },
        Phase::Materializing(m) => {
            lemma_materialize_installs_all(m, entries, mem, reply, after);
        },
        Phase::Resuming(resume) => {
            lemma_resume_keeps_traps(resume, entries, mem, reply, after);
            let (table, next) = resume.resumed(entries, reply);
            lemma_none_active_in_place(all_disarmed(table), after);
        },
        Phase::ResolvingLine(_) => {
            if let Reply::Address(Some(addr)) = reply {
                lemma_breakpoint_is_recorded(session, addr, mem);
            }
        },
        Phase::ResolvingFunction(_) => {
            if let Reply::Address(Some(addr)) = reply {
                lemma_breakpoint_is_recorded(session, addr, mem);
            }
        },
        Phase::Installing(patch) => {
            lemma_patch_turn(patch, mem, reply, after);
            if let Progress::Done(Ok(saved)) = patch.resumed(reply) {
                lemma_installed_in_step(session, patch.addr, saved, mem, after);
            }
        },
        _ => {},
    }
}

/// Breakpoints that were set before a launch are all in the launched
/// target before it runs for the first time: from the launch until every
/// recorded breakpoint is active and has its trap in memory, the session
/// asks for no step and no run; and when it turns to letting the target go
/// on, all of them are.
pub proof fn lemma_launch_installs_breakpoints(
    session: Session,
    request: Request,
    mem: Map<usize, u64>,
    reply: Reply,
    after: Map<usize, u64>,
)
    requires
        session.in_step(mem),
        session.awaits(request),
        traced(session.breakpoints, mem, request, reply, after),
        session.phase is Launching || session.phase is Materializing,
    ensures
        ({
            let next = session.ran(reply);
            &&& !(next.request is Cont) && !(next.request is Step)
            &&& next.session.phase is Resuming ==> {
                &&& all_active(next.session.breakpoints)
                &&& traps_in_place(next.session.breakpoints, after)
                &&& next.session.phase == Phase::Resuming(Resume::Inspecting)
            }
        }),
{
    let entries = session.breakpoints;
    match session.phase {
        Phase::Launching => {
            lemma_none_active_in_place(entries, after);
            lemma_materialize_starts_in_step(entries, after);
        },
        Phase::Materializing(m) => {
            lemma_materialize_installs_all(m, entries, mem, reply, after);
        },
        _ => {},
    }
}

/// The session never changes the program: whatever it writes into the
/// memory of its target is a trap in the place of a byte that the table
/// keeps, or that byte in the place of the trap. Between two moments at
/// which the target runs, the program is byte by byte what it was.
pub proof fn lemma_session_keeps_program(
    session: Session,
    request: Request,
    mem: Map<usize, u64>,
    reply: Reply,
    after: Map<usize, u64>,
)
    requires
        session.in_step(mem),
        session.awaits(request),
        session.breakpoints.len() < usize::MAX,
        traced(session.breakpoints, mem, request, reply, after),
        !runs(request),
    ensures
        same_program(session.breakpoints, mem, session.ran(reply).session.breakpoints, after),
{
    let entries = session.breakpoints;
    match session.phase {
        Phase::Prompt => {
            if let Reply::Command(DebuggerCommand::Break(arg)) = reply {
                if let Some(BreakpointSpec::ByAddress(addr)) = breakpoint_spec_of(arg) {
                    lemma_set_breakpoint_keeps_program(session, addr, mem);
                }
            }
        },
        Phase::ResolvingLine(_) => {
            if let Reply::Address(Some(addr)) = reply {
                lemma_set_breakpoint_keeps_program(session, addr, mem);
            }
        },
        Phase::ResolvingFunction(_) => {
            if let Reply::Address(Some(addr)) = reply {
                lemma_set_breakpoint_keeps_program(session, addr, mem);
            }
        },
        Phase::Materializing(m) => {
            lemma_materialize_keeps_program(m, entries, mem, reply, after);
        },
        Phase::Resuming(resume) => {
            lemma_resume_keeps_program(resume, entries, mem, reply, after);
        },
        Phase::Installing(patch) => {
            lemma_patch_turn(patch, mem, reply, after);
            if let Progress::Done(Ok(saved)) = patch.resumed(reply) {
                let table = session.installed(patch.addr, saved).session.breakpoints;
                match number_at(entries, patch.addr) {
                    Some(number) => {
                        let n = number as int;
                        let i = choose|i: int|
                            0 <= i < entries.len() && (#[trigger] entries[i]).address
                                == patch.addr;
                        lemma_number_at_is_unique(entries, patch.addr, i);
                        lemma_updated_stays_well_formed(entries, n, table[n]);
                        lemma_number_at_is_unique(table, patch.addr, n);
                        lemma_program_changes_at_one_entry(entries, mem, n, table[n], after);
                        assert(table =~= entries.update(n, table[n]));
                    },
                    None => {
                        lemma_program_changes_at_new_entry(
                            entries,
                            mem,
                            Breakpoint {
                                address: patch.addr,
                                saved_byte: Some(saved),
                                is_active: true,
                            },
                            after,
                        );
                    },
                }
            }
        },
        _ => {},
    }
}

/// Recording a breakpoint changes nothing of the program.
proof fn lemma_set_breakpoint_keeps_program(session: Session, addr: usize, mem: Map<usize, u64>)
    requires
        session.wf(),
        session.breakpoints.len() < usize::MAX,
    ensures
        same_program(
            session.breakpoints,
            mem,
            session.set_breakpoint(addr).session.breakpoints,
            mem,
        ),
{
    if number_at(session.breakpoints, addr) is None {
        lemma_program_changes_at_new_entry(
            session.breakpoints,
            mem,
            Breakpoint { address: addr, saved_byte: None, is_active: false },
            mem,
        );
    }
}

/// Where no entry is active, the traps of all active ones are in place.
proof fn lemma_none_active_in_place(entries: Seq<Breakpoint>, mem: Map<usize, u64>)
    requires
        none_active(entries),
    ensures
        traps_in_place(entries, mem),
{
}

} // verus!
