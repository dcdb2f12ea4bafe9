//! Installing the recorded breakpoints into a freshly launched target.
//!
//! Breakpoints may be set before any target exists. Once a target has been
//! launched and stands at its entry point, the trap byte of every recorded
//! breakpoint is written into its memory, in the order of their numbers,
//! and the byte that each trap replaces is saved in the table.

use vstd::prelude::*;
use crate::breakpoint::{
    lemma_number_at_is_unique,
    lemma_program_changes_at_one_entry,
    lemma_updated_stays_well_formed,
    none_active,
    same_program,
    traps_in_place,
    well_formed,
    Breakpoint,
    BreakpointTable,
    TRAP_BYTE,
};
use crate::patch::{lemma_patch_turn, BytePatch};
use crate::protocol::{answered, Progress, Reply, Request};
use crate::status::TraceError;
use crate::word::byte_at;

verus! {

/// The installing of the recorded breakpoints, in progress.
#[derive(Clone, Copy, Debug, PartialEq, Eq, Structural)]
pub struct Materialize {
    /// The number of the breakpoint whose trap is being written.
    pub number: usize,
    /// The write of its trap byte.
    pub patch: BytePatch,
}

/// The entries with entry `number` active and `saved` as its saved byte.
pub open spec fn armed(entries: Seq<Breakpoint>, number: usize, saved: u8) -> Seq<Breakpoint> {
    entries.update(
        number as int,
        Breakpoint { saved_byte: Some(saved), is_active: true, ..entries[number as int] },
    )
}

/// Every entry is active.
pub open spec fn all_active(entries: Seq<Breakpoint>) -> bool {
    forall|i: int| 0 <= i < entries.len() ==> (#[trigger] entries[i]).is_active
}

impl Materialize {
    /// The installing of the breakpoints from `number` on, before its first
    /// request. With no breakpoint left it is over at once.
    pub open spec fn start(entries: Seq<Breakpoint>, number: usize) -> Progress<
        Materialize,
        Result<(), TraceError>,
    > {
        if number < entries.len() {
            Progress::Pending(
                Materialize {
                    number,
                    patch: BytePatch::start(entries[number as int].address, TRAP_BYTE),
                },
            )
        } else {
            Progress::Done(Ok(()))
        }
    }

    /// The write in progress is that of the trap of an entry of `entries`.
    pub open spec fn wf(self, entries: Seq<Breakpoint>) -> bool {
        &&& self.number < entries.len()
        &&& self.patch.addr == entries[self.number as int].address
        &&& self.patch.val == TRAP_BYTE
    }

    /// The request whose answer is needed next.
    pub open spec fn awaited(self) -> Request {
        self.patch.awaited()
    }

    /// The table and the installing after `reply`.
    ///
    /// When the trap of a breakpoint has been written, the breakpoint is
    /// active, with the byte found at its address as its saved byte, and the
    /// next one is taken up. The first refusal ends the installing; the
    /// breakpoints from that one on stay as they were.
    pub open spec fn resumed(self, entries: Seq<Breakpoint>, reply: Reply) -> (
        Seq<Breakpoint>,
        Progress<Materialize, Result<(), TraceError>>,
    ) {
        match self.patch.resumed(reply) {
            Progress::Pending(patch) => (entries, Progress::Pending(Materialize { patch, ..self })),
            Progress::Done(Ok(saved)) => (
                armed(entries, self.number, saved),
                Materialize::start(armed(entries, self.number, saved), (self.number + 1) as usize),
            ),
            Progress::Done(Err(e)) => (entries, Progress::Done(Err(e))),
        }
    }

    /// Begins to install the breakpoints of `table` from `number` on.
    pub fn new(table: &BreakpointTable, number: usize) -> (next: Progress<
        Materialize,
        Result<(), TraceError>,
    >)
        ensures
            next == Materialize::start(table@, number),
            next matches Progress::Pending(m) ==> m.wf(table@),
    {
        if number < table.len() {
            Progress::Pending(
                Materialize { number, patch: BytePatch::new(table.get(number).address, TRAP_BYTE) },
            )
        } else {
            Progress::Done(Ok(()))
        }
    }

    /// The request to perform next.
    pub fn request(&self) -> (request: Request)
        ensures
            request == self.awaited(),
    {
        self.patch.request()
    }

    /// Takes the answer to the awaited request and moves on.
    pub fn resume(self, table: &mut BreakpointTable, reply: Reply) -> (next: Progress<
        Materialize,
        Result<(), TraceError>,
    >)
        requires
            old(table).wf(),
            self.wf(old(table)@),
        ensures
            (final(table)@, next) == self.resumed(old(table)@, reply),
            final(table).wf(),
            next matches Progress::Pending(m) ==> m.wf(final(table)@),
    {
        match self.patch.resume(reply) {
            Progress::Pending(patch) => Progress::Pending(
                Materialize { number: self.number, patch },
            ),
            Progress::Done(Ok(saved)) => {
                table.arm(self.number, saved);
                Materialize::new(table, self.number + 1)
            },
            Progress::Done(Err(e)) => Progress::Done(Err(e)),
        }
    }

    /// The table, the installing and the memory of the target agree: every
    /// active breakpoint has its trap in memory, and the active ones are
    /// those before the one at hand.
    pub open spec fn in_step(self, entries: Seq<Breakpoint>, mem: Map<usize, u64>) -> bool {
        &&& well_formed(entries)
        &&& self.wf(entries)
        &&& traps_in_place(entries, mem)
        &&& self.patch.in_flight(mem)
        &&& forall|i: int| 0 <= i < self.number ==> (#[trigger] entries[i]).is_active
        &&& forall|i: int| self.number <= i < entries.len() ==> !(#[trigger] entries[i]).is_active
    }
}

/// Installing starts in agreement with any memory when no breakpoint is
/// active; with no breakpoint recorded there is nothing to do.
pub proof fn lemma_materialize_starts_in_step(entries: Seq<Breakpoint>, mem: Map<usize, u64>)
    requires
        well_formed(entries),
        none_active(entries),
    ensures
        match Materialize::start(entries, 0) {
            Progress::Pending(m) => m.in_step(entries, mem),
            Progress::Done(result) => result is Ok && entries.len() == 0,
        },
{
}

/// Every turn of the installing keeps table and memory in agreement,
/// against a target that answers as memory does. A breakpoint that becomes
/// active has as its saved byte the byte that memory held at its address,
/// and the trap byte in memory from then on. When the installing ends well,
/// every recorded breakpoint is active and has its trap in memory: a
/// breakpoint set before the launch is in the launched target before that
/// target runs for the first time.
pub proof fn lemma_materialize_installs_all(
    m: Materialize,
    entries: Seq<Breakpoint>,
    mem: Map<usize, u64>,
    reply: Reply,
    after: Map<usize, u64>,
)
    requires
        m.in_step(entries, mem),
        answered(mem, m.awaited(), reply, after),
    ensures
        ({
            let (table, next) = m.resumed(entries, reply);
            &&& well_formed(table)
            &&& traps_in_place(table, after)
            &&& table.len() == entries.len()
            &&& table != entries ==> table == armed(entries, m.number, byte_at(mem, m.patch.addr))
            &&& match next {
                Progress::Pending(m) => m.in_step(table, after),
                Progress::Done(Ok(_)) => all_active(table),
                Progress::Done(Err(_)) => table == entries,
            }
        }),
{
    lemma_patch_turn(m.patch, mem, reply, after);
    let (table, next) = m.resumed(entries, reply);
    if let Progress::Done(Ok(saved)) = m.patch.resumed(reply) {
        assert forall|i: int| 0 <= i < table.len() && (#[trigger] table[i]).is_active implies byte_at(
            after,
            table[i].address,
        ) == TRAP_BYTE by {
            if i < m.number {
                assert(entries[i].address != entries[m.number as int].address);
            } else if i > m.number {
                assert(entries[m.number as int].address != entries[i].address);
                assert(entries[i].is_active);
            }
        }
        assert forall|i: int| m.number + 1 <= i < table.len() implies !(#[trigger] table[i]).is_active by {
            assert(!entries[i].is_active);
        }
        assert forall|i: int| 0 <= i < m.number + 1 implies (#[trigger] table[i]).is_active by {
            if i < m.number {
                assert(entries[i].is_active);
            }
        }
        assert(forall|i: int, j: int|
            0 <= i < j < table.len() ==> (#[trigger] table[i]).address != (#[trigger] table[j]).address)
            by {
            assert forall|i: int, j: int| 0 <= i < j < table.len() implies (#[trigger] table[i]).address
                != (#[trigger] table[j]).address by {
                assert(entries[i].address != entries[j].address);
            }
        }
    }
}

/// No turn of the installing changes the program: each trap is written
/// over a byte that the table keeps as the saved byte of that breakpoint.
pub proof fn lemma_materialize_keeps_program(
    m: Materialize,
    entries: Seq<Breakpoint>,
    mem: Map<usize, u64>,
    reply: Reply,
    after: Map<usize, u64>,
)
    requires
        m.in_step(entries, mem),
        answered(mem, m.awaited(), reply, after),
    ensures
        same_program(entries, mem, m.resumed(entries, reply).0, after),
{
    lemma_patch_turn(m.patch, mem, reply, after);
    let (table, next) = m.resumed(entries, reply);
    let n = m.number as int;
    if let Progress::Done(Ok(saved)) = m.patch.resumed(reply) {
        lemma_number_at_is_unique(entries, m.patch.addr, n);
        lemma_updated_stays_well_formed(entries, n, table[n]);
        lemma_number_at_is_unique(table, m.patch.addr, n);
        lemma_program_changes_at_one_entry(entries, mem, n, table[n], after);
        assert(table =~= entries.update(n, table[n]));
    }
}

} // verus!
