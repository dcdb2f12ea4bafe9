//! The breakpoint table.
//!
//! A breakpoint is recorded once per address and numbered by the order in
//! which it was first set. While it is active, the target holds the trap
//! byte at its address and the table holds the byte that the trap replaced.

use vstd::prelude::*;
use crate::protocol::{answered, Reply, Request};
use crate::word::byte_at;

verus! {

/// The one-byte instruction that stops the target and hands control back.
pub const TRAP_BYTE: u8 = 0xcc;

/// One breakpoint.
#[derive(Clone, Copy, Debug, PartialEq, Eq, Structural)]
pub struct Breakpoint {
    /// Where the target is to stop.
    pub address: usize,
    /// The byte that the trap replaced, once a target has held the trap.
    pub saved_byte: Option<u8>,
    /// Whether the trap is in the memory of the live target.
    pub is_active: bool,
}

/// No two entries share an address, every active entry has its saved byte,
/// and every entry has a number.
pub open spec fn well_formed(entries: Seq<Breakpoint>) -> bool {
    &&& entries.len() <= usize::MAX
    &&& forall|i: int, j: int|
        0 <= i < j < entries.len() ==> (#[trigger] entries[i]).address != (
        #[trigger] entries[j]).address
    &&& forall|i: int|
        0 <= i < entries.len() && (#[trigger] entries[i]).is_active
            ==> entries[i].saved_byte.is_some()
}

/// Some entry is set at `addr`.
pub open spec fn holds(entries: Seq<Breakpoint>, addr: usize) -> bool {
    exists|i: int| 0 <= i < entries.len() && (#[trigger] entries[i]).address == addr
}

/// `found` is the number of the entry at `addr`, or nothing where there is none.
pub open spec fn is_entry_at(entries: Seq<Breakpoint>, addr: usize, found: Option<usize>) -> bool {
    match found {
        Some(i) => i < entries.len() && entries[i as int].address == addr,
        None => !holds(entries, addr),
    }
}

/// The number of the entry at `addr`, if there is one.
pub open spec fn number_at(entries: Seq<Breakpoint>, addr: usize) -> Option<usize> {
    if holds(entries, addr) {
        Some((choose|i: int| 0 <= i < entries.len() && (#[trigger] entries[i]).address == addr) as usize)
    } else {
        None
    }
}

/// In a well-formed table an address has at most one entry.
pub proof fn lemma_number_at_is_unique(entries: Seq<Breakpoint>, addr: usize, i: int)
    requires
        well_formed(entries),
        0 <= i < entries.len(),
        entries[i].address == addr,
    ensures
        number_at(entries, addr) == Some(i as usize),
{
    let j = choose|j: int| 0 <= j < entries.len() && (#[trigger] entries[j]).address == addr;
    if i < j {
        assert(entries[i].address != entries[j].address);
    } else if j < i {
        assert(entries[j].address != entries[i].address);
    }
}

/// Entry `i` is active and lies one byte before `ip`: the target has just
/// executed its trap.
pub open spec fn is_trap_behind(entries: Seq<Breakpoint>, ip: usize, i: int) -> bool {
    0 <= i < entries.len() && ip >= 1 && entries[i].address == ip - 1 && entries[i].is_active
}

/// The number of the active entry one byte before `ip`, if there is one.
pub open spec fn trap_behind_of(entries: Seq<Breakpoint>, ip: usize) -> Option<usize> {
    if exists|i: int| is_trap_behind(entries, ip, i) {
        Some((choose|i: int| is_trap_behind(entries, ip, i)) as usize)
    } else {
        None
    }
}

/// Every active entry has the trap byte at its address in `mem`.
pub open spec fn traps_in_place(entries: Seq<Breakpoint>, mem: Map<usize, u64>) -> bool {
    forall|i: int|
        0 <= i < entries.len() && (#[trigger] entries[i]).is_active ==> byte_at(
            mem,
            entries[i].address,
        ) == TRAP_BYTE
}

/// The bytes at the addresses of all entries are the same in both memories:
/// the target did not overwrite its own code there.
pub open spec fn code_kept(
    entries: Seq<Breakpoint>,
    before: Map<usize, u64>,
    after: Map<usize, u64>,
) -> bool {
    forall|i: int|
        0 <= i < entries.len() ==> byte_at(after, (#[trigger] entries[i]).address) == byte_at(
            before,
            entries[i].address,
        )
}

/// A target under trace answers `request`: it answers as memory does, and
/// when it is made to run it leaves the bytes at breakpoint addresses alone.
pub open spec fn traced(
    entries: Seq<Breakpoint>,
    before: Map<usize, u64>,
    request: Request,
    reply: Reply,
    after: Map<usize, u64>,
) -> bool {
    &&& answered(before, request, reply, after)
    &&& request is Step || request is Cont || request is Wait ==> code_kept(entries, before, after)
}

/// No entry is active.
pub open spec fn none_active(entries: Seq<Breakpoint>) -> bool {
    forall|i: int| 0 <= i < entries.len() ==> !(#[trigger] entries[i]).is_active
}

/// The byte that the program has at `addr`: the byte in memory, but where
/// the trap of an active breakpoint stands, the byte that the trap replaced.
pub open spec fn program_byte(entries: Seq<Breakpoint>, mem: Map<usize, u64>, addr: usize) -> u8 {
    match number_at(entries, addr) {
        Some(i) => if entries[i as int].is_active {
            entries[i as int].saved_byte.unwrap()
        } else {
            byte_at(mem, addr)
        },
        None => byte_at(mem, addr),
    }
}

/// The program is the same under both tables and memories, byte by byte.
pub open spec fn same_program(
    entries: Seq<Breakpoint>,
    mem: Map<usize, u64>,
    table: Seq<Breakpoint>,
    after: Map<usize, u64>,
) -> bool {
    forall|addr: usize| program_byte(table, after, addr) == program_byte(entries, mem, addr)
}

/// Changing entry `number` without moving it changes the program at
/// most at its address, if memory changes at most there.
pub proof fn lemma_program_changes_at_one_entry(
    entries: Seq<Breakpoint>,
    mem: Map<usize, u64>,
    number: int,
    entry: Breakpoint,
    after: Map<usize, u64>,
)
    requires
        well_formed(entries),
        0 <= number < entries.len(),
        entry.address == entries[number].address,
        entry.is_active ==> entry.saved_byte.is_some(),
        forall|other: usize|
            other != entry.address ==> byte_at(after, other) == byte_at(mem, other),
        program_byte(entries.update(number, entry), after, entry.address) == program_byte(
            entries,
            mem,
            entry.address,
        ),
    ensures
        same_program(entries, mem, entries.update(number, entry), after),
{
    let table = entries.update(number, entry);
    assert forall|addr: usize| program_byte(table, after, addr) == program_byte(
        entries,
        mem,
        addr,
    ) by {
        if addr != entry.address {
            if holds(entries, addr) {
                let i = choose|i: int|
                    0 <= i < entries.len() && (#[trigger] entries[i]).address == addr;
                lemma_number_at_is_unique(entries, addr, i);
                assert(table[i].address == addr);
                lemma_updated_stays_well_formed(entries, number, entry);
                lemma_number_at_is_unique(table, addr, i);
            } else {
                if holds(table, addr) {
                    let i = choose|i: int|
                        0 <= i < table.len() && (#[trigger] table[i]).address == addr;
                    assert(entries[i].address == addr);
                }
            }
        }
    }
}

/// A new entry at an address that had none changes the program at most
/// at that address, if memory changes at most there.
pub proof fn lemma_program_changes_at_new_entry(
    entries: Seq<Breakpoint>,
    mem: Map<usize, u64>,
    entry: Breakpoint,
    after: Map<usize, u64>,
)
    requires
        well_formed(entries),
        entries.len() < usize::MAX,
        !holds(entries, entry.address),
        entry.is_active ==> entry.saved_byte.is_some(),
        forall|other: usize|
            other != entry.address ==> byte_at(after, other) == byte_at(mem, other),
        byte_at(mem, entry.address) == if entry.is_active {
            entry.saved_byte.unwrap()
        } else {
            byte_at(after, entry.address)
        },
    ensures
        well_formed(entries.push(entry)),
        same_program(entries, mem, entries.push(entry), after),
{
    let table = entries.push(entry);
    let last = entries.len() as int;
    assert forall|i: int, j: int| 0 <= i < j < table.len() implies (#[trigger] table[i]).address
        != (#[trigger] table[j]).address by {
        if j < last {
            assert(entries[i].address != entries[j].address);
        } else {
            assert(entries[i].address != entry.address);
        }
    }
    assert forall|i: int| 0 <= i < table.len() && (#[trigger] table[i]).is_active implies table[i].saved_byte.is_some() by {
        if i < last {
            assert(entries[i].is_active);
        }
    }
    assert(table[last].address == entry.address);
    lemma_number_at_is_unique(table, entry.address, last);
    assert forall|addr: usize| program_byte(table, after, addr) == program_byte(
        entries,
        mem,
        addr,
    ) by {
        if addr != entry.address {
            if holds(entries, addr) {
                let i = choose|i: int|
                    0 <= i < entries.len() && (#[trigger] entries[i]).address == addr;
                lemma_number_at_is_unique(entries, addr, i);
                assert(table[i].address == addr);
                lemma_number_at_is_unique(table, addr, i);
            } else {
                if holds(table, addr) {
                    let i = choose|i: int|
                        0 <= i < table.len() && (#[trigger] table[i]).address == addr;
                    assert(entries[i].address == addr);
                }
            }
        }
    }
}

/// A table stays well-formed when an entry is changed without being moved,
/// as long as it has a saved byte when it is active.
pub proof fn lemma_updated_stays_well_formed(
    entries: Seq<Breakpoint>,
    number: int,
    entry: Breakpoint,
)
    requires
        well_formed(entries),
        0 <= number < entries.len(),
        entry.address == entries[number].address,
        entry.is_active ==> entry.saved_byte.is_some(),
    ensures
        well_formed(entries.update(number, entry)),
{
    let table = entries.update(number, entry);
    assert forall|i: int, j: int| 0 <= i < j < entries.len() implies (#[trigger] table[i]).address
        != (#[trigger] table[j]).address by {
        assert(entries[i].address != entries[j].address);
    }
}

/// In a well-formed table at most one entry lies behind `ip`.
pub proof fn lemma_trap_behind_is_unique(entries: Seq<Breakpoint>, ip: usize, i: int)
    requires
        well_formed(entries),
        is_trap_behind(entries, ip, i),
    ensures
        trap_behind_of(entries, ip) == Some(i as usize),
{
    let j = choose|j: int| is_trap_behind(entries, ip, j);
    if i < j {
        assert(entries[i].address != entries[j].address);
    } else if j < i {
        assert(entries[j].address != entries[i].address);
    }
}

/// The entries with none of them active.
pub open spec fn all_disarmed(entries: Seq<Breakpoint>) -> Seq<Breakpoint> {
    Seq::new(entries.len(), |i: int| Breakpoint { is_active: false, ..entries[i] })
}

/// The breakpoints of a session, in the order in which they were set.
pub struct BreakpointTable {
    entries: Vec<Breakpoint>,
}

impl View for BreakpointTable {
    type V = Seq<Breakpoint>;

    closed spec fn view(&self) -> Seq<Breakpoint> {
        self.entries@
    }
}

impl BreakpointTable {
    /// The table keeps its invariant.
    pub open spec fn wf(&self) -> bool {
        well_formed(self@)
    }

    /// A table without breakpoints.
    pub fn new() -> (table: BreakpointTable)
        ensures
            table@ == Seq::<Breakpoint>::empty(),
            table.wf(),
    {
        BreakpointTable { entries: Vec::new() }
    }

    /// How many breakpoints are recorded.
    pub fn len(&self) -> (n: usize)
        ensures
            n == self@.len(),
    {
        self.entries.len()
    }

    /// The breakpoint with the given number.
    pub fn get(&self, number: usize) -> (entry: Breakpoint)
        requires
            number < self@.len(),
        ensures
            entry == self@[number as int],
    {
        self.entries[number]
    }

    /// Looks up the breakpoint at `addr`.
    pub fn find(&self, addr: usize) -> (found: Option<usize>)
        ensures
            is_entry_at(self@, addr, found),
            self.wf() ==> found == number_at(self@, addr),
    {
        let mut i: usize = 0;
        while i < self.entries.len()
            invariant
                i <= self.entries.len(),
                forall|j: int| 0 <= j < i ==> (#[trigger] self@[j]).address != addr,
            decreases self.entries.len() - i,
        {
            if self.entries[i].address == addr {
                proof {
                    if self.wf() {
                        lemma_number_at_is_unique(self@, addr, i as int);
                    }
                }
                return Some(i);
            }
            i = i + 1;
        }
        None
    }

    /// Looks up the active breakpoint whose trap byte lies just before `ip`.
    pub fn trap_behind(&self, ip: usize) -> (found: Option<usize>)
        requires
            self.wf(),
        ensures
            found == trap_behind_of(self@, ip),
            found matches Some(i) ==> is_trap_behind(self@, ip, i as int),
    {
        if ip == 0 {
            return None;
        }
        match self.find(ip - 1) {
            Some(i) => {
                if self.entries[i].is_active {
                    proof {
                        lemma_trap_behind_is_unique(self@, ip, i as int);
                    }
                    Some(i)
                } else {
                    assert forall|j: int| !is_trap_behind(self@, ip, j) by {
                        if is_trap_behind(self@, ip, j) {
                            if j < i {
                                assert(self@[j].address != self@[i as int].address);
                            } else if i < j {
                                assert(self@[i as int].address != self@[j].address);
                            }
                        }
                    }
                    None
                }
            },
            None => None,
        }
    }

    /// Records a breakpoint at `addr` that no target holds yet. An address that
    /// is already in the table keeps its entry and its number.
    pub fn record(&mut self, addr: usize) -> (number: usize)
        requires
            old(self).wf(),
        ensures
            final(self).wf(),
            match number_at(old(self)@, addr) {
                Some(i) => number == i && final(self)@ == old(self)@,
                None => number == old(self)@.len() && final(self)@ == old(self)@.push(
                    Breakpoint { address: addr, saved_byte: None, is_active: false },
                ),
            },
            number < final(self)@.len(),
            final(self)@[number as int].address == addr,
    {
        match self.find(addr) {
            Some(i) => i,
            None => {
                let number: usize = self.entries.len();
                self.entries.push(Breakpoint { address: addr, saved_byte: None, is_active: false });
                assert(self.entries@.len() <= usize::MAX) by {
                    let grown = self.entries.len();
                }
                number
            },
        }
    }

    /// Marks the breakpoint as held by the target, in place of the byte `saved`.
    pub fn arm(&mut self, number: usize, saved: u8)
        requires
            old(self).wf(),
            number < old(self)@.len(),
        ensures
            final(self).wf(),
            final(self)@ == old(self)@.update(
                number as int,
                Breakpoint { saved_byte: Some(saved), is_active: true, ..old(self)@[number as int] },
            ),
    {
        let entry: Breakpoint = self.entries[number];
        self.entries.set(
            number,
            Breakpoint { address: entry.address, saved_byte: Some(saved), is_active: true },
        );
    }

    /// Marks the breakpoint as held by the target again, with the byte saved before.
    pub fn rearm(&mut self, number: usize)
        requires
            old(self).wf(),
            number < old(self)@.len(),
            old(self)@[number as int].saved_byte.is_some(),
        ensures
            final(self).wf(),
            final(self)@ == old(self)@.update(
                number as int,
                Breakpoint { is_active: true, ..old(self)@[number as int] },
            ),
    {
        let entry: Breakpoint = self.entries[number];
        self.entries.set(
            number,
            Breakpoint { address: entry.address, saved_byte: entry.saved_byte, is_active: true },
        );
    }

    /// Marks the breakpoint as no longer held by the target.
    pub fn disarm(&mut self, number: usize)
        requires
            old(self).wf(),
            number < old(self)@.len(),
        ensures
            final(self).wf(),
            final(self)@ == old(self)@.update(
                number as int,
                Breakpoint { is_active: false, ..old(self)@[number as int] },
            ),
    {
        let entry: Breakpoint = self.entries[number];
        self.entries.set(
            number,
            Breakpoint { address: entry.address, saved_byte: entry.saved_byte, is_active: false },
        );
    }

    /// Marks every breakpoint as no longer held: the target is gone.
    pub fn disarm_all(&mut self)
        requires
            old(self).wf(),
        ensures
            final(self).wf(),
            final(self)@ == all_disarmed(old(self)@),
    {
        let mut i: usize = 0;
        while i < self.entries.len()
            invariant
                i <= self.entries.len(),
                self.entries@.len() == old(self)@.len(),
                forall|j: int|
                    0 <= j < i ==> #[trigger] self.entries@[j] == (Breakpoint {
                        is_active: false,
                        ..old(self).entries@[j]
                    }),
                forall|j: int|
                    i <= j < self.entries@.len() ==> #[trigger] self.entries@[j] == old(
                        self,
                    ).entries@[j],
            decreases self.entries.len() - i,
        {
            let entry: Breakpoint = self.entries[i];
            self.entries.set(
                i,
                Breakpoint { address: entry.address, saved_byte: entry.saved_byte, is_active: false },
            );
            i = i + 1;
        }
        assert(self@ =~= all_disarmed(old(self)@));
    }
}

} // verus!
