//! The general-purpose registers of a stopped process.

use vstd::prelude::*;

verus! {

/// One reading of the register set, valid only while the process stays stopped.
#[derive(Clone, Copy, Debug, PartialEq, Eq, Structural)]
pub struct RegisterSnapshot {
    pub r15: u64,
    pub r14: u64,
    pub r13: u64,
    pub r12: u64,
    pub rbp: u64,
    pub rbx: u64,
    pub r11: u64,
    pub r10: u64,
    pub r9: u64,
    pub r8: u64,
    pub rax: u64,
    pub rcx: u64,
    pub rdx: u64,
    pub rsi: u64,
    pub rdi: u64,
    pub orig_rax: u64,
    pub rip: u64,
    pub cs: u64,
    pub eflags: u64,
    pub rsp: u64,
    pub ss: u64,
    pub fs_base: u64,
    pub gs_base: u64,
    pub ds: u64,
    pub es: u64,
    pub fs: u64,
    pub gs: u64,
}

impl RegisterSnapshot {
    /// The address of the next instruction.
    pub open spec fn ip(self) -> usize {
        self.rip as usize
    }

    /// The base address of the current stack frame.
    pub open spec fn frame_base(self) -> usize {
        self.rbp as usize
    }

    /// The snapshot with the instruction pointer moved to `addr`.
    pub open spec fn at(self, addr: usize) -> RegisterSnapshot {
        RegisterSnapshot { rip: addr as u64, ..self }
    }

    /// Reads the instruction pointer as an address.
    pub fn instruction_pointer(&self) -> (ip: usize)
        ensures
            ip == self.ip(),
    {
        #[verifier::truncate]
        (self.rip as usize)
    }

    /// Reads the frame-base pointer as an address.
    pub fn frame_pointer(&self) -> (fp: usize)
        ensures
            fp == self.frame_base(),
    {
        #[verifier::truncate]
        (self.rbp as usize)
    }

    /// Moves the instruction pointer to `addr` and keeps every other register.
    pub fn with_instruction_pointer(self, addr: usize) -> (moved: RegisterSnapshot)
        ensures
            moved == self.at(addr),
            moved.ip() == addr,
    {
        RegisterSnapshot { rip: addr as u64, ..self }
    }
}

} // verus!
