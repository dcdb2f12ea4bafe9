//! Carrying out trace requests on a live process.
//!
//! This is where the session meets the operating system. Nothing is known
//! in advance of what the process holds or does, so the only promise is that
//! each answer is of the kind that its request asks for.

use vstd::prelude::*;
use nix::sys::ptrace::AddressType;
use nix::unistd::Pid;
use crate::protocol::{Reply, Request};
use crate::registers::RegisterSnapshot;
use crate::status::WaitStatus;

verus! {

/// The error type of the nix crate.
#[verifier::external_type_specification]
#[verifier::external_body]
pub struct ExError(nix::Error);

/// `nix::Error::as_errno`: the error number behind an error of a system
/// call, if it has one. Nothing is claimed of the result.
#[verifier::external_body]
fn error_number(error: &nix::Error) -> Option<i32> {
    error.as_errno().map(|errno| errno as i32)
}

/// `nix::sys::ptrace::read`: reads one word from the memory of the traced
/// process. Nothing is claimed of the result.
#[verifier::external_body]
fn peek(pid: i32, addr: usize) -> Result<u64, nix::Error> {
    nix::sys::ptrace::read(Pid::from_raw(pid), addr as AddressType).map(|word| word as u64)
}

/// `nix::sys::ptrace::write`: writes one word into the memory of the traced
/// process. Nothing is claimed of the result.
#[verifier::external_body]
fn poke(pid: i32, addr: usize, word: u64) -> Result<(), nix::Error> {
    nix::sys::ptrace::write(Pid::from_raw(pid), addr as AddressType, word as AddressType)
}

/// `nix::sys::ptrace::getregs`: reads the registers of the traced process.
/// Nothing is claimed of the result.
#[verifier::external_body]
fn get_registers(pid: i32) -> Result<RegisterSnapshot, nix::Error> {
    let nix::libc::user_regs_struct {
        r15, r14, r13, r12, rbp, rbx, r11, r10, r9, r8, rax, rcx, rdx, rsi, rdi, orig_rax, rip,
        cs, eflags, rsp, ss, fs_base, gs_base, ds, es, fs, gs,
    } = nix::sys::ptrace::getregs(Pid::from_raw(pid))?;
    Ok(RegisterSnapshot {
        r15, r14, r13, r12, rbp, rbx, r11, r10, r9, r8, rax, rcx, rdx, rsi, rdi, orig_rax, rip,
        cs, eflags, rsp, ss, fs_base, gs_base, ds, es, fs, gs,
    })
}

/// `nix::sys::ptrace::setregs`: writes the registers of the traced process.
/// Nothing is claimed of the result.
#[verifier::external_body]
fn set_registers(pid: i32, regs: RegisterSnapshot) -> Result<(), nix::Error> {
    let RegisterSnapshot {
        r15, r14, r13, r12, rbp, rbx, r11, r10, r9, r8, rax, rcx, rdx, rsi, rdi, orig_rax, rip,
        cs, eflags, rsp, ss, fs_base, gs_base, ds, es, fs, gs,
    } = regs;
    nix::sys::ptrace::setregs(Pid::from_raw(pid), nix::libc::user_regs_struct {
        r15, r14, r13, r12, rbp, rbx, r11, r10, r9, r8, rax, rcx, rdx, rsi, rdi, orig_rax, rip,
        cs, eflags, rsp, ss, fs_base, gs_base, ds, es, fs, gs,
    })
}

/// `nix::sys::ptrace::step`: lets the traced process execute one
/// instruction, without a signal. Nothing is claimed of the result.
#[verifier::external_body]
fn single_step(pid: i32) -> Result<(), nix::Error> {
    nix::sys::ptrace::step(Pid::from_raw(pid), None)
}

/// `nix::sys::ptrace::cont`: lets the traced process run, without a signal.
/// Nothing is claimed of the result.
#[verifier::external_body]
fn go_on(pid: i32) -> Result<(), nix::Error> {
    nix::sys::ptrace::cont(Pid::from_raw(pid), None)
}

/// `nix::sys::wait::waitpid` without options: blocks until the process
/// changes its status. Nothing is claimed of the result.
#[verifier::external_body]
fn wait_for(pid: i32) -> Result<WaitStatus, nix::Error> {
    Ok(match nix::sys::wait::waitpid(Pid::from_raw(pid), None)? {
        nix::sys::wait::WaitStatus::Exited(_, code) => WaitStatus::Exited(code),
        nix::sys::wait::WaitStatus::Signaled(_, signal, _) => WaitStatus::Signaled(signal as i32),
        nix::sys::wait::WaitStatus::Stopped(_, signal) => WaitStatus::Stopped(signal as i32),
        _ => WaitStatus::Other,
    })
}

/// The request is one that is carried out on the traced process itself.
pub open spec fn is_trace_request(request: Request) -> bool {
    match request {
        Request::ReadWord(_) => true,
        Request::WriteWord(_, _) => true,
        Request::GetRegisters => true,
        Request::SetRegisters(_) => true,
        Request::Step => true,
        Request::Cont => true,
        Request::Wait => true,
        _ => false,
    }
}

/// `reply` is of the kind that answers the trace request `request`: what
/// was asked for, or a refusal.
pub open spec fn answers(request: Request, reply: Reply) -> bool {
    reply is Failed || match request {
        Request::ReadWord(_) => reply is Word,
        Request::WriteWord(_, _) => reply is Done,
        Request::GetRegisters => reply is Registers,
        Request::SetRegisters(_) => reply is Done,
        Request::Step => reply is Done,
        Request::Cont => reply is Done,
        Request::Wait => reply is Status,
        _ => false,
    }
}

/// The answer for an operation that was refused with the error number
/// `number`; an error without a number counts as number 0.
fn refused(number: Option<i32>) -> (reply: Reply)
    ensures
        reply == Reply::Failed(
            match number {
                Some(errno) => errno,
                None => 0,
            },
        ),
{
    match number {
        Some(errno) => Reply::Failed(errno),
        None => Reply::Failed(0),
    }
}

/// The answer for an operation that gives nothing back.
fn done_or_refused(result: Result<(), nix::Error>) -> (reply: Reply)
    ensures
        result is Ok ==> reply == Reply::Done,
        result is Err ==> reply is Failed,
{
    match result {
        Ok(_) => Reply::Done,
        Err(error) => refused(error_number(&error)),
    }
}

/// Carries out a trace request on the process `pid` and gives the answer.
/// Requests that are not for the traced process are not carried out.
pub(crate) fn perform(pid: i32, request: &Request) -> (reply: Option<Reply>)
    ensures
        match reply {
            Some(reply) => is_trace_request(*request) && answers(*request, reply),
            None => !is_trace_request(*request),
        },
{
    match request {
        Request::ReadWord(addr) => Some(
            match peek(pid, *addr) {
                Ok(word) => Reply::Word(word),
                Err(error) => refused(error_number(&error)),
            },
        ),
        Request::WriteWord(addr, word) => Some(done_or_refused(poke(pid, *addr, *word))),
        Request::GetRegisters => Some(
            match get_registers(pid) {
                Ok(regs) => Reply::Registers(regs),
                Err(error) => refused(error_number(&error)),
            },
        ),
        Request::SetRegisters(regs) => Some(done_or_refused(set_registers(pid, *regs))),
        Request::Step => Some(done_or_refused(single_step(pid))),
        Request::Cont => Some(done_or_refused(go_on(pid))),
        Request::Wait => Some(
            match wait_for(pid) {
                Ok(status) => Reply::Status(status),
                Err(error) => refused(error_number(&error)),
            },
        ),
        _ => None,
    }
}

} // verus!
