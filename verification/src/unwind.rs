//! Walking the stack of a stopped target.
//!
//! Each frame is named by the source line and the function of its
//! instruction pointer. The caller's frame is found through the frame-base
//! pointer: the word at the frame base is the caller's frame base, and the
//! word after it is the return address. The walk ends at the entry function.

use vstd::prelude::*;
use crate::command::same_text;
use crate::protocol::{Progress, Reply, Request};
use crate::registers::RegisterSnapshot;
use crate::status::TraceError;
use crate::word::WORD_BYTES;

verus! {

/// One frame of a backtrace as it is shown.
#[derive(Clone, Debug, PartialEq, Eq)]
pub struct Frame {
    /// The source line of the frame's instruction pointer.
    pub line: String,
    /// The function that the instruction pointer lies in.
    pub function: String,
}

/// Why a backtrace stopped before the entry function.
#[derive(Clone, Copy, Debug, PartialEq, Eq, Structural)]
pub enum UnwindError {
    /// Reading registers or memory failed.
    Trace(TraceError),
    /// No line or function is known for this address.
    Unresolved(usize),
    /// The frame base is so high that no return address can follow it.
    BrokenChain(usize),
}

/// How far a backtrace has come.
#[derive(Clone, Debug, PartialEq, Eq)]
pub enum Unwind {
    /// The registers are being read.
    Inspecting,
    /// The line of the instruction pointer is being looked up; holds the
    /// instruction pointer and the frame base.
    Line(usize, usize),
    /// The function of the instruction pointer is being looked up; holds
    /// the instruction pointer, the frame base, and the line.
    Function(usize, usize, String),
    /// The return address is being read; holds the frame base.
    ReturnAddress(usize),
    /// The caller's frame base is being read; holds the frame base and the
    /// return address.
    CallerBase(usize, usize),
}

/// Whether `function` is the function at which every backtrace ends.
pub open spec fn is_entry_function(function: Seq<char>) -> bool {
    function == "main"@
}

impl Unwind {
    /// The request whose answer the backtrace needs next.
    pub open spec fn awaited(self) -> Request {
        match self {
            Unwind::Inspecting => Request::GetRegisters,
            Unwind::Line(ip, _) => Request::LineOf(ip),
            Unwind::Function(ip, _, _) => Request::FunctionOf(ip),
            Unwind::ReturnAddress(base) => Request::ReadWord((base + WORD_BYTES) as usize),
            Unwind::CallerBase(base, _) => Request::ReadWord(base),
        }
    }

    /// No frame base is so high that the address after it overflows.
    pub open spec fn wf(self) -> bool {
        self matches Unwind::ReturnAddress(base) ==> base + WORD_BYTES <= usize::MAX
    }

    /// The frame that `reply` completes, if any, and the backtrace after it.
    ///
    /// A frame is shown as soon as its line and function are known. The
    /// backtrace ends well with the frame of the entry function, and with an
    /// error at the first address that cannot be resolved and at the first
    /// read that fails; the frames shown until then stand.
    pub open spec fn resumed(self, reply: Reply) -> (
        Option<Frame>,
        Progress<Unwind, Result<(), UnwindError>>,
    ) {
        match (self, reply) {
            (Unwind::Inspecting, Reply::Registers(regs)) => (
                None,
                Progress::Pending(Unwind::Line(regs.ip(), regs.frame_base())),
            ),
            (Unwind::Line(ip, base), Reply::Text(Some(line))) => (
                None,
                Progress::Pending(Unwind::Function(ip, base, line)),
            ),
            (Unwind::Line(ip, _), Reply::Text(None)) => (
                None,
                Progress::Done(Err(UnwindError::Unresolved(ip))),
            ),
            (Unwind::Function(_, base, line), Reply::Text(Some(function))) => (
                Some(Frame { line, function }),
                if is_entry_function(function@) {
                    Progress::Done(Ok(()))
                } else if base + WORD_BYTES > usize::MAX {
                    Progress::Done(Err(UnwindError::BrokenChain(base)))
                } else {
                    Progress::Pending(Unwind::ReturnAddress(base))
                },
            ),
            (Unwind::Function(ip, _, _), Reply::Text(None)) => (
                None,
                Progress::Done(Err(UnwindError::Unresolved(ip))),
            ),
            (Unwind::ReturnAddress(base), Reply::Word(word)) => (
                None,
                Progress::Pending(Unwind::CallerBase(base, word as usize)),
            ),
            (Unwind::CallerBase(_, ret), Reply::Word(word)) => (
                None,
                Progress::Pending(Unwind::Line(ret, word as usize)),
            ),
            (Unwind::Inspecting, Reply::Failed(errno)) => (
                None,
                Progress::Done(Err(UnwindError::Trace(TraceError::Register(errno)))),
            ),
            (Unwind::ReturnAddress(_), Reply::Failed(errno)) => (
                None,
                Progress::Done(Err(UnwindError::Trace(TraceError::Memory(errno)))),
            ),
            (Unwind::CallerBase(_, _), Reply::Failed(errno)) => (
                None,
                Progress::Done(Err(UnwindError::Trace(TraceError::Memory(errno)))),
            ),
            _ => (None, Progress::Done(Err(UnwindError::Trace(TraceError::Unexpected)))),
        }
    }

    /// Begins a backtrace.
    pub fn new() -> (unwind: Unwind)
        ensures
            unwind == Unwind::Inspecting,
    {
        Unwind::Inspecting
    }

    /// The request to perform next.
    pub fn request(&self) -> (request: Request)
        requires
            self.wf(),
        ensures
            request == self.awaited(),
    {
        match self {
            Unwind::Inspecting => Request::GetRegisters,
            Unwind::Line(ip, _) => Request::LineOf(*ip),
            Unwind::Function(ip, _, _) => Request::FunctionOf(*ip),
            Unwind::ReturnAddress(base) => Request::ReadWord(*base + WORD_BYTES),
            Unwind::CallerBase(base, _) => Request::ReadWord(*base),
        }
    }

    /// Takes the answer to the awaited request and moves on.
    pub fn resume(self, reply: Reply) -> (next: (
        Option<Frame>,
        Progress<Unwind, Result<(), UnwindError>>,
    ))
        ensures
            next == self.resumed(reply),
            next.1 matches Progress::Pending(unwind) ==> unwind.wf(),
    {
        let unexpected = Progress::Done(Err(UnwindError::Trace(TraceError::Unexpected)));
        match self {
            Unwind::Inspecting => match reply {
                Reply::Registers(regs) => (
                    None,
                    Progress::Pending(
                        Unwind::Line(regs.instruction_pointer(), regs.frame_pointer()),
                    ),
                ),
                Reply::Failed(errno) => (
                    None,
                    Progress::Done(Err(UnwindError::Trace(TraceError::Register(errno)))),
                ),
                _ => (None, unexpected),
            },
            Unwind::Line(ip, base) => match reply {
                Reply::Text(Some(line)) => (None, Progress::Pending(Unwind::Function(ip, base, line))),
                Reply::Text(None) => (None, Progress::Done(Err(UnwindError::Unresolved(ip)))),
                _ => (None, unexpected),
            },
            Unwind::Function(ip, base, line) => match reply {
                Reply::Text(Some(function)) => {
                    let next = if same_text(function.as_str(), "main") {
                        Progress::Done(Ok(()))
                    } else if base > usize::MAX - WORD_BYTES {
                        Progress::Done(Err(UnwindError::BrokenChain(base)))
                    } else {
                        Progress::Pending(Unwind::ReturnAddress(base))
                    };
                    (Some(Frame { line, function }), next)
                },
                Reply::Text(None) => (None, Progress::Done(Err(UnwindError::Unresolved(ip)))),
                _ => (None, unexpected),
            },
            Unwind::ReturnAddress(base) => match reply {
                Reply::Word(word) => {
                    let ret: usize = #[verifier::truncate]
                    (word as usize);
                    (None, Progress::Pending(Unwind::CallerBase(base, ret)))
                },
                Reply::Failed(errno) => (
                    None,
                    Progress::Done(Err(UnwindError::Trace(TraceError::Memory(errno)))),
                ),
                _ => (None, unexpected),
            },
            Unwind::CallerBase(_, ret) => match reply {
                Reply::Word(word) => {
                    let caller: usize = #[verifier::truncate]
                    (word as usize);
                    (None, Progress::Pending(Unwind::Line(ret, caller)))
                },
                Reply::Failed(errno) => (
                    None,
                    Progress::Done(Err(UnwindError::Trace(TraceError::Memory(errno)))),
                ),
                _ => (None, unexpected),
            },
        }
    }
}

/// A backtrace from a stop inside a function that the entry function
/// called shows exactly two frames, the inner function first and the entry
/// function second, and ends well. The second frame is looked up at the
/// return address, which is read from the word after the frame base.
pub proof fn lemma_one_call_deep_shows_two_frames(
    regs: RegisterSnapshot,
    inner_line: String,
    inner: String,
    ret: u64,
    caller_base: u64,
    entry_line: String,
    entry: String,
)
    requires
        !is_entry_function(inner@),
        is_entry_function(entry@),
        regs.frame_base() + WORD_BYTES <= usize::MAX,
    ensures
        ({
            let (frame0, turn0) = Unwind::Inspecting.resumed(Reply::Registers(regs));
            let (frame1, turn1) = turn0->Pending_0.resumed(Reply::Text(Some(inner_line)));
            let (frame2, turn2) = turn1->Pending_0.resumed(Reply::Text(Some(inner)));
            let (frame3, turn3) = turn2->Pending_0.resumed(Reply::Word(ret));
            let (frame4, turn4) = turn3->Pending_0.resumed(Reply::Word(caller_base));
            let (frame5, turn5) = turn4->Pending_0.resumed(Reply::Text(Some(entry_line)));
            let (frame6, turn6) = turn5->Pending_0.resumed(Reply::Text(Some(entry)));
            &&& turn0 is Pending && turn1 is Pending && turn2 is Pending && turn3 is Pending
                && turn4 is Pending && turn5 is Pending
            &&& turn0->Pending_0.awaited() == Request::LineOf(regs.ip())
            &&& turn1->Pending_0.awaited() == Request::FunctionOf(regs.ip())
            &&& turn2->Pending_0.awaited() == Request::ReadWord(
                (regs.frame_base() + WORD_BYTES) as usize,
            )
            &&& turn3->Pending_0.awaited() == Request::ReadWord(regs.frame_base())
            &&& turn4->Pending_0.awaited() == Request::LineOf(ret as usize)
            &&& turn5->Pending_0.awaited() == Request::FunctionOf(ret as usize)
            &&& frame0 is None && frame1 is None && frame3 is None && frame4 is None && frame5
                is None
            &&& frame2 == Some(Frame { line: inner_line, function: inner })
            &&& frame6 == Some(Frame { line: entry_line, function: entry })
            &&& turn6 == Progress::<Unwind, Result<(), UnwindError>>::Done(Ok(()))
        }),
{
}

} // verus!
