//! What the session asks of the outside world, and what it is told.
//!
//! The session never touches the traced process, the debug information or
//! the terminal itself. Each turn it names one request; whoever drives it
//! performs the request and hands back the reply.

use vstd::prelude::*;
use crate::command::DebuggerCommand;
use crate::registers::RegisterSnapshot;
use crate::status::WaitStatus;

verus! {

/// One thing for the driver to do.
#[derive(Clone, Debug, PartialEq, Eq)]
pub enum Request {
    /// Read the next command of the user.
    Command,
    /// Start the executable under trace with the arguments, and wait for its first status.
    Launch(String, Vec<String>),
    /// End the traced process and reap it.
    Kill,
    /// Read the word of target memory at this address.
    ReadWord(usize),
    /// Write the word to target memory at this address.
    WriteWord(usize, u64),
    /// Read the registers.
    GetRegisters,
    /// Write the registers.
    SetRegisters(RegisterSnapshot),
    /// Let the process execute one instruction.
    Step,
    /// Let the process run.
    Cont,
    /// Wait for the next status change of the process.
    Wait,
    /// Look up the source line of an address.
    LineOf(usize),
    /// Look up the function that holds an address.
    FunctionOf(usize),
    /// Look up the address of a source line.
    AddressOfLine(usize),
    /// Look up the address of a function.
    AddressOfFunction(String),
    /// Leave: the session is over.
    Quit,
}

/// The answer to one request.
#[derive(Clone, Debug, PartialEq, Eq)]
pub enum Reply {
    /// The command that was read.
    Command(DebuggerCommand),
    /// The process id of the launched program and its first status.
    Launched(i32, WaitStatus),
    /// The operation was carried out.
    Done,
    /// The word that was read.
    Word(u64),
    /// The registers that were read.
    Registers(RegisterSnapshot),
    /// The status change that the wait saw.
    Status(WaitStatus),
    /// The line or function that was looked up, if there is one.
    Text(Option<String>),
    /// The address that was looked up, if there is one.
    Address(Option<usize>),
    /// The operation was refused, with the error number.
    Failed(i32),
}

impl Reply {
    /// The answer is one that the session takes: every answer but a status
    /// change that the debugger does not handle.
    pub open spec fn is_handled(self) -> bool {
        self matches Reply::Status(status) ==> status.is_handled()
    }

    /// Whether the session takes the answer.
    pub fn handled(&self) -> (ok: bool)
        ensures
            ok == self.is_handled(),
    {
        match self {
            Reply::Status(WaitStatus::Other) => false,
            _ => true,
        }
    }
}

/// How far an operation that spans several requests has come.
pub enum Progress<M, T> {
    /// The operation waits for the answer to its next request.
    Pending(M),
    /// The operation is over, with this result.
    Done(T),
}

/// A target whose memory is `before` may answer `request` with `reply` and
/// be left with the memory `after`.
///
/// A read gives the word at the address, a write stores the word, and a
/// refused read or write changes nothing. What running, launching or
/// killing the target does to memory is left open. Nothing else touches
/// memory: the target stands still while its registers are read or written
/// and while the session talks to the user or looks something up.
pub open spec fn answered(
    before: Map<usize, u64>,
    request: Request,
    reply: Reply,
    after: Map<usize, u64>,
) -> bool {
    match request {
        Request::ReadWord(base) => after == before && (reply == Reply::Word(before[base])
            || reply is Failed),
        Request::WriteWord(base, word) => (reply == Reply::Done && after == before.insert(
            base,
            word,
        )) || (reply is Failed && after == before),
        Request::Step => true,
        Request::Cont => true,
        Request::Wait => true,
        Request::Launch(_, _) => true,
        Request::Kill => true,
        _ => after == before,
    }
}

/// The request makes the target run, or makes or ends a target.
pub open spec fn runs(request: Request) -> bool {
    request is Step || request is Cont || request is Wait || request is Launch || request is Kill
}

/// A word that was written is the word that is read from the same address
/// right after it.
pub proof fn lemma_written_word_reads_back(
    mem: Map<usize, u64>,
    addr: usize,
    word: u64,
    written: Reply,
    mid: Map<usize, u64>,
    read: Reply,
    after: Map<usize, u64>,
)
    requires
        answered(mem, Request::WriteWord(addr, word), written, mid),
        answered(mid, Request::ReadWord(addr), read, after),
        !(written is Failed),
        !(read is Failed),
    ensures
        read == Reply::Word(word),
        after == mid,
{
}

} // verus!
