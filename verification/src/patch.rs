//! Writing one byte into target memory.
//!
//! Memory can only be read and written a word at a time, so a byte is
//! written in two requests: read the word that holds it, then write the word
//! back with that one byte replaced.

use vstd::prelude::*;
use crate::protocol::{answered, Progress, Reply, Request};
use crate::status::TraceError;
use crate::word::{
    align_addr_to_word,
    align_addr_to_word_spec,
    byte_at,
    byte_of,
    extract_byte,
    lemma_other_bytes_kept,
    lemma_written_byte_reads_back,
    offset_in_word,
    replace_byte,
    with_byte,
    word_offset,
};

verus! {

/// How far a byte write has come.
#[derive(Clone, Copy, Debug, PartialEq, Eq, Structural)]
pub enum PatchStage {
    /// The word that holds the byte is being read.
    Reading,
    /// The word is being written back; holds the byte that was there and the new word.
    Writing(u8, u64),
}

/// A byte write in progress.
#[derive(Clone, Copy, Debug, PartialEq, Eq, Structural)]
pub struct BytePatch {
    /// The address of the byte.
    pub addr: usize,
    /// The byte to write.
    pub val: u8,
    /// What has been done so far.
    pub stage: PatchStage,
}

impl BytePatch {
    /// The write of `val` to `addr`, before its first request.
    pub open spec fn start(addr: usize, val: u8) -> BytePatch {
        BytePatch { addr, val, stage: PatchStage::Reading }
    }

    /// The request whose answer the write waits for.
    pub open spec fn awaited(self) -> Request {
        match self.stage {
            PatchStage::Reading => Request::ReadWord(align_addr_to_word_spec(self.addr)),
            PatchStage::Writing(_, word) => Request::WriteWord(
                align_addr_to_word_spec(self.addr),
                word,
            ),
        }
    }

    /// Where the write stands after `reply`.
    ///
    /// The word that was read is written back with the one byte replaced; the
    /// byte that it held there is the result. A refusal, or an answer of
    /// another kind, ends the write.
    pub open spec fn resumed(self, reply: Reply) -> Progress<BytePatch, Result<u8, TraceError>> {
        let offset = word_offset(self.addr as int) as u64;
        match (self.stage, reply) {
            (PatchStage::Reading, Reply::Word(word)) => Progress::Pending(
                BytePatch {
                    stage: PatchStage::Writing(
                        byte_of(word, offset),
                        with_byte(word, offset, self.val),
                    ),
                    ..self
                },
            ),
            (PatchStage::Writing(orig, _), Reply::Done) => Progress::Done(Ok(orig)),
            (_, Reply::Failed(errno)) => Progress::Done(Err(TraceError::Memory(errno))),
            _ => Progress::Done(Err(TraceError::Unexpected)),
        }
    }

    /// Begins the write of `val` to `addr`.
    pub fn new(addr: usize, val: u8) -> (patch: BytePatch)
        ensures
            patch == BytePatch::start(addr, val),
    {
        BytePatch { addr, val, stage: PatchStage::Reading }
    }

    /// The request to perform next.
    pub fn request(&self) -> (request: Request)
        ensures
            request == self.awaited(),
    {
        let base: usize = align_addr_to_word(self.addr);
        match self.stage {
            PatchStage::Reading => Request::ReadWord(base),
            PatchStage::Writing(_, word) => Request::WriteWord(base, word),
        }
    }

    /// Takes the answer to the awaited request and moves on.
    pub fn resume(self, reply: Reply) -> (next: Progress<BytePatch, Result<u8, TraceError>>)
        ensures
            next == self.resumed(reply),
    {
        match reply {
            Reply::Word(word) => match self.stage {
                PatchStage::Reading => {
                    let offset: usize = offset_in_word(self.addr);
                    let orig: u8 = extract_byte(word, offset);
                    let patched: u64 = replace_byte(word, offset, self.val);
                    Progress::Pending(
                        BytePatch {
                            addr: self.addr,
                            val: self.val,
                            stage: PatchStage::Writing(orig, patched),
                        },
                    )
                },
                _ => Progress::Done(Err(TraceError::Unexpected)),
            },
            Reply::Done => match self.stage {
                PatchStage::Writing(orig, _) => Progress::Done(Ok(orig)),
                _ => Progress::Done(Err(TraceError::Unexpected)),
            },
            Reply::Failed(errno) => Progress::Done(Err(TraceError::Memory(errno))),
            _ => Progress::Done(Err(TraceError::Unexpected)),
        }
    }
}

impl BytePatch {
    /// What the write has read agrees with the memory `mem`: the byte it
    /// took for the old one is the byte at the address, and the word it is
    /// about to write is the word in memory with the one byte replaced.
    pub open spec fn in_flight(self, mem: Map<usize, u64>) -> bool {
        match self.stage {
            PatchStage::Reading => true,
            PatchStage::Writing(orig, word) => {
                &&& orig == byte_at(mem, self.addr)
                &&& word == with_byte(
                    mem[align_addr_to_word_spec(self.addr)],
                    word_offset(self.addr as int) as u64,
                    self.val,
                )
            },
        }
    }
}

/// One turn of a byte write against a target that answers as memory does.
/// While the write goes on, memory is untouched. When it ends well, it gives
/// the byte that was at the address, the address holds the new byte, and
/// every other byte is as it was. When it ends in an error, memory is as it
/// was.
pub proof fn lemma_patch_turn(
    patch: BytePatch,
    mem: Map<usize, u64>,
    reply: Reply,
    after: Map<usize, u64>,
)
    requires
        patch.in_flight(mem),
        answered(mem, patch.awaited(), reply, after),
    ensures
        match patch.resumed(reply) {
            Progress::Pending(next) => next.in_flight(after) && after == mem,
            Progress::Done(Ok(orig)) => {
                &&& orig == byte_at(mem, patch.addr)
                &&& byte_at(after, patch.addr) == patch.val
                &&& forall|other: usize|
                    other != patch.addr ==> byte_at(after, other) == byte_at(mem, other)
            },
            Progress::Done(Err(_)) => after == mem,
        },
{
    let base = align_addr_to_word_spec(patch.addr);
    let offset = word_offset(patch.addr as int) as u64;
    let word = mem[base];
    let patched = mem.insert(base, with_byte(word, offset, patch.val));
    lemma_written_byte_reads_back(word, offset, patch.val);
    assert forall|other: usize| other != patch.addr implies byte_at(patched, other) == byte_at(
        mem,
        other,
    ) by {
        let other_offset = word_offset(other as int) as u64;
        if align_addr_to_word_spec(other) == base {
            lemma_other_bytes_kept(word, offset, patch.val, other_offset);
        }
    }
}

/// A whole byte write against a target that answers as memory does: it reads
/// the word that holds the byte and, if that is granted, writes it back. If
/// both are granted, the write gives the byte that was at the address before,
/// the address holds the new byte, and every other byte of memory is as it
/// was. If either is refused, the write ends with an error and memory is as
/// it was.
pub proof fn lemma_patch_writes_one_byte(
    addr: usize,
    val: u8,
    mem: Map<usize, u64>,
    read: Reply,
    mid: Map<usize, u64>,
    written: Reply,
    after: Map<usize, u64>,
)
    requires
        answered(mem, BytePatch::start(addr, val).awaited(), read, mid),
        BytePatch::start(addr, val).resumed(read) matches Progress::Pending(writing) ==> answered(
            mid,
            writing.awaited(),
            written,
            after,
        ),
    ensures
        match BytePatch::start(addr, val).resumed(read) {
            Progress::Pending(writing) => {
                &&& writing.awaited() is WriteWord
                &&& writing.resumed(written) matches Progress::Done(result)
                &&& match result {
                    Ok(orig) => {
                        &&& orig == byte_at(mem, addr)
                        &&& byte_at(after, addr) == val
                        &&& forall|other: usize|
                            other != addr ==> byte_at(after, other) == byte_at(mem, other)
                    },
                    Err(_) => after == mem,
                }
            },
            Progress::Done(result) => result is Err && mid == mem,
        },
{
    let start = BytePatch::start(addr, val);
    lemma_patch_turn(start, mem, read, mid);
    if let Progress::Pending(writing) = start.resumed(read) {
        lemma_patch_turn(writing, mid, written, after);
    }
}

} // verus!
