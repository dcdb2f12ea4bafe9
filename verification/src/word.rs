//! Byte access inside machine words.
//!
//! A traced process exposes its memory one 64-bit word at a time, so a
//! single byte is patched by reading the containing word, replacing the byte
//! at its offset and writing the word back.

use vstd::prelude::*;

verus! {

/// Number of bytes in one word of target memory.
pub const WORD_BYTES: usize = 8;

/// The word boundary at or below `addr`.
pub open spec fn word_base(addr: int) -> int {
    addr - addr % 8
}

/// The position of `addr` inside its word.
pub open spec fn word_offset(addr: int) -> int {
    addr % 8
}

/// The byte of `word` at `offset`, counting from the least significant byte.
pub open spec fn byte_of(word: u64, offset: u64) -> u8 {
    ((word >> (8 * offset) as u64) & 0xff) as u8
}

/// `word` with the byte at `offset` replaced by `val`.
pub open spec fn with_byte(word: u64, offset: u64, val: u8) -> u64 {
    (word & !(0xffu64 << (8 * offset) as u64)) | ((val as u64) << (8 * offset) as u64)
}

/// The byte at `addr` in a memory that maps the base address of each word to the word.
pub open spec fn byte_at(mem: Map<usize, u64>, addr: usize) -> u8 {
    byte_of(mem[align_addr_to_word_spec(addr)], word_offset(addr as int) as u64)
}

/// Rounds an address down to the nearest word boundary.
pub fn align_addr_to_word(addr: usize) -> (aligned: usize)
    ensures
        aligned == word_base(addr as int),
        aligned % 8 == 0,
        aligned <= addr < aligned + 8,
{
    addr - addr % WORD_BYTES
}

/// Offset of an address from the word boundary below it.
pub fn offset_in_word(addr: usize) -> (offset: usize)
    ensures
        offset == word_offset(addr as int),
        offset < 8,
        align_addr_to_word_spec(addr) + offset == addr,
{
    addr % WORD_BYTES
}

/// Closed form of `align_addr_to_word` for use in contracts.
pub open spec fn align_addr_to_word_spec(addr: usize) -> usize {
    word_base(addr as int) as usize
}

/// Reads the byte at `offset` out of `word`.
pub fn extract_byte(word: u64, offset: usize) -> (byte: u8)
    requires
        offset < 8,
    ensures
        byte == byte_of(word, offset as u64),
{
    let shift: u64 = 8 * (offset as u64);
    ((word >> shift) & 0xff) as u8
}

/// Replaces the byte at `offset` of `word` by `val`.
pub fn replace_byte(word: u64, offset: usize, val: u8) -> (patched: u64)
    requires
        offset < 8,
    ensures
        patched == with_byte(word, offset as u64, val),
{
    let shift: u64 = 8 * (offset as u64);
    (word & !(0xffu64 << shift)) | ((val as u64) << shift)
}

/// A byte written into a word is the byte read back from that position.
pub proof fn lemma_written_byte_reads_back(word: u64, offset: u64, val: u8)
    by (bit_vector)
    requires
        offset < 8,
    ensures
        byte_of(with_byte(word, offset, val), offset) == val,
{
}

/// Writing a byte leaves every other byte of the word as it was.
pub proof fn lemma_other_bytes_kept(word: u64, offset: u64, val: u8, other: u64)
    by (bit_vector)
    requires
        offset < 8,
        other < 8,
        other != offset,
    ensures
        byte_of(with_byte(word, offset, val), other) == byte_of(word, other),
{
}

/// Writing back the byte that is already there changes nothing.
pub proof fn lemma_same_byte_keeps_word(word: u64, offset: u64)
    by (bit_vector)
    requires
        offset < 8,
    ensures
        with_byte(word, offset, byte_of(word, offset)) == word,
{
}

/// Of two writes to the same position only the second one shows.
pub proof fn lemma_second_write_wins(word: u64, offset: u64, first: u8, second: u8)
    by (bit_vector)
    requires
        offset < 8,
    ensures
        with_byte(with_byte(word, offset, first), offset, second) == with_byte(
            word,
            offset,
            second,
        ),
{
}

} // verus!
