//! Little-endian words of the stream.

use byteorder::{ByteOrder, LittleEndian};
use vstd::prelude::*;

verus! {

/// The unsigned value of the first four bytes of `word`, least significant
/// byte first.
pub open spec fn le_u32(word: Seq<u8>) -> int
    recommends
        word.len() >= 4,
{
    word[0] + 0x100 * word[1] + 0x1_0000 * word[2] + 0x100_0000 * word[3]
}

/// The two's complement value of the first four bytes of `word`, least
/// significant byte first.
pub open spec fn le_i32(word: Seq<u8>) -> int
    recommends
        word.len() >= 4,
{
    if le_u32(word) >= 0x8000_0000 {
        le_u32(word) - 0x1_0000_0000
    } else {
        le_u32(word)
    }
}

/// `byteorder::LittleEndian::read_u32`: the unsigned 32-bit integer that the
/// first four bytes of `buf` hold in little-endian order. It panics on a
/// shorter slice, which the precondition rules out.
#[verifier::external_body]
pub(crate) fn read_u32_le(buf: &[u8]) -> (value: u32)
    requires
        buf@.len() >= 4,
    ensures
        value == le_u32(buf@),
{
    LittleEndian::read_u32(buf)
}

/// `byteorder::LittleEndian::read_i32`: the signed 32-bit integer that the
/// first four bytes of `buf` hold in little-endian order. It panics on a
/// shorter slice, which the precondition rules out.
#[verifier::external_body]
pub(crate) fn read_i32_le(buf: &[u8]) -> (value: i32)
    requires
        buf@.len() >= 4,
    ensures
        value == le_i32(buf@),
{
    LittleEndian::read_i32(buf)
}

/// Both readings of a word stay inside their 32-bit types.
pub proof fn lemma_word_ranges(word: Seq<u8>)
    requires
        word.len() >= 4,
    ensures
        0 <= le_u32(word) <= u32::MAX,
        i32::MIN <= le_i32(word) <= i32::MAX,
{
}

} // verus!
