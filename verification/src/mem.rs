//! Buffers handed to PDFium to be filled.
use crate::utf16le::{target_is_little_endian, word_bytes};
use vstd::prelude::*;

verus! {

/// A buffer of `size` zeroed 16-bit words.
pub fn create_sized_buffer(size: usize) -> (buffer: Vec<u16>)
    ensures
        buffer@ == Seq::new(size as nat, |i: int| 0u16),
{
    let buffer = vec![0u16; size];
    assert(buffer@ =~= Seq::new(size as nat, |i: int| 0u16));
    buffer
}

/// A buffer of `length` zeroed bytes.
pub fn create_byte_buffer(length: usize) -> (buffer: Vec<u8>)
    ensures
        buffer@ == Seq::new(length as nat, |i: int| 0u8),
{
    let buffer = vec![0u8; length];
    assert(buffer@ =~= Seq::new(length as nat, |i: int| 0u8));
    buffer
}

/// Calls `bytemuck::cast_slice` to view 16-bit words as bytes. Every `u16`
/// bit pattern is two valid bytes and a byte needs no alignment, so the cast
/// always succeeds and yields two bytes per word, in the executing machine's
/// byte order (vstd's `endianness()`), the same for every word and every
/// call.
#[verifier::external_body]
pub(crate) fn cast_words_to_bytes(words: &[u16]) -> (bytes: Vec<u8>)
    ensures
        bytes@ == word_bytes(words@, target_is_little_endian()),
        bytes@ == word_bytes(words@, true) || bytes@ == word_bytes(words@, false),
{
    bytemuck::cast_slice::<u16, u8>(words).to_vec()
}

} // verus!
