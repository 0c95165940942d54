//! Laying out words as the bytes that are copied into GPU buffers.

use vstd::prelude::*;
use vstd::endian::{endianness, Endian};

verus! {

/// The four bytes of `w`, least significant first.
pub open spec fn word_le_bytes(w: u32) -> Seq<u8> {
    seq![
        (w % 0x100) as u8,
        (w / 0x100 % 0x100) as u8,
        (w / 0x1_0000 % 0x100) as u8,
        (w / 0x100_0000) as u8,
    ]
}

/// The four bytes of `w`, most significant first.
pub open spec fn word_be_bytes(w: u32) -> Seq<u8> {
    word_le_bytes(w).reverse()
}

/// The words laid out one after another, each least significant byte first.
pub open spec fn words_le_bytes(words: Seq<u32>) -> Seq<u8> {
    Seq::new(4 * words.len(), |i: int| word_le_bytes(words[i / 4])[i % 4])
}

/// The words laid out one after another, each most significant byte first.
pub open spec fn words_be_bytes(words: Seq<u32>) -> Seq<u8> {
    Seq::new(4 * words.len(), |i: int| word_be_bytes(words[i / 4])[i % 4])
}

/// The in-memory form of `words` on the executing machine: every word in
/// turn, each in the machine's byte order (`vstd::endian::endianness`).
pub open spec fn native_bytes(words: Seq<u32>) -> Seq<u8> {
    if endianness() is Little {
        words_le_bytes(words)
    } else {
        words_be_bytes(words)
    }
}

/// Views a slice of words as its bytes through `bytemuck::cast_slice`.
/// bytemuck reinterprets the memory of the slice: the result has four bytes
/// per word, each word's bytes in the machine's own byte order, the same
/// order on every call.
#[verifier::external_body]
pub(crate) fn words_as_bytes(words: &[u32]) -> (bytes: &[u8])
    ensures
        bytes@ == native_bytes(words@),
{
    bytemuck::cast_slice(words)
}

} // verus!
