//! The two byte orders in which a 16-bit word is stored.

use vstd::prelude::*;

verus! {

/// The word whose little-endian bytes are `bytes`: the low byte comes first.
pub open spec fn le_word(bytes: Seq<u8>) -> u16
    recommends
        bytes.len() == 2,
{
    (bytes[0] + 256 * bytes[1]) as u16
}

/// The word whose big-endian bytes are `bytes`: the high byte comes first.
pub open spec fn be_word(bytes: Seq<u8>) -> u16
    recommends
        bytes.len() == 2,
{
    (256 * bytes[0] + bytes[1]) as u16
}

/// The little-endian bytes of a word.
pub open spec fn le_bytes(word: u16) -> Seq<u8> {
    seq![(word % 256) as u8, (word / 256) as u8]
}

/// The big-endian bytes of a word.
pub open spec fn be_bytes(word: u16) -> Seq<u8> {
    seq![(word / 256) as u8, (word % 256) as u8]
}

/// Reads a word from its little-endian bytes.
pub fn word_from_le(bytes: [u8; 2]) -> (word: u16)
    ensures
        word == le_word(bytes@),
{
    bytes[0] as u16 + 256 * (bytes[1] as u16)
}

/// Reads a word from its big-endian bytes.
pub fn word_from_be(bytes: [u8; 2]) -> (word: u16)
    ensures
        word == be_word(bytes@),
{
    256 * (bytes[0] as u16) + bytes[1] as u16
}

/// Writes a word as its little-endian bytes.
pub fn word_to_le(word: u16) -> (bytes: [u8; 2])
    ensures
        bytes@ == le_bytes(word),
{
    let bytes = [(word % 256) as u8, (word / 256) as u8];
    assert(bytes@ =~= le_bytes(word));
    bytes
}

/// Writes a word as its big-endian bytes.
pub fn word_to_be(word: u16) -> (bytes: [u8; 2])
    ensures
        bytes@ == be_bytes(word),
{
    let bytes = [(word / 256) as u8, (word % 256) as u8];
    assert(bytes@ =~= be_bytes(word));
    bytes
}

/// Writing a word in either byte order and reading the bytes in the same
/// order gives the word back.
pub proof fn lemma_word_round_trip(word: u16)
    ensures
        le_word(le_bytes(word)) == word,
        be_word(be_bytes(word)) == word,
{
}

/// Reading two bytes in either byte order and writing the word in the same
/// order gives the bytes back.
pub proof fn lemma_bytes_round_trip(bytes: Seq<u8>)
    requires
        bytes.len() == 2,
    ensures
        le_bytes(le_word(bytes)) == bytes,
        be_bytes(be_word(bytes)) == bytes,
{
    assert(le_bytes(le_word(bytes)) =~= bytes);
    assert(be_bytes(be_word(bytes)) =~= bytes);
}

} // verus!
