//! Reading numbers and signatures out of bytes.

use vstd::prelude::*;

verus! {

/// These two bytes stand at the offset.
pub open spec fn pair_at(bytes: Seq<u8>, offset: int, a: u8, b: u8) -> bool {
    0 <= offset && offset + 2 <= bytes.len() && bytes[offset] == a && bytes[offset + 1] == b
}

/// These three bytes stand at the offset.
pub open spec fn triple_at(bytes: Seq<u8>, offset: int, a: u8, b: u8, c: u8) -> bool {
    0 <= offset && offset + 3 <= bytes.len() && bytes[offset] == a && bytes[offset + 1] == b
        && bytes[offset + 2] == c
}

/// These four bytes stand at the offset.
pub open spec fn word_at(bytes: Seq<u8>, offset: int, a: u8, b: u8, c: u8, d: u8) -> bool {
    0 <= offset && offset + 4 <= bytes.len() && bytes[offset] == a && bytes[offset + 1] == b
        && bytes[offset + 2] == c && bytes[offset + 3] == d
}

/// The big-endian number in the four bytes at the offset.
pub open spec fn big_endian_at(bytes: Seq<u8>, offset: int) -> int {
    bytes[offset] * 0x100_0000 + bytes[offset + 1] * 0x1_0000 + bytes[offset + 2] * 0x100
        + bytes[offset + 3]
}

/// The big-endian number in the two bytes at the offset.
pub open spec fn short_at(bytes: Seq<u8>, offset: int) -> int {
    bytes[offset] * 0x100 + bytes[offset + 1]
}

/// A number of four bytes has 32 bits.
pub proof fn lemma_big_endian_bounds(bytes: Seq<u8>, offset: int)
    ensures
        0 <= big_endian_at(bytes, offset) <= u32::MAX,
{
}

pub fn reads_pair_at(bytes: &[u8], offset: usize, a: u8, b: u8) -> (found: bool)
    ensures
        found == pair_at(bytes@, offset as int, a, b),
{
    bytes.len() >= 2 && offset <= bytes.len() - 2 && bytes[offset] == a && bytes[offset + 1] == b
}

pub fn reads_triple_at(bytes: &[u8], offset: usize, a: u8, b: u8, c: u8) -> (found: bool)
    ensures
        found == triple_at(bytes@, offset as int, a, b, c),
{
    bytes.len() >= 3 && offset <= bytes.len() - 3 && bytes[offset] == a && bytes[offset + 1] == b
        && bytes[offset + 2] == c
}

pub fn reads_word_at(bytes: &[u8], offset: usize, a: u8, b: u8, c: u8, d: u8) -> (found: bool)
    ensures
        found == word_at(bytes@, offset as int, a, b, c, d),
{
    bytes.len() >= 4 && offset <= bytes.len() - 4 && bytes[offset] == a && bytes[offset + 1] == b
        && bytes[offset + 2] == c && bytes[offset + 3] == d
}

/// The big-endian number at an offset inside the bytes.
pub fn big_endian(bytes: &[u8], offset: usize) -> (value: u32)
    requires
        offset + 4 <= bytes.len(),
    ensures
        value == big_endian_at(bytes@, offset as int),
{
    bytes[offset] as u32 * 0x100_0000 + bytes[offset + 1] as u32 * 0x1_0000 + bytes[offset
        + 2] as u32 * 0x100 + bytes[offset + 3] as u32
}

/// Big-endian number of four bytes at the offset, when in bounds.
pub fn read_u32_be(bytes: &[u8], offset: usize) -> (value: Option<u32>)
    ensures
        match value {
            Some(number) => offset + 4 <= bytes.len() && number == big_endian_at(
                bytes@,
                offset as int,
            ),
            None => offset + 4 > bytes.len(),
        },
{
    if bytes.len() < 4 || offset > bytes.len() - 4 {
        return None;
    }
    Some(big_endian(bytes, offset))
}

/// Big-endian number of two bytes at the offset, when in bounds.
pub fn read_u16_be(bytes: &[u8], offset: usize) -> (value: Option<u16>)
    ensures
        match value {
            Some(number) => offset + 2 <= bytes.len() && number == short_at(
                bytes@,
                offset as int,
            ),
            None => offset + 2 > bytes.len(),
        },
{
    if bytes.len() < 2 || offset > bytes.len() - 2 {
        return None;
    }
    Some(bytes[offset] as u16 * 0x100 + bytes[offset + 1] as u16)
}

} // verus!
