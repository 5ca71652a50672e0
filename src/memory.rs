use vstd::prelude::*;

verus! {

/// The 16-bit word at word index `i` of `ram`: bytes `2*i` and `2*i+1`,
/// most significant first.
pub open spec fn word_at(ram: Seq<u8>, i: int) -> u16 {
    (ram[2 * i] * 256 + ram[2 * i + 1]) as u16
}

/// Whether word index `i` lies wholly inside a buffer of `len` bytes.
pub open spec fn word_in_bounds(len: int, i: int) -> bool {
    0 <= i && 2 * i + 1 < len
}

/// Joins two 16-bit halves into a 32-bit value, `a` being the high half.
pub fn u16_to_u32(a: u16, b: u16) -> (r: u32)
    ensures
        r == a * 65536 + b,
{
    assert(((a as u32) << 16u32) | (b as u32) == (a as u32) * 65536 + (b as u32)) by (bit_vector);
    ((a as u32) << 16u32) | (b as u32)
}

/// Joins two bytes into a 16-bit value, `a` being the high byte.
pub fn u8_to_u16(a: u8, b: u8) -> (r: u16)
    ensures
        r == a * 256 + b,
{
    assert(((a as u16) << 8u16) | (b as u16) == (a as u16) * 256 + (b as u16)) by (bit_vector);
    ((a as u16) << 8u16) | (b as u16)
}

/// Reads the word at word index `address` of `arr`.
pub fn read_word(arr: &Vec<u8>, address: u32) -> (r: u16)
    requires
        word_in_bounds(arr.len() as int, address as int),
    ensures
        r == word_at(arr@, address as int),
{
    let i: usize = address as usize;
    u8_to_u16(arr[2 * i], arr[2 * i + 1])
}

/// Whether word index `i` lies wholly inside a buffer of `len` bytes.
pub fn word_fits(len: usize, i: u32) -> (r: bool)
    ensures
        r == word_in_bounds(len as int, i as int),
{
    (i as u64) * 2 + 1 < len as u64
}

} // verus!
