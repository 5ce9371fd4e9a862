use vstd::prelude::*;

verus! {

/// The big-endian 16-bit value of the two bytes at `i`.
pub open spec fn be16(s: Seq<u8>, i: int) -> u16 {
    (s[i] as int * 0x100 + s[i + 1] as int) as u16
}

/// The big-endian 32-bit value of the four bytes at `i`.
pub open spec fn be32(s: Seq<u8>, i: int) -> u32 {
    (s[i] as int * 0x100_0000 + s[i + 1] as int * 0x1_0000 + s[i + 2] as int * 0x100
        + s[i + 3] as int) as u32
}

/// The big-endian 128-bit value of the sixteen bytes at `i`.
pub open spec fn be128(s: Seq<u8>, i: int) -> u128 {
    (be32(s, i) as int * 0x1_0000_0000_0000_0000_0000_0000 + be32(s, i + 4) as int
        * 0x1_0000_0000_0000_0000 + be32(s, i + 8) as int * 0x1_0000_0000 + be32(s, i
        + 12) as int) as u128
}

/// The byte at `pos`.
pub fn read_u8(input: &[u8], pos: usize) -> (r: u8)
    requires
        pos < input@.len(),
    ensures
        r == input@[pos as int],
{
    input[pos]
}

/// The big-endian 16-bit value at `pos`.
pub fn read_u16_be(input: &[u8], pos: usize) -> (r: u16)
    requires
        pos + 2 <= input@.len(),
    ensures
        r == be16(input@, pos as int),
{
    (input[pos] as u16) * 0x100 + input[pos + 1] as u16
}

/// The big-endian 32-bit value at `pos`.
pub fn read_u32_be(input: &[u8], pos: usize) -> (r: u32)
    requires
        pos + 4 <= input@.len(),
    ensures
        r == be32(input@, pos as int),
{
    (input[pos] as u32) * 0x100_0000 + (input[pos + 1] as u32) * 0x1_0000 + (input[pos
        + 2] as u32) * 0x100 + input[pos + 3] as u32
}

/// The big-endian 128-bit value at `pos`.
pub fn read_u128_be(input: &[u8], pos: usize) -> (r: u128)
    requires
        pos + 16 <= input.len(),
    ensures
        r == be128(input@, pos as int),
{
    let a = read_u32_be(input, pos) as u128;
    let b = read_u32_be(input, pos + 4) as u128;
    let c = read_u32_be(input, pos + 8) as u128;
    let d = read_u32_be(input, pos + 12) as u128;
    a * 0x1_0000_0000_0000_0000_0000_0000 + b * 0x1_0000_0000_0000_0000 + c * 0x1_0000_0000 + d
}

} // verus!
