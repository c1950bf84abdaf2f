//! Little-endian numbers in a byte buffer.

use vstd::prelude::*;

verus! {

/// The unsigned 16-bit number at `o`.
pub open spec fn u16_at(b: Seq<u8>, o: int) -> int {
    b[o] + 256 * b[o + 1]
}

/// The signed 16-bit number at `o`.
pub open spec fn i16_at(b: Seq<u8>, o: int) -> int {
    let v = u16_at(b, o);
    if v < 0x8000 {
        v
    } else {
        v - 0x10000
    }
}

/// The unsigned 32-bit number at `o`.
pub open spec fn u32_at(b: Seq<u8>, o: int) -> int {
    u16_at(b, o) + 0x10000 * u16_at(b, o + 2)
}

/// The signed 32-bit number at `o`.
pub open spec fn i32_at(b: Seq<u8>, o: int) -> int {
    let v = u32_at(b, o);
    if v < 0x8000_0000 {
        v
    } else {
        v - 0x1_0000_0000
    }
}

/// Read an unsigned 16-bit number.
pub fn read_u16(b: &[u8], o: usize) -> (r: u16)
    requires
        o + 2 <= b.len(),
    ensures
        r == u16_at(b@, o as int),
{
    (b[o] as u16) + 256 * (b[o + 1] as u16)
}

/// Read a signed 16-bit number.
pub fn read_i16(b: &[u8], o: usize) -> (r: i16)
    requires
        o + 2 <= b.len(),
    ensures
        r == i16_at(b@, o as int),
{
    let v: i32 = read_u16(b, o) as i32;
    if v < 0x8000 {
        v as i16
    } else {
        (v - 0x10000) as i16
    }
}

/// Read an unsigned 32-bit number.
pub fn read_u32(b: &[u8], o: usize) -> (r: u32)
    requires
        o + 4 <= b.len(),
    ensures
        r == u32_at(b@, o as int),
{
    (read_u16(b, o) as u32) + 0x10000 * (read_u16(b, o + 2) as u32)
}

/// Read a signed 32-bit number.
pub fn read_i32(b: &[u8], o: usize) -> (r: i32)
    requires
        o + 4 <= b.len(),
    ensures
        r == i32_at(b@, o as int),
{
    let v: i64 = read_u32(b, o) as i64;
    if v < 0x8000_0000 {
        v as i32
    } else {
        (v - 0x1_0000_0000) as i32
    }
}

// --- laws ----------------------------------------------------------------------------------

/// The lowest byte comes first, each byte worth 256 times the one before it.
pub proof fn the_lowest_byte_comes_first(b: Seq<u8>, o: int)
    ensures
        u16_at(b, o) == b[o] + 256 * b[o + 1],
        u32_at(b, o) == b[o] + 256 * b[o + 1] + 65_536 * b[o + 2] + 16_777_216 * b[o + 3],
        0 <= u16_at(b, o) < 65_536,
        0 <= u32_at(b, o) < 4_294_967_296,
{
}

/// A signed number is the unsigned one where the top bit is clear, and as far below nought as that is
/// below the next power where it is set.
pub proof fn the_top_bit_is_the_sign(b: Seq<u8>, o: int)
    ensures
        b[o + 1] < 128 ==> i16_at(b, o) == u16_at(b, o),
        b[o + 1] >= 128 ==> i16_at(b, o) == u16_at(b, o) - 65_536,
        b[o + 3] < 128 ==> i32_at(b, o) == u32_at(b, o),
        b[o + 3] >= 128 ==> i32_at(b, o) == u32_at(b, o) - 4_294_967_296,
        -32_768 <= i16_at(b, o) < 32_768,
        -2_147_483_648 <= i32_at(b, o) < 2_147_483_648,
{
}

/// A number written a byte at a time reads back.
pub proof fn numbers_read_back(n: int)
    requires
        0 <= n < 4_294_967_296,
    ensures
        u32_at(
            seq![
                (n % 256) as u8,
                (n / 256 % 256) as u8,
                (n / 65_536 % 256) as u8,
                (n / 16_777_216) as u8,
            ],
            0,
        ) == n,
{
}

} // verus!
