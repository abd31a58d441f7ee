//! Fixed-width unsigned integers read from a byte sequence in a stated byte order.

use vstd::prelude::*;

verus! {

/// The 16-bit value whose two octets start at `at`.
pub open spec fn u16_at(s: Seq<u8>, at: int, big_endian: bool) -> u16 {
    if big_endian {
        (s[at] as int * 256 + s[at + 1] as int) as u16
    } else {
        (s[at + 1] as int * 256 + s[at] as int) as u16
    }
}

/// The 32-bit value whose four octets start at `at`.
pub open spec fn u32_at(s: Seq<u8>, at: int, big_endian: bool) -> u32 {
    if big_endian {
        (u16_at(s, at, true) as int * 65536 + u16_at(s, at + 2, true) as int) as u32
    } else {
        (u16_at(s, at + 2, false) as int * 65536 + u16_at(s, at, false) as int) as u32
    }
}

/// Reads the 16-bit value at `at`.
pub fn read_u16(bytes: &[u8], at: usize, big_endian: bool) -> (r: u16)
    requires
        at + 2 <= bytes.len(),
    ensures
        r == u16_at(bytes@, at as int, big_endian),
{
    let a: u16 = bytes[at] as u16;
    let b: u16 = bytes[at + 1] as u16;
    if big_endian {
        a * 256 + b
    } else {
        b * 256 + a
    }
}

/// Reads the 32-bit value at `at`.
pub fn read_u32(bytes: &[u8], at: usize, big_endian: bool) -> (r: u32)
    requires
        at + 4 <= bytes.len(),
    ensures
        r == u32_at(bytes@, at as int, big_endian),
{
    let first: u32 = read_u16(bytes, at, big_endian) as u32;
    let second: u32 = read_u16(bytes, at + 2, big_endian) as u32;
    if big_endian {
        first * 65536 + second
    } else {
        second * 65536 + first
    }
}

} // verus!
