//! Little-endian field extraction from byte sequences.

use vstd::prelude::*;

verus! {

/// The 16-bit little-endian integer stored at `at`.
pub open spec fn le_u16(bytes: Seq<u8>, at: int) -> u16 {
    (bytes[at] as int + bytes[at + 1] as int * 0x100) as u16
}

/// The 32-bit little-endian integer stored at `at`.
pub open spec fn le_u32(bytes: Seq<u8>, at: int) -> u32 {
    (le_u16(bytes, at) as int + le_u16(bytes, at + 2) as int * 0x1_0000) as u32
}

/// The 64-bit little-endian integer stored at `at`.
pub open spec fn le_u64(bytes: Seq<u8>, at: int) -> u64 {
    (le_u32(bytes, at) as int + le_u32(bytes, at + 4) as int * 0x1_0000_0000) as u64
}

/// Reads the 16-bit little-endian integer stored at `at`.
pub fn read_u16(bytes: &[u8], at: usize) -> (v: u16)
    requires
        at + 2 <= bytes@.len(),
    ensures
        v == le_u16(bytes@, at as int),
{
    let lo: u16 = bytes[at] as u16;
    let hi: u16 = bytes[at + 1] as u16;
    lo + hi * 0x100
}

/// Reads the 32-bit little-endian integer stored at `at`.
pub fn read_u32(bytes: &[u8], at: usize) -> (v: u32)
    requires
        at + 4 <= bytes@.len(),
    ensures
        v == le_u32(bytes@, at as int),
{
    proof {
        vstd::slice::axiom_spec_len(bytes);
    }
    let lo: u32 = read_u16(bytes, at) as u32;
    let hi: u32 = read_u16(bytes, at + 2) as u32;
    lo + hi * 0x1_0000
}

/// Reads the 64-bit little-endian integer stored at `at`.
pub fn read_u64(bytes: &[u8], at: usize) -> (v: u64)
    requires
        at + 8 <= bytes@.len(),
    ensures
        v == le_u64(bytes@, at as int),
{
    proof {
        vstd::slice::axiom_spec_len(bytes);
    }
    let lo: u64 = read_u32(bytes, at) as u64;
    let hi: u64 = read_u32(bytes, at + 4) as u64;
    lo + hi * 0x1_0000_0000
}

} // verus!
