//! Integer fields in the bytes of a client's buffers.
//!
//! libva's structures are in the byte order of the machine. The hosts of NVENC
//! are little-endian, so that fields are read as little-endian here.

use vstd::prelude::*;

verus! {

/// A 16-bit field at an offset.
pub open spec fn u16_at(b: Seq<u8>, at: int) -> int {
    b[at] + 0x100 * b[at + 1]
}

/// A 32-bit field at an offset.
pub open spec fn u32_at(b: Seq<u8>, at: int) -> int {
    u16_at(b, at) + 0x1_0000 * u16_at(b, at + 2)
}

/// Read a 16-bit field.
pub fn read_u16(b: &[u8], at: usize) -> (v: u32)
    requires
        at + 2 <= b.len(),
    ensures
        v == u16_at(b@, at as int),
        v <= 0xFFFF,
{
    b[at] as u32 + 0x100 * (b[at + 1] as u32)
}

/// Read a 32-bit field.
pub fn read_u32(b: &[u8], at: usize) -> (v: u32)
    requires
        at + 4 <= b.len(),
    ensures
        v == u32_at(b@, at as int),
{
    read_u16(b, at) + 0x1_0000 * read_u16(b, at + 2)
}

/// Fields are little-endian: the low byte of a field is its first one, and the
/// low half of a 32-bit field is a 16-bit field at the same offset.
pub proof fn law_fields_are_little_endian(b: Seq<u8>, at: int)
    ensures
        0 <= u16_at(b, at) <= 0xFFFF,
        u16_at(b, at) % 0x100 == b[at],
        u16_at(b, at) / 0x100 == b[at + 1],
        0 <= u32_at(b, at) <= 0xFFFF_FFFF,
        u32_at(b, at) % 0x100 == b[at],
        (u32_at(b, at) / 0x100) % 0x100 == b[at + 1],
        (u32_at(b, at) / 0x1_0000) % 0x100 == b[at + 2],
        u32_at(b, at) / 0x100_0000 == b[at + 3],
{
}

} // verus!
