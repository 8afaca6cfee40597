//! Little-endian integers in byte strings.

use vstd::prelude::*;
use vstd::bytes::{
    spec_u32_from_le_bytes, spec_u32_to_le_bytes, spec_u64_from_le_bytes, spec_u64_to_le_bytes,
};
use byteorder::{ByteOrder, LittleEndian};

verus! {

/// `LittleEndian::read_u32`: the first four bytes of `buf`, lowest first.
#[verifier::external_body]
pub(crate) fn read_u32(buf: &[u8]) -> (r: u32)
    requires
        buf@.len() >= 4,
    ensures
        r == spec_u32_from_le_bytes(buf@.subrange(0, 4)),
{
    LittleEndian::read_u32(buf)
}

/// `LittleEndian::read_u64`: the first eight bytes of `buf`, lowest first.
#[verifier::external_body]
pub(crate) fn read_u64(buf: &[u8]) -> (r: u64)
    requires
        buf@.len() >= 8,
    ensures
        r == spec_u64_from_le_bytes(buf@.subrange(0, 8)),
{
    LittleEndian::read_u64(buf)
}

/// `LittleEndian::write_u32` on a fresh buffer: the four bytes of `n`,
/// lowest first.
#[verifier::external_body]
pub(crate) fn u32_bytes(n: u32) -> (b: [u8; 4])
    ensures
        b@ == spec_u32_to_le_bytes(n),
{
    let mut b = [0u8; 4];
    LittleEndian::write_u32(&mut b, n);
    b
}

/// `LittleEndian::write_u64` on a fresh buffer: the eight bytes of `n`,
/// lowest first.
#[verifier::external_body]
pub(crate) fn u64_bytes(n: u64) -> (b: [u8; 8])
    ensures
        b@ == spec_u64_to_le_bytes(n),
{
    let mut b = [0u8; 8];
    LittleEndian::write_u64(&mut b, n);
    b
}

} // verus!
