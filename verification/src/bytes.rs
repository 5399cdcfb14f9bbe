//! Little-endian byte serialization, the shared vocabulary of the
//! container's wire format.

use vstd::prelude::*;

verus! {

/// The two bytes of `x` in little-endian order.
pub open spec fn le16(x: u16) -> Seq<u8> {
    seq![(x % 256) as u8, (x / 256) as u8]
}

/// The four bytes of `x` in little-endian order.
pub open spec fn le32(x: u32) -> Seq<u8> {
    seq![
        (x % 256) as u8,
        ((x / 256) % 256) as u8,
        ((x / 0x10000) % 256) as u8,
        (x / 0x1000000) as u8,
    ]
}

/// The eight bytes of `x` in little-endian order.
pub open spec fn le64(x: u64) -> Seq<u8> {
    le32((x % 0x100000000) as u32) + le32((x / 0x100000000) as u32)
}

/// Append the two little-endian bytes of `x` to `out`.
pub fn push_le16(out: &mut Vec<u8>, x: u16)
    ensures
        final(out)@ == old(out)@ + le16(x),
{
    out.push((x % 256) as u8);
    out.push((x / 256) as u8);
    assert(out@ =~= old(out)@ + le16(x));
}

/// Append the four little-endian bytes of `x` to `out`.
pub fn push_le32(out: &mut Vec<u8>, x: u32)
    ensures
        final(out)@ == old(out)@ + le32(x),
{
    out.push((x % 256) as u8);
    out.push(((x / 256) % 256) as u8);
    out.push(((x / 0x10000) % 256) as u8);
    out.push((x / 0x1000000) as u8);
    assert(out@ =~= old(out)@ + le32(x));
}

/// Append the eight little-endian bytes of `x` to `out`.
pub fn push_le64(out: &mut Vec<u8>, x: u64)
    ensures
        final(out)@ == old(out)@ + le64(x),
{
    push_le32(out, (x % 0x100000000) as u32);
    push_le32(out, (x / 0x100000000) as u32);
    assert(out@ =~= old(out)@ + le64(x));
}

/// Read a `u16` from two bytes in little-endian order.
pub fn read_le16(b0: u8, b1: u8) -> (r: u16)
    ensures
        le16(r) == seq![b0, b1],
        r == b0 + 256 * b1,
{
    let r: u16 = b0 as u16 + 256 * b1 as u16;
    assert(le16(r) =~= seq![b0, b1]);
    r
}

/// Read a signed 24-bit sample from three bytes in little-endian
/// order, sign-extending the top bit.
pub fn read_s24_le(b0: u8, b1: u8, b2: u8) -> (r: i32)
    ensures
        r == if b2 < 0x80 {
            b0 + 0x100 * b1 + 0x10000 * b2
        } else {
            b0 + 0x100 * b1 + 0x10000 * b2 - 0x1000000
        },
{
    let magnitude: i32 = b0 as i32 + 0x100 * b1 as i32 + 0x10000 * b2 as i32;
    if b2 < 0x80 {
        magnitude
    } else {
        magnitude - 0x1000000
    }
}

/// Read a `u32` from four bytes in little-endian order.
pub fn read_le32(b0: u8, b1: u8, b2: u8, b3: u8) -> (r: u32)
    ensures
        le32(r) == seq![b0, b1, b2, b3],
        r == b0 + 0x100 * b1 + 0x10000 * b2 + 0x1000000 * b3,
{
    let r: u32 = b0 as u32 + 0x100 * b1 as u32 + 0x10000 * b2 as u32 + 0x1000000 * b3 as u32;
    assert((r % 256) as u8 == b0 && ((r / 256) % 256) as u8 == b1 && ((r / 0x10000) % 256) as u8
        == b2 && (r / 0x1000000) as u8 == b3) by (bit_vector)
        requires
            r == b0 as u32 + 0x100 * (b1 as u32) + 0x10000 * (b2 as u32) + 0x1000000 * (b3 as u32),
    ;
    assert(le32(r) =~= seq![b0, b1, b2, b3]);
    r
}

} // verus!
