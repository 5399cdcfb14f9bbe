//! The container's 32-bit integrity checksum: polynomial 0x04C11DB7,
//! zero initial register, no bit reflection and no final inversion,
//! computed over the full page with its checksum field zeroed.

use vstd::prelude::*;

verus! {

/// One shift of the checksum register.
pub open spec fn crc_shift(r: u32) -> u32 {
    if r & 0x80000000 != 0 {
        (r << 1) ^ 0x04C11DB7
    } else {
        r << 1
    }
}

/// `n` shifts of the checksum register.
pub open spec fn crc_bits(r: u32, n: nat) -> u32
    decreases n,
{
    if n == 0 {
        r
    } else {
        crc_shift(crc_bits(r, (n - 1) as nat))
    }
}

/// The register after absorbing one byte.
pub open spec fn crc_byte(r: u32, b: u8) -> u32 {
    crc_bits(r ^ ((b as u32) << 24), 8)
}

/// The register after absorbing `s`, front to back, starting from `init`.
pub open spec fn crc_seq(init: u32, s: Seq<u8>) -> u32
    decreases s.len(),
{
    if s.len() == 0 {
        init
    } else {
        crc_byte(crc_seq(init, s.drop_last()), s.last())
    }
}

/// The checksum of `s`.
pub open spec fn crc_of(s: Seq<u8>) -> u32 {
    crc_seq(0, s)
}

/// Absorbing a concatenation is absorbing each part in turn.
pub proof fn lemma_crc_seq_append(init: u32, a: Seq<u8>, b: Seq<u8>)
    ensures
        crc_seq(init, a + b) == crc_seq(crc_seq(init, a), b),
    decreases b.len(),
{
    if b.len() == 0 {
        assert(a + b =~= a);
    } else {
        lemma_crc_seq_append(init, a, b.drop_last());
        assert((a + b).drop_last() =~= a + b.drop_last());
        assert((a + b).last() == b.last());
    }
}

/// Absorb one byte into the register.
fn crc_step(crc: u32, b: u8) -> (r: u32)
    ensures
        r == crc_byte(crc, b),
{
    let start: u32 = crc ^ ((b as u32) << 24);
    let mut r: u32 = start;
    let mut k: usize = 0;
    while k < 8
        invariant
            k <= 8,
            r == crc_bits(start, k as nat),
        decreases 8 - k,
    {
        if r & 0x80000000 != 0 {
            r = (r << 1) ^ 0x04C11DB7;
        } else {
            r = r << 1;
        }
        k = k + 1;
    }
    r
}

/// Absorb every byte of `data` into the register, front to back.
pub fn crc_update(crc: u32, data: &[u8]) -> (r: u32)
    ensures
        r == crc_seq(crc, data@),
{
    let mut r: u32 = crc;
    let mut i: usize = 0;
    while i < data.len()
        invariant
            i <= data@.len(),
            r == crc_seq(crc, data@.take(i as int)),
        decreases data@.len() - i,
    {
        r = crc_step(r, data[i]);
        proof {
            assert(data@.take(i + 1).drop_last() =~= data@.take(i as int));
            assert(data@.take(i + 1).last() == data@[i as int]);
        }
        i = i + 1;
    }
    proof {
        assert(data@.take(data@.len() as int) =~= data@);
    }
    r
}

} // verus!
