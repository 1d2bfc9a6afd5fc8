//! The path hasher: the 40-bit hash the host keys its resource table with.
//!
//! The low 32 bits are the CRC-32 (IEEE, reflected, polynomial 0xEDB88320) of
//! the path's bytes; the next 8 bits are the path's length modulo 256. The
//! algorithm must match the host's own exactly, or every lookup misses.

use vstd::prelude::*;

verus! {

/// One round of the reflected CRC-32 polynomial division.
pub open spec fn crc32_round(c: u32) -> u32 {
    if c & 1 == 1 {
        (c >> 1) ^ 0xEDB8_8320u32
    } else {
        c >> 1
    }
}

/// `n` rounds of polynomial division applied to `c`.
pub open spec fn crc32_rounds(c: u32, n: nat) -> u32
    decreases n,
{
    if n == 0 {
        c
    } else {
        crc32_rounds(crc32_round(c), (n - 1) as nat)
    }
}

/// The CRC-32 state after absorbing one byte: xor the byte into the low bits,
/// then run eight rounds of polynomial division.
pub open spec fn crc32_byte(c: u32, b: u8) -> u32 {
    crc32_rounds(c ^ (b as u32), 8)
}

/// The CRC-32 state after absorbing all of `bytes`, starting from `c`.
pub open spec fn crc32_fold(c: u32, bytes: Seq<u8>) -> u32
    decreases bytes.len(),
{
    if bytes.len() == 0 {
        c
    } else {
        crc32_byte(crc32_fold(c, bytes.drop_last()), bytes.last())
    }
}

/// CRC-32 of a byte string: fold from the all-ones state, complement at the end.
pub open spec fn crc32_spec(bytes: Seq<u8>) -> u32 {
    !crc32_fold(0xFFFF_FFFFu32, bytes)
}

/// The 40-bit path hash: CRC-32 in the low 32 bits, length modulo 256 above it.
pub open spec fn hash40_spec(bytes: Seq<u8>) -> u64 {
    ((bytes.len() as u64 & 0xFF) << 32) | (crc32_spec(bytes) as u64)
}

/// CRC-32 (IEEE) of `bytes`.
pub fn crc32(bytes: &[u8]) -> (r: u32)
    ensures
        r == crc32_spec(bytes@),
{
    let mut c: u32 = 0xFFFF_FFFF;
    let mut i: usize = 0;
    while i < bytes.len()
        invariant
            i <= bytes@.len(),
            c == crc32_fold(0xFFFF_FFFF, bytes@.take(i as int)),
        decreases bytes@.len() - i,
    {
        let b = bytes[i];
        let mut x: u32 = c ^ (b as u32);
        let ghost x0 = x;
        let mut j: usize = 0;
        while j < 8
            invariant
                j <= 8,
                x == crc32_rounds(x0, j as nat),
            decreases 8 - j,
        {
            if x & 1 == 1 {
                x = (x >> 1) ^ 0xEDB8_8320;
            } else {
                x = x >> 1;
            }
            j = j + 1;
            proof {
                lemma_crc32_rounds_step(x0, j as nat);
            }
        }
        proof {
            assert(bytes@.take(i + 1).drop_last() =~= bytes@.take(i as int));
            assert(bytes@.take(i + 1).last() == b);
        }
        c = x;
        i = i + 1;
    }
    proof {
        assert(bytes@.take(bytes@.len() as int) =~= bytes@);
    }
    !c
}

/// Unrolling `crc32_rounds` from the front commutes with applying one more
/// round at the back.
proof fn lemma_crc32_rounds_step(c: u32, n: nat)
    requires
        n >= 1,
    ensures
        crc32_rounds(c, n) == crc32_round(crc32_rounds(c, (n - 1) as nat)),
    decreases n,
{
    if n == 1 {
        assert(crc32_rounds(c, 1) == crc32_rounds(crc32_round(c), 0));
        assert(crc32_rounds(crc32_round(c), 0) == crc32_round(c));
    } else {
        lemma_crc32_rounds_step(crc32_round(c), (n - 1) as nat);
        assert(crc32_rounds(c, n) == crc32_rounds(crc32_round(c), (n - 1) as nat));
        assert(crc32_rounds(c, (n - 1) as nat) == crc32_rounds(crc32_round(c), (n - 2) as nat));
    }
}

/// The 40-bit hash of a logical asset path, given as its bytes.
pub fn hash40(bytes: &[u8]) -> (h: u64)
    ensures
        h == hash40_spec(bytes@),
{
    let crc = crc32(bytes);
    ((bytes.len() as u64 & 0xFF) << 32) | (crc as u64)
}

} // verus!
