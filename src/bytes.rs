//! Little-endian integers in byte streams.

use vstd::prelude::*;

verus! {

/// The little-endian 64-bit integer in the eight bytes of `b` from `at` on.
pub open spec fn le64(b: Seq<u8>, at: int) -> nat {
    b[at] as nat + b[at + 1] as nat * 0x100 + b[at + 2] as nat * 0x1_0000 + b[at + 3] as nat
        * 0x100_0000 + b[at + 4] as nat * 0x1_0000_0000 + b[at + 5] as nat * 0x100_0000_0000
        + b[at + 6] as nat * 0x1_0000_0000_0000 + b[at + 7] as nat * 0x100_0000_0000_0000
}

/// Byte `k` (lowest first) of `l`.
pub open spec fn limb_byte(l: u64, k: int) -> u8 {
    ((l >> ((8 * k) as u64)) & 0xff) as u8
}

/// Reads the little-endian 64-bit integer at `at`.
pub fn read_u64_le(bytes: &[u8], at: usize) -> (r: u64)
    requires
        at + 8 <= bytes@.len(),
    ensures
        r == le64(bytes@, at as int),
{
    bytes[at] as u64 + bytes[at + 1] as u64 * 0x100 + bytes[at + 2] as u64 * 0x1_0000
        + bytes[at + 3] as u64 * 0x100_0000 + bytes[at + 4] as u64 * 0x1_0000_0000
        + bytes[at + 5] as u64 * 0x100_0000_0000 + bytes[at + 6] as u64 * 0x1_0000_0000_0000
        + bytes[at + 7] as u64 * 0x100_0000_0000_0000
}

/// Byte `k` of a little-endian integer read from eight bytes is the byte at `k`.
pub proof fn lemma_le64_byte(b: Seq<u8>, at: int, k: int)
    requires
        0 <= at,
        at + 8 <= b.len(),
        0 <= k < 8,
    ensures
        limb_byte(le64(b, at) as u64, k) == b[at + k],
{
    let b0 = b[at];
    let b1 = b[at + 1];
    let b2 = b[at + 2];
    let b3 = b[at + 3];
    let b4 = b[at + 4];
    let b5 = b[at + 5];
    let b6 = b[at + 6];
    let b7 = b[at + 7];
    let kk = k as u64;
    let v = le64(b, at) as u64;
    assert(v == b0 as u64 + b1 as u64 * 0x100 + b2 as u64 * 0x1_0000 + b3 as u64 * 0x100_0000
        + b4 as u64 * 0x1_0000_0000 + b5 as u64 * 0x100_0000_0000 + b6 as u64
        * 0x1_0000_0000_0000 + b7 as u64 * 0x100_0000_0000_0000);
    assert(((v >> (8 * kk)) & 0xff) as u8 == (if kk == 0 {
        b0
    } else if kk == 1 {
        b1
    } else if kk == 2 {
        b2
    } else if kk == 3 {
        b3
    } else if kk == 4 {
        b4
    } else if kk == 5 {
        b5
    } else if kk == 6 {
        b6
    } else {
        b7
    })) by (bit_vector)
        requires
            kk < 8,
            v == b0 as u64 + b1 as u64 * 0x100 + b2 as u64 * 0x1_0000 + b3 as u64 * 0x100_0000
                + b4 as u64 * 0x1_0000_0000 + b5 as u64 * 0x100_0000_0000 + b6 as u64
                * 0x1_0000_0000_0000 + b7 as u64 * 0x100_0000_0000_0000,
    ;
}

} // verus!
