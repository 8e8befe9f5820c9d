//! CRC32 (IEEE 802.3, reflected polynomial `0xEDB88320`), the checksum that
//! guards the GPT header and its partition-entry array.

use vstd::prelude::*;

verus! {

/// Reflected CRC32 generator polynomial.
pub const CRC32_POLY: u32 = 0xEDB8_8320;

/// One shift-and-conditionally-xor round of the bitwise CRC32 algorithm.
pub open spec fn spec_crc32_round(x: u32) -> u32 {
    if x & 1 == 1 {
        (x >> 1) ^ CRC32_POLY
    } else {
        x >> 1
    }
}

/// Folding one byte into the running CRC state: xor it in, then run eight rounds.
pub open spec fn spec_crc32_byte(acc: u32, b: u8) -> u32 {
    let x0 = acc ^ (b as u32);
    let x1 = spec_crc32_round(x0);
    let x2 = spec_crc32_round(x1);
    let x3 = spec_crc32_round(x2);
    let x4 = spec_crc32_round(x3);
    let x5 = spec_crc32_round(x4);
    let x6 = spec_crc32_round(x5);
    let x7 = spec_crc32_round(x6);
    spec_crc32_round(x7)
}

/// The CRC state after folding every byte of `s` into the initial state
/// `0xFFFF_FFFF`, last byte folded last.
pub open spec fn spec_crc32_accum(s: Seq<u8>) -> u32
    decreases s.len(),
{
    if s.len() == 0 {
        0xFFFF_FFFFu32
    } else {
        spec_crc32_byte(spec_crc32_accum(s.drop_last()), s.last())
    }
}

/// The CRC32 checksum of a byte sequence: the final state, complemented.
pub open spec fn spec_crc32(s: Seq<u8>) -> u32 {
    spec_crc32_accum(s) ^ 0xFFFF_FFFFu32
}

fn crc32_round(x: u32) -> (r: u32)
    ensures
        r == spec_crc32_round(x),
{
    if x & 1 == 1 {
        (x >> 1) ^ CRC32_POLY
    } else {
        x >> 1
    }
}

fn crc32_byte(acc: u32, b: u8) -> (r: u32)
    ensures
        r == spec_crc32_byte(acc, b),
{
    let mut x = acc ^ (b as u32);
    x = crc32_round(x);
    x = crc32_round(x);
    x = crc32_round(x);
    x = crc32_round(x);
    x = crc32_round(x);
    x = crc32_round(x);
    x = crc32_round(x);
    crc32_round(x)
}

/// Computes the CRC32 checksum of `data`.
pub fn crc32(data: &[u8]) -> (r: u32)
    ensures
        r == spec_crc32(data@),
{
    let mut acc: u32 = 0xFFFF_FFFF;
    let n = data.len();
    let mut i: usize = 0;
    while i < n
        invariant
            n == data@.len(),
            i <= n,
            acc == spec_crc32_accum(data@.take(i as int)),
        decreases n - i,
    {
        let b = *vstd::slice::slice_index_get(data, i);
        acc = crc32_byte(acc, b);
        proof {
            assert(data@.take(i + 1).drop_last() =~= data@.take(i as int));
            assert(data@.take(i + 1).last() == data@[i as int]);
        }
        i = i + 1;
    }
    proof {
        assert(data@.take(n as int) =~= data@);
    }
    acc ^ 0xFFFF_FFFF
}

} // verus!
