//! CRC-32 (ISO-3309 / ITU-T V.42), in the reflected form used by PNG:
//! polynomial `0xEDB88320`, initial register all ones, final complement.

use vstd::prelude::*;

verus! {

/// The reflected CRC-32 polynomial.
pub const CRC32_POLYNOMIAL: u32 = 0xEDB8_8320;

/// One step of the bitwise CRC-32 register update: shift right and, if the
/// low bit was set, fold in the polynomial.
pub open spec fn crc32_step(r: u32) -> u32 {
    if r & 1 == 1 {
        (r >> 1) ^ CRC32_POLYNOMIAL
    } else {
        r >> 1
    }
}

/// The register after `n` single-bit steps from `r`.
pub open spec fn crc32_steps(r: u32, n: nat) -> u32
    decreases n,
{
    if n == 0 {
        r
    } else {
        crc32_step(crc32_steps(r, (n - 1) as nat))
    }
}

/// Folding one byte into the register: xor it into the low bits, then run
/// eight single-bit steps.
pub open spec fn crc32_push_byte(r: u32, b: u8) -> u32 {
    crc32_steps(r ^ (b as u32), 8)
}

/// The register after folding every byte of `s`, in order, into `r`.
pub open spec fn crc32_fold(r: u32, s: Seq<u8>) -> u32
    decreases s.len(),
{
    if s.len() == 0 {
        r
    } else {
        crc32_push_byte(crc32_fold(r, s.drop_last()), s.last())
    }
}

/// CRC-32 of a byte sequence.
pub open spec fn spec_crc32(s: Seq<u8>) -> u32 {
    crc32_fold(0xFFFF_FFFFu32, s) ^ 0xFFFF_FFFF
}

/// Computes the CRC-32 of `bytes`.
pub fn crc32(bytes: &[u8]) -> (r: u32)
    ensures
        r == spec_crc32(bytes@),
{
    let mut reg: u32 = 0xFFFF_FFFF;
    let mut i: usize = 0;
    while i < bytes.len()
        invariant
            i <= bytes.len(),
            reg == crc32_fold(0xFFFF_FFFFu32, bytes@.take(i as int)),
        decreases bytes.len() - i,
    {
        reg = reg ^ (bytes[i] as u32);
        let ghost folded: u32 = reg;
        let mut j: usize = 0;
        while j < 8
            invariant
                j <= 8,
                reg == crc32_steps(folded, j as nat),
            decreases 8 - j,
        {
            if reg & 1 == 1 {
                reg = (reg >> 1) ^ CRC32_POLYNOMIAL;
            } else {
                reg = reg >> 1;
            }
            j = j + 1;
        }
        proof {
            assert(bytes@.take(i + 1).drop_last() =~= bytes@.take(i as int));
            assert(bytes@.take(i + 1).last() == bytes@[i as int]);
        }
        i = i + 1;
    }
    proof {
        assert(bytes@.take(bytes@.len() as int) =~= bytes@);
    }
    reg ^ 0xFFFF_FFFF
}

} // verus!
