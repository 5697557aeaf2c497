//! CRC-32C (Castagnoli), the checksum that guards cached executables.

use vstd::prelude::*;

verus! {

/// The reflected CRC-32C polynomial.
pub const CRC32C_POLY: u32 = 0x82f6_3b78;

/// One bit of the reflected CRC shift register.
pub open spec fn crc_bit_step(crc: u32) -> u32 {
    if crc & 1 == 1 {
        (crc >> 1) ^ CRC32C_POLY
    } else {
        crc >> 1
    }
}

/// `n` bit steps of the shift register.
pub open spec fn crc_bits(crc: u32, n: nat) -> u32
    decreases n,
{
    if n == 0 {
        crc
    } else {
        crc_bits(crc_bit_step(crc), (n - 1) as nat)
    }
}

/// Feeds one byte into the register.
pub open spec fn crc_byte(crc: u32, byte: u8) -> u32 {
    crc_bits(crc ^ (byte as u32), 8)
}

/// Feeds a sequence of bytes into the register, first byte first.
pub open spec fn crc_update(crc: u32, bytes: Seq<u8>) -> u32
    decreases bytes.len(),
{
    if bytes.len() == 0 {
        crc
    } else {
        crc_byte(crc_update(crc, bytes.drop_last()), bytes.last())
    }
}

/// CRC-32C of a byte sequence: initial register all ones, final inversion.
pub open spec fn spec_crc32c(bytes: Seq<u8>) -> u32 {
    !crc_update(0xffff_ffffu32, bytes)
}

fn crc_step_exec(crc: u32) -> (res: u32)
    ensures
        res == crc_bit_step(crc),
{
    let mask: u32 = if crc & 1 == 1 { 0xffff_ffff } else { 0 };
    let res = (crc >> 1) ^ (CRC32C_POLY & mask);
    assert(res == crc_bit_step(crc)) by (bit_vector)
        requires
            mask == (if crc & 1 == 1 { 0xffff_ffffu32 } else { 0u32 }),
            res == (crc >> 1) ^ (0x82f6_3b78u32 & mask),
    ;
    res
}

/// Computes the CRC-32C checksum of `bytes`.
pub fn crc32c(bytes: &[u8]) -> (res: u32)
    ensures
        res == spec_crc32c(bytes@),
{
    let mut crc: u32 = 0xffff_ffff;
    let mut i: usize = 0;
    while i < bytes.len()
        invariant
            i <= bytes.len(),
            crc == crc_update(0xffff_ffffu32, bytes@.subrange(0, i as int)),
        decreases bytes.len() - i,
    {
        let ghost start = crc;
        crc = crc ^ (bytes[i] as u32);
        let mut k: u32 = 0;
        while k < 8
            invariant
                k <= 8,
                crc_bits(crc, (8 - k) as nat) == crc_byte(start, bytes@[i as int]),
            decreases 8 - k,
        {
            crc = crc_step_exec(crc);
            k = k + 1;
        }
        assert(bytes@.subrange(0, i + 1).drop_last() =~= bytes@.subrange(0, i as int));
        i = i + 1;
    }
    assert(bytes@.subrange(0, bytes.len() as int) =~= bytes@);
    !crc
}

} // verus!
