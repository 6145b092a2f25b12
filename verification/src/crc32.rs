//! CRC-32 (reflected polynomial 0xEDB88320), the checksum that closes every message.

use vstd::prelude::*;

verus! {

/// Number of checksum bytes at the end of a message.
pub const CHECKSUM_LEN: usize = 4;

/// The register before any byte has been read.
pub const CRC_INIT: u32 = 0xFFFF_FFFF;

/// One shift of the checksum register.
pub open spec fn crc_shift(reg: u32) -> u32 {
    if reg & 1 == 1 {
        (reg >> 1) ^ 0xEDB8_8320u32
    } else {
        reg >> 1
    }
}

/// The register after `n` shifts.
pub open spec fn crc_shifts(reg: u32, n: nat) -> u32
    decreases n,
{
    if n == 0 {
        reg
    } else {
        crc_shifts(crc_shift(reg), (n - 1) as nat)
    }
}

/// The register after one more byte.
pub open spec fn crc_byte(reg: u32, byte: u8) -> u32 {
    crc_shifts(reg ^ (byte as u32), 8)
}

/// The register after reading `data`, first byte first.
pub open spec fn crc_update(reg: u32, data: Seq<u8>) -> u32
    decreases data.len(),
{
    if data.len() == 0 {
        reg
    } else {
        crc_update(crc_byte(reg, data[0]), data.skip(1))
    }
}

/// The CRC-32 of `data`.
pub open spec fn crc32(data: Seq<u8>) -> u32 {
    crc_update(CRC_INIT, data) ^ 0xFFFF_FFFFu32
}

/// The four checksum bytes of `data`, most significant first.
pub open spec fn crc32_bytes(data: Seq<u8>) -> Seq<u8> {
    word_bytes(crc32(data))
}

/// A 32-bit word as four bytes, most significant first.
pub open spec fn word_bytes(w: u32) -> Seq<u8> {
    seq![(w >> 24) as u8, ((w >> 16) & 0xff) as u8, ((w >> 8) & 0xff) as u8, (w & 0xff) as u8]
}

/// Reading `a` and then `b` is reading `a + b`.
pub proof fn lemma_crc_update_concat(reg: u32, a: Seq<u8>, b: Seq<u8>)
    ensures
        crc_update(reg, a + b) == crc_update(crc_update(reg, a), b),
    decreases a.len(),
{
    if a.len() == 0 {
        assert(a + b =~= b);
    } else {
        assert((a + b)[0] == a[0]);
        assert((a + b).skip(1) =~= a.skip(1) + b);
        lemma_crc_update_concat(crc_byte(reg, a[0]), a.skip(1), b);
    }
}

/// Advances the register by one byte.
pub fn step(reg: u32, byte: u8) -> (r: u32)
    ensures
        r == crc_byte(reg, byte),
{
    let mut cur: u32 = reg ^ (byte as u32);
    let mut k: u8 = 0;
    while k < 8
        invariant
            k <= 8,
            crc_shifts(cur, (8 - k) as nat) == crc_byte(reg, byte),
        decreases 8 - k,
    {
        reveal_with_fuel(crc_shifts, 2);
        cur = if cur & 1 == 1 {
            (cur >> 1) ^ 0xEDB8_8320u32
        } else {
            cur >> 1
        };
        k += 1;
    }
    cur
}

/// Advances the register over `data`.
pub fn update(reg: u32, data: &[u8]) -> (r: u32)
    ensures
        r == crc_update(reg, data@),
{
    let mut cur: u32 = reg;
    let mut i: usize = 0;
    assert(data@.skip(0) =~= data@);
    while i < data.len()
        invariant
            i <= data@.len(),
            crc_update(cur, data@.skip(i as int)) == crc_update(reg, data@),
        decreases data@.len() - i,
    {
        assert(data@.skip(i as int).skip(1) =~= data@.skip(i + 1));
        cur = step(cur, data[i]);
        i += 1;
    }
    cur
}

/// Closes the register into the checksum.
pub fn finish(reg: u32) -> (r: u32)
    ensures
        r == reg ^ 0xFFFF_FFFFu32,
{
    reg ^ 0xFFFF_FFFFu32
}

/// The CRC-32 of `data`.
pub fn checksum(data: &[u8]) -> (r: u32)
    ensures
        r == crc32(data@),
{
    finish(update(CRC_INIT, data))
}

/// The CRC-32 of `first` followed by `second`.
pub fn checksum_of_two(first: &[u8], second: &[u8]) -> (r: u32)
    ensures
        r == crc32(first@ + second@),
{
    proof {
        lemma_crc_update_concat(CRC_INIT, first@, second@);
    }
    finish(update(update(CRC_INIT, first), second))
}

/// Splits a word into four bytes, most significant first.
pub fn to_bytes(w: u32) -> (r: [u8; 4])
    ensures
        r@ == word_bytes(w),
{
    let r = [(w >> 24) as u8, ((w >> 16) & 0xff) as u8, ((w >> 8) & 0xff) as u8, (w & 0xff) as u8];
    assert(r@ =~= word_bytes(w));
    r
}

} // verus!
