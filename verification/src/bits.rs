//! Bit-field extraction over packed 32-bit hardware words.
//!
//! A register blob is treated as one long little-endian bit stream: bit 0 of
//! word 0 is the global bit 0, bit 0 of word 1 is the global bit 32, and so
//! on.  `get_bits` extracts the unsigned value of an arbitrary inclusive bit
//! range of that stream; it is the single source of truth for every hardware
//! field decode in the crate.

use vstd::prelude::*;
use vstd::arithmetic::power2::{
    pow2, lemma_pow2_unfold, lemma_pow2_strictly_increases, lemma2_to64, lemma2_to64_rest,
};

verus! {

/// Bit `bit` of a single word, as 0 or 1.
pub open spec fn word_bit(w: u32, bit: int) -> u32
    recommends
        0 <= bit < 32,
{
    (w >> (bit as u32)) & 1
}

/// Global bit `i` of the packed little-endian bit stream `words`.
pub open spec fn stream_bit(words: Seq<u32>, i: int) -> u32
    recommends
        0 <= i < 32 * words.len(),
{
    word_bit(words[i / 32], i % 32)
}

/// The value of the `width`-bit field whose least-significant bit is global
/// bit `lo` of the stream: the sum of `stream_bit(lo + k) * 2^k` over
/// `k < width`.
pub open spec fn extract_bits(words: Seq<u32>, lo: int, width: nat) -> nat
    decreases width,
{
    if width == 0 {
        0
    } else {
        (stream_bit(words, lo) + 2 * extract_bits(words, lo + 1, (width - 1) as nat)) as nat
    }
}

/// A bit of the stream is 0 or 1.
pub proof fn lemma_stream_bit_le_one(words: Seq<u32>, i: int)
    ensures
        stream_bit(words, i) <= 1,
{
    let w = words[i / 32];
    let k = (i % 32) as u32;
    assert((w >> k) & 1 <= 1) by (bit_vector);
}

/// An extracted `width`-bit field is below `2^width`.
pub proof fn lemma_extract_bits_bound(words: Seq<u32>, lo: int, width: nat)
    ensures
        extract_bits(words, lo, width) < pow2(width),
    decreases width,
{
    if width == 0 {
        lemma2_to64();
    } else {
        lemma_extract_bits_bound(words, lo + 1, (width - 1) as nat);
        lemma_stream_bit_le_one(words, lo);
        lemma_pow2_unfold(width);
    }
}

/// Extract one bit of a 32-bit word, as 0 or 1.
pub fn get_bit(word: u32, bit: usize) -> (r: u64)
    requires
        bit < 32,
    ensures
        r == word_bit(word, bit as int),
        r <= 1,
{
    let b = (word >> (bit as u32)) & 0x1;
    proof {
        let k = bit as u32;
        assert((word >> k) & 1 <= 1) by (bit_vector);
    }
    b as u64
}

/// Extract the inclusive bit range `start ..= end` of the packed stream
/// `regs`, with `start` becoming the least-significant bit of the result.
pub fn get_bits(regs: &[u32], start: u16, end: u16) -> (r: u64)
    requires
        start <= end,
        (end as int) < 32 * regs@.len(),
        (end as int) - (start as int) < 64,
    ensures
        r as nat == extract_bits(regs@, start as int, (end - start + 1) as nat),
        (r as nat) < pow2((end - start + 1) as nat),
{
    let mut rval: u64 = 0;
    let mut idx: usize = end as usize + 1;
    proof {
        lemma2_to64();
    }
    while idx > start as usize
        invariant
            start <= end,
            (end as int) < 32 * regs@.len(),
            (end as int) - (start as int) < 64,
            start as int <= idx as int <= end as int + 1,
            rval as nat == extract_bits(regs@, idx as int, (end as int + 1 - idx as int) as nat),
            (rval as nat) < pow2((end as int + 1 - idx as int) as nat),
        decreases idx,
    {
        idx = idx - 1;
        let word: usize = idx / 32;
        let bit: usize = idx % 32;
        let ghost w_old = (end as int - idx as int) as nat;
        let ghost w_new = (end as int + 1 - idx as int) as nat;
        proof {
            if w_old < 63 {
                lemma_pow2_strictly_increases(w_old, 63);
            }
            lemma2_to64_rest();
            lemma_pow2_unfold(w_new);
        }
        let b = get_bit(regs[word], bit);
        rval = rval * 2 + b;
    }
    rval
}

} // verus!
