//! Selection of one of a power of two shards.

use vstd::arithmetic::power::pow;
use vstd::arithmetic::power2::{is_pow2, is_pow2_exists, pow2};
use vstd::prelude::*;

verus! {

/// Whether `n` is a power of two.
pub fn is_power_of_two(n: usize) -> (yes: bool)
    ensures
        yes == is_pow2(n as int),
    decreases n,
{
    reveal(is_pow2);
    if n == 0 {
        false
    } else if n == 1 {
        true
    } else {
        n % 2 == 0 && is_power_of_two(n / 2)
    }
}

/// The shard that a hash selects: its residue modulo the shard count.
pub fn shard_index(hash: u64, mask: u64) -> (index: usize)
    requires
        mask < usize::MAX,
        is_pow2(mask + 1),
    ensures
        index == hash as int % (mask + 1),
{
    proof {
        lemma_masked_is_residue(hash, mask);
        vstd::arithmetic::div_mod::lemma_mod_bound(hash as int, mask + 1);
    }
    (hash & mask) as usize
}

/// Masking with one less than a power of two is taking the residue.
proof fn lemma_masked_is_residue(hash: u64, mask: u64)
    requires
        is_pow2(mask + 1),
        mask < u64::MAX,
    ensures
        (hash & mask) == hash as int % (mask + 1),
{
    vstd::arithmetic::power2::is_pow2_equiv(mask + 1);
    assert(is_pow2_exists(mask + 1));
    let k = choose|k: nat| pow(2, k) == mask + 1;
    assert(pow2(k) == mask + 1);
    assert(k < 64) by {
        if k >= 64 {
            vstd::arithmetic::power2::lemma2_to64();
            vstd::arithmetic::power2::lemma2_to64_rest();
            if k > 64 {
                vstd::arithmetic::power2::lemma_pow2_strictly_increases(64, k);
            }
        }
    }
    vstd::bits::lemma_u64_low_bits_mask_is_mod(hash, k);
}

} // verus!
