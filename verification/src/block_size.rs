//! The trigger moduli of the two tracks, derived from the length of the input.

use vstd::prelude::*;

verus! {

/// The largest number of symbols that one track contributes to a signature.
pub const SYMBOL_CAP: usize = 64;

/// `n` is 1, 2, 4, 8, ...
pub open spec fn is_power_of_two(n: nat) -> bool
    decreases n,
{
    n == 1 || (n >= 2 && n % 2 == 0 && is_power_of_two(n / 2))
}

/// `b` is the smallest power of two with `b * 64 >= size`: it is a power of
/// two that is large enough, and the power of two below it is too small.
pub open spec fn is_block_size_for(b: nat, size: nat) -> bool {
    &&& is_power_of_two(b)
    &&& b * 64 >= size
    &&& b > 1 ==> (b / 2) * 64 < size
}

/// The primary block size of an input of `size` bytes.
pub open spec fn block_size_for(size: nat) -> nat {
    choose|b: nat| is_block_size_for(b, size)
}

/// The block size of the second, finer track.
pub open spec fn finer_block_size(b: nat) -> nat {
    if b > 1 {
        b / 2
    } else {
        1
    }
}

/// Of two distinct powers of two the larger is at least twice the smaller.
pub proof fn lemma_powers_of_two_gap(a: nat, b: nat)
    requires
        is_power_of_two(a),
        is_power_of_two(b),
        a < b,
    ensures
        2 * a <= b,
    decreases b,
{
    if a > 1 {
        lemma_powers_of_two_gap(a / 2, b / 2);
    }
}

/// The block size grows with the input: a longer input never gets a smaller
/// block size than a shorter one.
pub proof fn lemma_block_size_monotonic(b1: nat, size1: nat, b2: nat, size2: nat)
    requires
        is_block_size_for(b1, size1),
        is_block_size_for(b2, size2),
        size1 <= size2,
    ensures
        b1 <= b2,
{
    if b2 < b1 {
        lemma_powers_of_two_gap(b2, b1);
    }
}

/// At most one number is the block size of a given input length, and
/// `block_size_for` is that number.
pub proof fn lemma_block_size_unique(b: nat, size: nat)
    requires
        is_block_size_for(b, size),
    ensures
        b == block_size_for(size),
{
    let c = block_size_for(size);
    lemma_block_size_monotonic(b, size, c, size);
    lemma_block_size_monotonic(c, size, b, size);
}

/// `block_size_for` is a power of two, covers the input with 64 blocks, and
/// does not decrease when the input grows.
pub proof fn lemma_block_size_properties(size1: nat, size2: nat)
    requires
        size1 <= size2,
    ensures
        is_power_of_two(block_size_for(size1)),
        block_size_for(size1) * 64 >= size1,
        block_size_for(size1) <= block_size_for(size2),
{
    lemma_block_size_exists(size1);
    lemma_block_size_exists(size2);
    lemma_block_size_monotonic(block_size_for(size1), size1, block_size_for(size2), size2);
}

/// Every input length has a block size.
pub proof fn lemma_block_size_exists(size: nat)
    ensures
        is_block_size_for(block_size_for(size), size),
{
    lemma_block_size_search(1, size);
}

proof fn lemma_block_size_search(b: nat, size: nat)
    requires
        b >= 1,
        is_power_of_two(b),
        b > 1 ==> (b / 2) * 64 < size,
    ensures
        exists|c: nat| is_block_size_for(c, size),
    decreases (if size > b * 64 { size - b * 64 } else { 0 }),
{
    if b * 64 >= size {
        assert(is_block_size_for(b, size));
    } else {
        assert(is_power_of_two(2 * b));
        lemma_block_size_search(2 * b, size);
    }
}

/// The primary block size for an input of `size` bytes: the smallest power of
/// two that, taken 64 times, reaches `size`. It is 1 for an empty input.
pub fn derive_bs(size: usize) -> (b: u64)
    ensures
        is_block_size_for(b as nat, size as nat),
        b as nat == block_size_for(size as nat),
{
    let mut b: u64 = 1;
    while (b as u128) * 64 < size as u128
        invariant
            b >= 1,
            is_power_of_two(b as nat),
            b > 1 ==> (b / 2) * 64 < size,
        decreases (if size > b * 64 { size - b * 64 } else { 0 }),
    {
        assert(is_power_of_two((2 * b) as nat));
        b = b * 2;
    }
    proof {
        lemma_block_size_unique(b as nat, size as nat);
    }
    b
}

/// The block size of the finer track: half the primary one, and never below 1.
pub fn finer_bs(b: u64) -> (f: u64)
    ensures
        f as nat == finer_block_size(b as nat),
{
    if b > 1 {
        b / 2
    } else {
        1
    }
}

} // verus!
