//! Rounding up to a power of two.

use vstd::prelude::*;
use vstd::arithmetic::power2::{pow2, lemma_pow2_pos, lemma_pow2_unfold, lemma_pow2_strictly_increases, lemma2_to64, lemma2_to64_rest};

verus! {

/// `n` is `2^k` for some natural `k`.
pub open spec fn is_power_of_two(n: int) -> bool {
    exists|k: nat| pow2(k) == n
}

/// Doubles `p` until it reaches `n`.
pub open spec fn round_up_from(p: nat, n: nat) -> nat
    decreases (if p < n { n - p } else { 0 }),
{
    if 0 < p < n {
        round_up_from(2 * p, n)
    } else {
        p
    }
}

/// The least power of two that is at least `n`; `1` for `n == 0`.
pub open spec fn next_power_of_two(n: nat) -> nat {
    round_up_from(1, n)
}

proof fn lemma_round_up_from(k: nat, n: nat) -> (j: nat)
    requires
        k == 0 || pow2((k - 1) as nat) < n,
    ensures
        k <= j,
        round_up_from(pow2(k), n) == pow2(j),
        n <= pow2(j),
        j == 0 || pow2((j - 1) as nat) < n,
    decreases (if pow2(k) < n { n - pow2(k) } else { 0 }),
{
    lemma_pow2_pos(k);
    if pow2(k) < n {
        lemma_pow2_unfold(k + 1);
        lemma_round_up_from(k + 1, n)
    } else {
        k
    }
}

/// `next_power_of_two(n)` is a power of two, is at least `n`, and no smaller
/// power of two is at least `n`.
pub proof fn lemma_next_power_of_two(n: nat)
    ensures
        is_power_of_two(next_power_of_two(n) as int),
        n <= next_power_of_two(n),
        forall|p: int| is_power_of_two(p) && n <= p ==> next_power_of_two(n) <= p,
{
    lemma2_to64();
    let j = lemma_round_up_from(0, n);
    assert(pow2(j) == next_power_of_two(n));
    assert forall|p: int| is_power_of_two(p) && n <= p implies next_power_of_two(n) <= p by {
        let m = choose|m: nat| pow2(m) == p;
        if m < j {
            if m < j - 1 {
                lemma_pow2_strictly_increases(m, (j - 1) as nat);
            }
            assert(false);
        } else if m > j {
            lemma_pow2_strictly_increases(j, m);
        }
    }
}

/// A power of two below `2^e` is at most `2^(e-1)`.
proof fn lemma_power_below(p: int, e: nat)
    requires
        is_power_of_two(p),
        p < pow2(e),
    ensures
        e > 0,
        2 * p <= pow2(e),
{
    let k = choose|k: nat| pow2(k) == p;
    if k >= e {
        if k > e {
            lemma_pow2_strictly_increases(e, k);
        }
        assert(false);
    }
    lemma_pow2_unfold(k + 1);
    if k + 1 < e {
        lemma_pow2_strictly_increases(k + 1, e);
    }
}

/// Rounds `n` up to a power of two.
pub fn next_power_of_two_u64(n: u64) -> (r: u64)
    requires
        n <= 0x8000_0000_0000_0000,
    ensures
        r == next_power_of_two(n as nat),
{
    let mut p: u64 = 1;
    proof {
        lemma2_to64();
        lemma2_to64_rest();
    }
    while p < n
        invariant
            0 < p <= 0x8000_0000_0000_0000,
            n <= 0x8000_0000_0000_0000,
            is_power_of_two(p as int),
            pow2(63) == 0x8000_0000_0000_0000,
            round_up_from(p as nat, n as nat) == next_power_of_two(n as nat),
        decreases 0x8000_0000_0000_0000 - p,
    {
        proof {
            lemma_power_below(p as int, 63);
            let k = choose|k: nat| pow2(k) == p as int;
            lemma_pow2_unfold(k + 1);
        }
        p = p * 2;
    }
    p
}

/// Rounds `n` up to a power of two.
pub fn next_power_of_two_u32(n: u32) -> (r: u32)
    requires
        n <= 0x8000_0000,
    ensures
        r == next_power_of_two(n as nat),
{
    let wide: u64 = next_power_of_two_u64(n as u64);
    proof {
        lemma2_to64();
        lemma_next_power_of_two(n as nat);
        assert(is_power_of_two(0x8000_0000int)) by {
            assert(pow2(31) == 0x8000_0000int);
        }
    }
    wide as u32
}

} // verus!
