//! Powers of two, as buffer capacities are rounded to them.

use vstd::arithmetic::power2::{lemma_pow2_pos, lemma_pow2_strictly_increases, lemma_pow2_unfold, pow2};
use vstd::prelude::*;

verus! {

/// Whether `n` is `2^k` for some `k`.
pub open spec fn is_pow2(n: nat) -> bool {
    exists|k: nat| pow2(k) == n
}

/// The first number, from `p` on by doubling, that is at least `n`.
pub open spec fn next_pow2_from(p: nat, n: nat) -> nat
    decreases (if p < n { n - p } else { 0 }),
{
    if p == 0 || p >= n {
        p
    } else {
        next_pow2_from(2 * p, n)
    }
}

/// The smallest power of two that is at least `n` (1 for 0).
pub open spec fn next_pow2(n: nat) -> nat {
    next_pow2_from(1, n)
}

proof fn lemma_next_pow2_from(k: nat, n: nat)
    ensures
        is_pow2(next_pow2_from(pow2(k), n)),
        next_pow2_from(pow2(k), n) >= n,
        next_pow2_from(pow2(k), n) >= pow2(k),
        next_pow2_from(pow2(k), n) > pow2(k) ==> next_pow2_from(pow2(k), n) < 2 * n,
    decreases (if pow2(k) < n { n - pow2(k) } else { 0 }),
{
    lemma_pow2_pos(k);
    lemma_pow2_unfold(k + 1);
    assert(pow2((k + 1 - 1) as nat) == pow2(k));
    if pow2(k) < n {
        lemma_next_pow2_from(k + 1, n);
    }
}

/// `next_pow2(n)` is a power of two, at least `n` and at least 1, and below
/// `2 * n` when `n` is at least 1.
pub proof fn lemma_next_pow2(n: nat)
    ensures
        is_pow2(next_pow2(n)),
        next_pow2(n) >= n,
        next_pow2(n) >= 1,
        n >= 1 ==> next_pow2(n) < 2 * n,
{
    assert(pow2(0) == 1) by {
        lemma_pow2_unfold(1);
        vstd::arithmetic::power2::lemma2_to64();
    }
    lemma_next_pow2_from(0, n);
}

proof fn lemma_own_from(k: nat, m: nat)
    requires
        k <= m,
    ensures
        next_pow2_from(pow2(k), pow2(m)) == pow2(m),
    decreases m - k,
{
    lemma_pow2_pos(k);
    if k < m {
        lemma_pow2_strictly_increases(k, m);
        lemma_pow2_unfold(k + 1);
        assert(pow2((k + 1 - 1) as nat) == pow2(k));
        lemma_own_from(k + 1, m);
    }
}

/// A power of two is its own next power of two.
pub proof fn lemma_pow2_is_own_next(n: nat)
    requires
        is_pow2(n),
    ensures
        next_pow2(n) == n,
{
    let m = choose|m: nat| pow2(m) == n;
    assert(pow2(0) == 1) by {
        vstd::arithmetic::power2::lemma2_to64();
    }
    lemma_own_from(0, m);
}

/// Doubling from `p` on never goes below `p`.
proof fn lemma_next_pow2_from_at_least(p: nat, n: nat)
    ensures
        next_pow2_from(p, n) >= p,
    decreases (if p < n { n - p } else { 0 }),
{
    if p != 0 && p < n {
        lemma_next_pow2_from_at_least(2 * p, n);
    }
}

/// Whether `n` is a power of two.
pub fn is_power_of_two(n: usize) -> (res: bool)
    ensures
        res == is_pow2(n as nat),
{
    if n == 0 {
        proof {
            if is_pow2(0) {
                let k = choose|k: nat| pow2(k) == 0;
                lemma_pow2_pos(k);
            }
        }
        return false;
    }
    let mut p: usize = 1;
    let ghost mut k: nat = 0;
    proof {
        vstd::arithmetic::power2::lemma2_to64();
    }
    loop
        invariant
            1 <= p <= n,
            pow2(k) == p,
        decreases n - p,
    {
        if p == n {
            return true;
        }
        if p > n / 2 {
            proof {
                if is_pow2(n as nat) {
                    let j = choose|j: nat| pow2(j) == n;
                    lemma_pow2_unfold(k + 1);
                    assert(pow2((k + 1 - 1) as nat) == pow2(k));
                    if j <= k {
                        if j < k {
                            lemma_pow2_strictly_increases(j, k);
                        }
                    } else if j > k + 1 {
                        lemma_pow2_strictly_increases(k + 1, j);
                    }
                }
            }
            return false;
        }
        proof {
            lemma_pow2_unfold(k + 1);
            assert(pow2((k + 1 - 1) as nat) == pow2(k));
            k = k + 1;
        }
        p = p * 2;
    }
}

/// The smallest power of two that is at least `n`, for an `n` whose next
/// power of two fits.
pub fn next_power_of_two(n: usize) -> (res: usize)
    requires
        next_pow2(n as nat) <= usize::MAX,
    ensures
        res == next_pow2(n as nat),
{
    let mut p: usize = 1;
    while p < n
        invariant
            p >= 1,
            next_pow2_from(p as nat, n as nat) == next_pow2(n as nat),
            next_pow2(n as nat) <= usize::MAX,
        decreases usize::MAX - p,
    {
        proof {
            lemma_next_pow2_from_at_least(2 * p as nat, n as nat);
        }
        p = p * 2;
    }
    p
}

} // verus!
