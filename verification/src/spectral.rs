//! Sizing of the radix-2 FFT buffer used by the spectral analysis.
use vstd::prelude::*;

verus! {

/// `2^k`.
pub open spec fn pow_of_two(k: nat) -> nat
    decreases k,
{
    if k == 0 {
        1
    } else {
        2 * pow_of_two((k - 1) as nat)
    }
}

/// The smallest power of two that is at least `n` (and at least 1).
pub fn next_pow2(n: usize) -> (p: usize)
    requires
        n <= usize::MAX / 2 + 1,
    ensures
        exists|k: nat| p == pow_of_two(k),
        p >= n,
        p >= 1,
        p == 1 || p / 2 < n,
{
    let mut p: usize = 1;
    let ghost mut k: nat = 0;
    while p < n
        invariant
            p == pow_of_two(k),
            1 <= p <= 2 * n + 1,
            p == 1 || p / 2 < n,
            n <= usize::MAX / 2 + 1,
        decreases 2 * n + 1 - p,
    {
        p = p * 2;
        proof {
            k = k + 1;
        }
    }
    p
}

} // verus!
