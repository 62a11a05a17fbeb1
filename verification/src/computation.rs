//! The long-running computation that the extension module runs while the
//! Python interpreter is released.

use vstd::prelude::*;

verus! {

/// 2^64, the modulus of `u64` arithmetic.
pub open spec fn u64_modulus() -> int {
    0x1_0000_0000_0000_0000
}

/// `0 + 1 + ... + (n - 1)`.
pub open spec fn sum_below(n: nat) -> nat
    decreases n,
{
    if n == 0 {
        0
    } else {
        sum_below((n - 1) as nat) + (n - 1) as nat
    }
}

/// Gauss: `0 + 1 + ... + (n - 1) == n * (n - 1) / 2`.
pub proof fn lemma_sum_below_closed_form(n: nat)
    ensures
        sum_below(n) == n * (n - 1) / 2,
    decreases n,
{
    if n > 0 {
        lemma_sum_below_closed_form((n - 1) as nat);
        let m = (n - 1) as int;
        assert(m * (m - 1) / 2 + m == (m + 1) * m / 2) by (nonlinear_arith)
            requires
                m >= 0,
        {
            assert((m + 1) * m == m * (m - 1) + 2 * m);
        }
    }
}

/// Adds `i` to `acc` modulo 2^64 and keeps `acc` a residue of the running sum.
proof fn lemma_wrapping_step(acc: u64, i: u64, s: int)
    requires
        acc as int == s % u64_modulus(),
    ensures
        acc.wrapping_add(i) as int == (s + i) % u64_modulus(),
{
    let m = u64_modulus();
    vstd::arithmetic::div_mod::lemma_add_mod_noop(s, i as int, m);
    vstd::arithmetic::div_mod::lemma_small_mod(i as nat, m as nat);
    if acc + i >= m {
        vstd::arithmetic::div_mod::lemma_small_mod((acc + i - m) as nat, m as nat);
        vstd::arithmetic::div_mod::lemma_mod_add_multiples_vanish(acc + i - m, m);
    } else {
        vstd::arithmetic::div_mod::lemma_small_mod((acc + i) as nat, m as nat);
    }
}

/// The wrapping `u64` sum `0 + 1 + ... + (count - 1)`.
pub fn heavy_computation(count: u64) -> (r: u64)
    ensures
        r as int == (sum_below(count as nat) as int) % u64_modulus(),
        r as int == (count * (count - 1) / 2) % u64_modulus(),
{
    let mut sum: u64 = 0;
    let mut i: u64 = 0;
    while i < count
        invariant
            i <= count,
            sum as int == (sum_below(i as nat) as int) % u64_modulus(),
        decreases count - i,
    {
        proof {
            lemma_wrapping_step(sum, i, sum_below(i as nat) as int);
        }
        sum = sum.wrapping_add(i);
        i = i + 1;
    }
    proof {
        lemma_sum_below_closed_form(count as nat);
    }
    sum
}

} // verus!
