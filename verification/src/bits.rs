//! The arithmetic model of binary representations.
//!
//! The binary mechanism keeps one partial sum per set bit of the current
//! step index, so its invariants are phrased over `nbit` (bit `i` of `n`),
//! `bitlen` (the number of binary digits, `floor(log2 n) + 1`), `lowbit`
//! (the index of the lowest set bit) and `is_pow2`.  Everything is defined
//! by halving, which matches both the executable helpers below and the
//! inductive proofs.

use vstd::prelude::*;
use vstd::arithmetic::power2::{pow2, lemma2_to64, lemma_pow2_unfold, lemma_pow2_pos};

verus! {

/// Bit `i` of `n`.
pub open spec fn nbit(n: nat, i: nat) -> bool
    decreases i,
{
    if i == 0 {
        n % 2 == 1
    } else {
        nbit(n / 2, (i - 1) as nat)
    }
}

/// The number of binary digits of `n`: `floor(log2 n) + 1` for `n >= 1`,
/// and `0` for `n == 0`.
pub open spec fn bitlen(n: nat) -> nat
    decreases n,
{
    if n == 0 {
        0
    } else {
        1 + bitlen(n / 2)
    }
}

/// The index of the lowest set bit of `n` (0 for `n == 0`).
pub open spec fn lowbit(n: nat) -> nat
    decreases n,
{
    if n == 0 {
        0
    } else if n % 2 == 1 {
        0
    } else {
        1 + lowbit(n / 2)
    }
}

/// Whether `n` is an exact power of two.
pub open spec fn is_pow2(n: nat) -> bool
    decreases n,
{
    if n == 0 {
        false
    } else if n == 1 {
        true
    } else {
        n % 2 == 0 && is_pow2(n / 2)
    }
}

/// The largest power of two that is `<= n`, for `n >= 1`.
pub open spec fn pow2_floor(n: nat) -> nat
    decreases n,
{
    if n <= 1 {
        1
    } else {
        2 * pow2_floor(n / 2)
    }
}

/// How many of the step indices `1..=n` are exact powers of two.
pub open spec fn checkpoints_upto(n: nat) -> nat
    decreases n,
{
    if n == 0 {
        0
    } else {
        checkpoints_upto((n - 1) as nat) + if is_pow2(n) { 1nat } else { 0nat }
    }
}

/// No bit of zero is set.
pub proof fn lemma_nbit_zero(i: nat)
    ensures
        !nbit(0, i),
    decreases i,
{
    if i > 0 {
        lemma_nbit_zero((i - 1) as nat);
    }
}

/// The lowest set bit of `n >= 1` is set, and no bit below it is.
pub proof fn lemma_lowbit(n: nat)
    requires
        n >= 1,
    ensures
        nbit(n, lowbit(n)),
        forall|j: nat| j < lowbit(n) ==> !nbit(n, j),
    decreases n,
{
    if n % 2 == 0 {
        lemma_lowbit(n / 2);
        assert forall|j: nat| j < lowbit(n) implies !nbit(n, j) by {
            if j > 0 {
                assert(!nbit(n / 2, (j - 1) as nat));
            }
        }
    }
}

/// A set bit lies below the bit length.
pub proof fn lemma_nbit_bitlen(n: nat, i: nat)
    requires
        nbit(n, i),
    ensures
        i < bitlen(n),
    decreases i,
{
    if n == 0 {
        lemma_nbit_zero(i);
    } else if i > 0 {
        lemma_nbit_bitlen(n / 2, (i - 1) as nat);
    }
}

/// `bitlen` is monotone.
pub proof fn lemma_bitlen_mono(m: nat, n: nat)
    requires
        m <= n,
    ensures
        bitlen(m) <= bitlen(n),
    decreases n,
{
    if m >= 1 {
        lemma_bitlen_mono(m / 2, n / 2);
    }
}

/// Anything below `pow2(k)` has at most `k` binary digits.
pub proof fn lemma_bitlen_below_pow2(n: nat, k: nat)
    requires
        n < pow2(k),
    ensures
        bitlen(n) <= k,
    decreases k,
{
    if n >= 1 {
        assert(k >= 1) by {
            lemma2_to64();
        }
        lemma_pow2_unfold(k);
        lemma_bitlen_below_pow2(n / 2, (k - 1) as nat);
    }
}

/// A power of two written with `k` doublings has `k + 1` binary digits.
pub proof fn lemma_bitlen_pow2(k: nat)
    ensures
        bitlen(pow2(k)) == k + 1,
    decreases k,
{
    if k == 0 {
        assert(pow2(0) == 1) by {
            lemma2_to64();
        }
        assert(bitlen(0nat) == 0);
        assert(bitlen(1nat) == 1);
    } else {
        lemma_pow2_pos((k - 1) as nat);
        lemma_pow2_unfold(k);
        lemma_bitlen_pow2((k - 1) as nat);
        let p = pow2((k - 1) as nat);
        assert(pow2(k) == 2 * p);
        assert((2 * p) / 2 == p);
        assert(bitlen((2 * p) as nat) == 1 + bitlen(p));
    }
}

/// Every supported horizon has between 1 and 21 binary digits.
pub proof fn lemma_levels_bound(h: nat)
    requires
        1 <= h <= 1048576,
    ensures
        1 <= bitlen(h) <= 21,
{
    lemma2_to64();
    lemma_bitlen_pow2(20);
    lemma_bitlen_mono(h, 1048576);
    lemma_bitlen_mono(1, h);
}

/// Bit lengths of `u64` values fit in 64.
pub proof fn lemma_bitlen_u64(n: u64)
    ensures
        bitlen(n as nat) <= 64,
{
    lemma2_to64();
    lemma_bitlen_below_pow2(n as nat, 64);
}

/// Incrementing flips the trailing run of ones: with `t = s + 1` and
/// `i = lowbit(t)`, the bits of `s` below `i` are all ones, bit `i` of `s`
/// is clear, and above `i` the bits of `s` and `t` agree.
pub proof fn lemma_succ_bits(s: nat)
    ensures
        forall|j: nat| j < lowbit(s + 1) ==> nbit(s, j),
        !nbit(s, lowbit(s + 1)),
        forall|j: nat| j > lowbit(s + 1) ==> nbit(s + 1, j) == nbit(s, j),
    decreases s,
{
    let t = s + 1;
    let i = lowbit(t);
    if s % 2 == 0 {
        // t is odd, so i == 0: nothing below, bit 0 of s is clear, and the
        // higher bits agree because t / 2 == s / 2.
        assert(t % 2 == 1);
        assert(t / 2 == s / 2);
        assert forall|j: nat| j > i implies nbit(t, j) == nbit(s, j) by {
            assert(nbit(t, j) == nbit(t / 2, (j - 1) as nat));
            assert(nbit(s, j) == nbit(s / 2, (j - 1) as nat));
        }
    } else {
        // t is even: recurse on s / 2 against t / 2 == s / 2 + 1.
        let m = s / 2;
        assert(t % 2 == 0);
        assert(t / 2 == m + 1);
        lemma_succ_bits(m);
        let ip = lowbit((m + 1) as nat);
        assert(i == 1 + ip);
        assert forall|j: nat| j < i implies nbit(s, j) by {
            if j > 0 {
                assert(nbit(s, j) == nbit(m, (j - 1) as nat));
            }
        }
        assert(nbit(s, i) == nbit(m, ip));
        assert forall|j: nat| j > i implies nbit(t, j) == nbit(s, j) by {
            assert(nbit(t, j) == nbit((m + 1) as nat, (j - 1) as nat));
            assert(nbit(s, j) == nbit(m, (j - 1) as nat));
        }
    }
}

/// The bit length grows by one exactly at powers of two.
pub proof fn lemma_bitlen_step(n: nat)
    requires
        n >= 1,
    ensures
        bitlen(n) == bitlen((n - 1) as nat) + if is_pow2(n) { 1nat } else { 0nat },
    decreases n,
{
    if n == 1 {
    } else if n % 2 == 1 {
        // n - 1 is even and (n - 1) / 2 == n / 2, so both lengths agree.
        assert(((n - 1) as nat) / 2 == n / 2);
    } else {
        let m = n / 2;
        lemma_bitlen_step(m);
        assert(((n - 1) as nat) % 2 == 1);
        assert(((n - 1) as nat) / 2 == (m - 1) as nat);
    }
}

/// Checkpoint-only release, counted: among the step indices `1..=n` exactly
/// `bitlen(n)`, that is `floor(log2 n) + 1`, are powers of two.
pub proof fn lemma_checkpoints_bitlen(n: nat)
    ensures
        checkpoints_upto(n) == bitlen(n),
    decreases n,
{
    if n >= 1 {
        lemma_checkpoints_bitlen((n - 1) as nat);
        lemma_bitlen_step(n);
    }
}

/// `pow2_floor(n)` is a power of two and satisfies `pow2_floor(n) <= n < 2 * pow2_floor(n)`.
pub proof fn lemma_pow2_floor_bounds(n: nat)
    requires
        n >= 1,
    ensures
        is_pow2(pow2_floor(n)),
        pow2_floor(n) <= n,
        n < 2 * pow2_floor(n),
    decreases n,
{
    if n >= 2 {
        lemma_pow2_floor_bounds(n / 2);
        assert(is_pow2(2 * pow2_floor(n / 2)));
    }
}

/// Away from powers of two, `pow2_floor` does not move.
pub proof fn lemma_pow2_floor_step(n: nat)
    requires
        n >= 2,
        !is_pow2(n),
    ensures
        pow2_floor(n) == pow2_floor((n - 1) as nat),
    decreases n,
{
    if n % 2 == 1 {
        assert(((n - 1) as nat) / 2 == n / 2);
        if n - 1 >= 2 {
            assert(pow2_floor((n - 1) as nat) == 2 * pow2_floor(n / 2));
        }
    } else {
        let m = n / 2;
        assert(!is_pow2(m));
        assert(m >= 2) by {
            if m == 1 {
                assert(is_pow2(2nat));
            }
        }
        lemma_pow2_floor_step(m);
        assert(((n - 1) as nat) / 2 == (m - 1) as nat);
        assert(pow2_floor((n - 1) as nat) == 2 * pow2_floor((m - 1) as nat));
    }
}

/// At a power of two, `pow2_floor` is the number itself.
pub proof fn lemma_pow2_floor_exact(n: nat)
    requires
        is_pow2(n),
    ensures
        pow2_floor(n) == n,
    decreases n,
{
    if n >= 2 {
        lemma_pow2_floor_exact(n / 2);
    }
}

/// `floor(log2 n) + 1` of a `u64`, computed by halving; 0 for `n == 0`.
pub fn bit_length(n: u64) -> (r: usize)
    ensures
        r == bitlen(n as nat),
{
    proof {
        lemma_bitlen_u64(n);
    }
    let mut x: u64 = n;
    let mut l: usize = 0;
    while x > 0
        invariant
            l + bitlen(x as nat) == bitlen(n as nat),
            bitlen(n as nat) <= 64,
        decreases x,
    {
        x = x / 2;
        l = l + 1;
    }
    l
}

/// The index of the lowest set bit of `n >= 1`, computed by halving.
pub fn lowest_set_bit(n: u64) -> (r: usize)
    requires
        n >= 1,
    ensures
        r == lowbit(n as nat),
{
    proof {
        lemma_lowbit(n as nat);
        lemma_nbit_bitlen(n as nat, lowbit(n as nat));
        lemma_bitlen_u64(n);
    }
    let mut x: u64 = n;
    let mut r: usize = 0;
    while x % 2 == 0
        invariant
            x >= 1,
            r + lowbit(x as nat) == lowbit(n as nat),
            lowbit(n as nat) < 64,
        decreases x,
    {
        x = x / 2;
        r = r + 1;
    }
    r
}

/// Whether `n` is an exact power of two, decided by halving.
pub fn is_power_of_two(n: u64) -> (r: bool)
    ensures
        r == is_pow2(n as nat),
{
    if n == 0 {
        return false;
    }
    let mut x: u64 = n;
    while x % 2 == 0
        invariant
            x >= 1,
            is_pow2(x as nat) == is_pow2(n as nat),
        decreases x,
    {
        x = x / 2;
    }
    x == 1
}

} // verus!
