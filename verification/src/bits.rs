//! Powers of two, integer logarithms and bit reversal.
//!
//! The radix-2 transform addresses its first stage through the bit-reversal
//! permutation; the facts about that permutation which the rest of the crate
//! relies on are proved here.

use vstd::prelude::*;
use vstd::arithmetic::power2::{pow2, lemma_pow2_pos, lemma_pow2_unfold, lemma_pow2_adds,
    lemma_pow2_strictly_increases, lemma2_to64};
use vstd::arithmetic::div_mod::{lemma_div_denominator, lemma_hoist_over_denominator,
    lemma_div_multiples_vanish_fancy, lemma_fundamental_div_mod};
use vstd::bits::{lemma_u32_shl_is_mul, lemma_u32_pow2_no_overflow};

verus! {

/// Bit `j` of `x` (0 or 1), bit 0 being the least significant.
pub open spec fn bit_at(x: nat, j: nat) -> nat {
    (x / pow2(j)) % 2
}

/// The number whose low `bits` bits are those of `x` in reverse order, and
/// whose other bits are zero.
pub open spec fn bit_reversal(x: nat, bits: nat) -> nat
    decreases bits,
{
    if bits == 0 {
        0
    } else {
        2 * bit_reversal(x, (bits - 1) as nat) + bit_at(x, (bits - 1) as nat)
    }
}

/// Bit `j + 1` of `x` is bit `j` of `x / 2`.
pub proof fn lemma_bit_at_shift(x: nat, j: nat)
    ensures
        bit_at(x, j + 1) == bit_at(x / 2, j),
{
    lemma_pow2_pos(j);
    lemma_pow2_unfold(j + 1);
    lemma_div_denominator(x as int, 2, pow2(j) as int);
}

/// Adding a multiple of `2^m` leaves the bits below `m` unchanged.
pub proof fn lemma_bit_at_add_multiple(z: nat, c: nat, m: nat, j: nat)
    requires
        j < m,
    ensures
        bit_at(z + c * pow2(m), j) == bit_at(z, j),
{
    let d = pow2(j);
    let rest = pow2((m - j - 1) as nat);
    lemma_pow2_pos(j);
    lemma_pow2_adds(j, (m - j) as nat);
    lemma_pow2_unfold((m - j) as nat);
    assert(pow2(m) == d * (2 * rest));
    let q = 2 * (c * rest);
    assert(c * pow2(m) == q * d) by (nonlinear_arith)
        requires
            pow2(m) == d * (2 * rest),
            q == 2 * (c * rest),
    ;
    lemma_hoist_over_denominator(z as int, q as int, d);
    assert((z + c * pow2(m)) / d == z / d + q);
}

/// A reversal over `n` bits is below `2^n`.
pub proof fn lemma_bit_reversal_bound(x: nat, n: nat)
    ensures
        bit_reversal(x, n) < pow2(n),
    decreases n,
{
    if n == 0 {
        lemma2_to64();
    } else {
        lemma_bit_reversal_bound(x, (n - 1) as nat);
        lemma_pow2_unfold(n);
    }
}

/// A reversal over `n` bits does not look at bit `n` or above.
pub proof fn lemma_bit_reversal_ignores_high(z: nat, c: nat, n: nat)
    ensures
        bit_reversal(z + c * pow2(n), n) == bit_reversal(z, n),
    decreases n,
{
    if n > 0 {
        let m = (n - 1) as nat;
        lemma_pow2_unfold(n);
        assert(c * pow2(n) == (2 * c) * pow2(m)) by (nonlinear_arith)
            requires
                pow2(n) == 2 * pow2(m),
        ;
        lemma_bit_reversal_ignores_high(z, 2 * c, m);
        lemma_bit_at_add_multiple(z, c, n, m);
    }
}

/// Reversing `n + 1` bits sends the lowest bit of `x` to position `n` and
/// reverses the remaining bits below it.
pub proof fn lemma_bit_reversal_peel_low(x: nat, n: nat)
    ensures
        bit_reversal(x, n + 1) == (x % 2) * pow2(n) + bit_reversal(x / 2, n),
    decreases n,
{
    if n == 0 {
        lemma2_to64();
        reveal_with_fuel(bit_reversal, 2);
        assert(bit_at(x, 0) == x % 2);
    } else {
        let m = (n - 1) as nat;
        lemma_bit_reversal_peel_low(x, m);
        lemma_bit_at_shift(x, m);
        lemma_pow2_unfold(n);
        assert(2 * ((x % 2) * pow2(m)) == (x % 2) * pow2(n)) by (nonlinear_arith)
            requires
                pow2(n) == 2 * pow2(m),
        ;
        assert(bit_reversal(x, n + 1) == 2 * bit_reversal(x, n) + bit_at(x, n));
        assert(bit_reversal(x / 2, n) == 2 * bit_reversal(x / 2, m) + bit_at(x / 2, m));
    }
}

/// Bit `j` of the reversal of `x` over `n` bits is bit `n - 1 - j` of `x`.
pub proof fn lemma_bit_reversal_bits(x: nat, n: nat, j: nat)
    requires
        j < n,
    ensures
        bit_at(bit_reversal(x, n), j) == bit_at(x, (n - 1 - j) as nat),
    decreases n,
{
    let m = (n - 1) as nat;
    let r = bit_reversal(x, n);
    if j == 0 {
        lemma2_to64();
        assert(bit_at(r, 0) == r % 2);
    } else {
        lemma_bit_at_shift(r, (j - 1) as nat);
        assert(r / 2 == bit_reversal(x, m));
        lemma_bit_reversal_bits(x, m, (j - 1) as nat);
    }
}

/// Reversing twice over the same width gives back any number that fits the width.
pub proof fn lemma_bit_reversal_involution(x: nat, n: nat)
    requires
        x < pow2(n),
    ensures
        bit_reversal(bit_reversal(x, n), n) == x,
    decreases n,
{
    if n == 0 {
        lemma2_to64();
    } else {
        let m = (n - 1) as nat;
        let z = bit_reversal(x / 2, m);
        let y = bit_reversal(x, n);
        lemma_pow2_unfold(n);
        lemma_pow2_pos(m);
        lemma_bit_reversal_peel_low(x, m);
        assert(y == (x % 2) * pow2(m) + z);
        lemma_bit_reversal_bound(x / 2, m);
        lemma_bit_reversal_ignores_high(z, x % 2, m);
        lemma_bit_reversal_involution(x / 2, m);
        assert(bit_reversal(y, m) == x / 2);
        assert(y == pow2(m) * (x % 2) + z) by (nonlinear_arith)
            requires
                y == (x % 2) * pow2(m) + z,
        ;
        lemma_div_multiples_vanish_fancy((x % 2) as int, z as int, pow2(m) as int);
        assert(bit_at(y, m) == x % 2);
    }
}

/// Reverses the low `size` bits of `x`.
///
/// For `size` above 32 the accumulator wraps, which the first clause accounts for.
pub fn bit_reverse(x: u32, size: u32) -> (n: u32)
    ensures
        n == bit_reversal(x as nat, size as nat) % 0x1_0000_0000,
        size <= 32 ==> n == bit_reversal(x as nat, size as nat),
{
    let ghost x0 = x as nat;
    let mut x = x;
    let mut n: u32 = 0;
    let mask: u32 = 0x1;
    let mut i: u32 = 0;
    proof {
        lemma2_to64();
        assert(x0 / pow2(0) == x0);
    }
    while i < size
        invariant
            i <= size,
            x == x0 / pow2(i as nat),
            n == bit_reversal(x0, i as nat) % 0x1_0000_0000,
            mask == 1,
        decreases size - i,
    {
        let ghost n_prev = n;
        let ghost x_prev = x;
        n = n << 1;
        n = n | (x & mask);
        x = x >> 1;
        proof {
            assert(((n_prev << 1u32) | (x_prev & 1u32)) == (2 * n_prev + x_prev % 2) % 0x1_0000_0000)
                by (bit_vector);
            assert(x_prev >> 1u32 == x_prev / 2) by (bit_vector);
            lemma_pow2_pos(i as nat);
            lemma_pow2_unfold((i + 1) as nat);
            lemma_div_denominator(x0 as int, pow2(i as nat) as int, 2);
            assert(pow2(i as nat) * 2 == pow2((i + 1) as nat));
            assert(x_prev % 2 == bit_at(x0, i as nat));
        }
        i = i + 1;
    }
    proof {
        if size <= 32 {
            lemma_bit_reversal_bound(x0, size as nat);
            lemma2_to64();
            if size < 32 {
                lemma_pow2_strictly_increases(size as nat, 32);
            }
        }
    }
    n
}

/// `2^e` as a machine word.
pub fn pow2_u32(e: u32) -> (p: u32)
    requires
        e < 32,
    ensures
        p == pow2(e as nat),
{
    proof {
        lemma_u32_pow2_no_overflow(e as nat);
        lemma_u32_shl_is_mul(1u32, e);
    }
    1u32 << e
}

/// The integer base-2 logarithm of `size`, rounded down.
pub fn ilog2(size: u32) -> (l: u32)
    requires
        size > 0,
    ensures
        l < 32,
        pow2(l as nat) <= size < pow2((l + 1) as nat),
{
    let mut v: u32 = size;
    let mut l: u32 = 0;
    proof {
        lemma2_to64();
        assert(size as nat / pow2(0) == size);
    }
    while v > 1
        invariant
            v >= 1,
            v == size as nat / pow2(l as nat),
            l < 32,
            pow2(l as nat) <= size,
            pow2(l as nat) <= u32::MAX,
        decreases v,
    {
        proof {
            let p = pow2(l as nat) as int;
            lemma_pow2_pos(l as nat);
            lemma_pow2_unfold((l + 1) as nat);
            lemma_div_denominator(size as int, p, 2);
            lemma_fundamental_div_mod(size as int, p);
            assert(p * (size as int / p) >= p * 2) by (nonlinear_arith)
                requires
                    size as int / p >= 2,
                    p > 0,
            ;
            if l == 31 {
                lemma2_to64();
            }
        }
        v = v / 2;
        l = l + 1;
    }
    proof {
        let p = pow2(l as nat) as int;
        lemma_pow2_pos(l as nat);
        lemma_pow2_unfold((l + 1) as nat);
        lemma_fundamental_div_mod(size as int, p);
        assert(p * (size as int / p) == p) by (nonlinear_arith)
            requires
                size as int / p == 1,
        ;
    }
    l
}

} // verus!
