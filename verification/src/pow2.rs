//! Facts about powers of two that tie shifts and masks to multiplication,
//! division and remainder.

use vstd::prelude::*;
use vstd::arithmetic::div_mod::lemma_mod_multiples_vanish;
use vstd::arithmetic::power2::{
    pow2, lemma2_to64, lemma_pow2_adds, lemma_pow2_pos, lemma_pow2_strictly_increases,
    lemma_pow2_unfold,
};
use vstd::bits::{
    low_bits_mask, lemma_u64_low_bits_mask_is_mod, lemma_u64_pow2_no_overflow,
    lemma_u64_shl_is_mul, lemma_u64_shr_is_div,
};

verus! {

/// `1 << n` is `2^n` for every shift that stays inside 64 bits.
pub(crate) proof fn lemma_one_shl_is_pow2(n: u64)
    requires
        n < 64,
    ensures
        (1u64 << n) == pow2(n as nat),
        0 < pow2(n as nat) <= u64::MAX,
{
    lemma_u64_pow2_no_overflow(n as nat);
    lemma_u64_shl_is_mul(1u64, n);
}

/// Masking with `(1 << n) - 1` keeps the remainder modulo `2^n`.
pub(crate) proof fn lemma_mask_is_mod(x: u64, n: u64)
    requires
        n < 64,
    ensures
        (1u64 << n) >= 1,
        x & (((1u64 << n) - 1) as u64) == (x as nat) % pow2(n as nat),
{
    lemma_one_shl_is_pow2(n);
    lemma_u64_low_bits_mask_is_mod(x, n as nat);
    assert(low_bits_mask(n as nat) as u64 == ((1u64 << n) - 1) as u64);
}

/// Shifting right by `n` divides by `2^n`.
pub(crate) proof fn lemma_shr_is_div(x: u64, n: u64)
    requires
        n < 64,
    ensures
        (x >> n) == (x as nat) / pow2(n as nat),
{
    lemma_u64_shr_is_div(x, n);
}

/// Shifting a 128-bit value left by `n` multiplies it by `2^n`, as long as
/// the product fits.
pub(crate) proof fn lemma_u128_shl_is_mul(x: u128, n: u128)
    requires
        n < 128,
        x * pow2(n as nat) <= u128::MAX,
    ensures
        (x << n) == x * pow2(n as nat),
    decreases n,
{
    if n == 0 {
        assert(x << 0u128 == x) by (bit_vector);
        lemma2_to64();
    } else {
        let h: u128 = (n - 1) as u128;
        lemma_pow2_unfold(n as nat);
        lemma_pow2_pos(h as nat);
        assert(x * pow2(n as nat) == 2 * (x * pow2(h as nat))) by (nonlinear_arith)
            requires
                pow2(n as nat) == 2 * pow2(h as nat),
        ;
        lemma_u128_shl_is_mul(x, h);
        let y: u128 = x << h;
        assert((x << n) == (y << 1u128)) by (bit_vector)
            requires
                y == x << h,
                h + 1 == n,
                n < 128,
        ;
        assert((y << 1u128) == y * 2) by (bit_vector)
            requires
                y <= 0x7fff_ffff_ffff_ffff_ffff_ffff_ffff_ffffu128,
        ;
    }
}

/// The values of `2^127` and `2^128`, the latter one more than the largest
/// 128-bit number.
pub(crate) proof fn lemma_pow2_128()
    ensures
        pow2(127) == 0x8000_0000_0000_0000_0000_0000_0000_0000,
        pow2(128) == 0x1_0000_0000_0000_0000_0000_0000_0000_0000,
{
    lemma2_to64();
    lemma_pow2_adds(64, 64);
    lemma_pow2_unfold(128);
}

/// Powers of two grow with their exponent.
pub(crate) proof fn lemma_pow2_increases(a: nat, b: nat)
    requires
        a <= b,
    ensures
        pow2(a) <= pow2(b),
{
    if a < b {
        lemma_pow2_strictly_increases(a, b);
    }
}

/// A leading bit at or above position `k` does not show in the lowest `k`
/// bits.
pub(crate) proof fn lemma_leading_bit_vanishes(m: nat, lead: nat, k: nat)
    requires
        k <= lead,
    ensures
        (pow2(lead) + m) % pow2(k) == m % pow2(k),
{
    lemma_pow2_pos(k);
    lemma_pow2_adds(k, (lead - k) as nat);
    lemma_mod_multiples_vanish(pow2((lead - k) as nat) as int, m as int, pow2(k) as int);
}

} // verus!
