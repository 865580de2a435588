//! Facts about fixed-width words held in a `u128`.
use vstd::prelude::*;
use vstd::arithmetic::power2::{pow2, lemma_pow2_unfold, lemma2_to64};

verus! {

/// `w` is one of the supported internal word widths.
pub open spec fn valid_width(w: nat) -> bool {
    w == 8 || w == 16 || w == 32 || w == 64 || w == 128
}

/// The word whose low `w` bits are set (all of them when `w >= 128`).
pub open spec fn low_mask(w: nat) -> u128 {
    if w >= 128 {
        u128::MAX
    } else {
        u128::MAX >> ((128 - w) as u32)
    }
}

/// `v` fits in a `w`-bit word.
pub open spec fn fits(v: u128, w: nat) -> bool {
    v & low_mask(w) == v
}

/// Left shift inside a `w`-bit word: bits pushed past the top are lost.
pub open spec fn shl_in(v: u128, k: nat, w: nat) -> u128 {
    (v << (k as u32)) & low_mask(w)
}

/// Number of consecutive one bits at the least significant end of `n`.
pub open spec fn trailing_ones(n: nat) -> nat
    decreases n,
{
    if n % 2 == 1 {
        1 + trailing_ones(n / 2)
    } else {
        0
    }
}

/// The mask of the low `w` bits is `2^w - 1`.
pub proof fn lemma_low_mask_value(w: nat)
    requires
        1 <= w <= 128,
    ensures
        low_mask(w) as nat + 1 == pow2(w),
    decreases w,
{
    if w == 1 {
        assert(u128::MAX >> 127u32 == 1) by (bit_vector);
        lemma2_to64();
    } else {
        lemma_low_mask_value((w - 1) as nat);
        let k = (128 - w) as u32;
        assert(k < 127);
        assert((u128::MAX >> k) == 2 * (u128::MAX >> ((k + 1) as u32)) + 1) by (bit_vector)
            requires
                k < 127,
        ;
        if w == 128 {
            assert(u128::MAX >> 0u32 == u128::MAX) by (bit_vector);
        }
        lemma_pow2_unfold(w);
    }
}

/// Masking with the low `w` bits gives a value that fits in `w` bits.
pub proof fn lemma_mask_fits(v: u128, w: nat)
    ensures
        fits(v & low_mask(w), w),
{
    let m = low_mask(w);
    assert((v & m) & m == v & m) by (bit_vector);
}

/// Exclusive or keeps values inside a `w`-bit word.
pub proof fn lemma_xor_fits(a: u128, b: u128, w: nat)
    requires
        fits(a, w),
        fits(b, w),
    ensures
        fits(a ^ b, w),
{
    let m = low_mask(w);
    assert((a ^ b) & m == a ^ b) by (bit_vector)
        requires
            a & m == a,
            b & m == b,
    ;
}

/// Right shift keeps values inside a `w`-bit word.
pub proof fn lemma_shr_fits(a: u128, k: u32, w: nat)
    requires
        fits(a, w),
    ensures
        fits(a >> k, w),
{
    let m = low_mask(w);
    if w >= 128 {
        assert((a >> k) & u128::MAX == a >> k) by (bit_vector);
    } else {
        let j = (128 - w) as u32;
        assert(((a >> k) & (u128::MAX >> j)) == a >> k) by (bit_vector)
            requires
                a & (u128::MAX >> j) == a,
        ;
    }
}

/// A single bit below position `w` fits in a `w`-bit word.
pub proof fn lemma_bit_fits(k: nat, w: nat)
    requires
        k < w <= 128,
    ensures
        fits(1u128 << (k as u32), w),
{
    let kk = k as u32;
    if w >= 128 {
        assert((1u128 << kk) & u128::MAX == 1u128 << kk) by (bit_vector);
    } else {
        let j = (128 - w) as u32;
        assert((1u128 << kk) & (u128::MAX >> j) == 1u128 << kk) by (bit_vector)
            requires
                kk < 128 - j,
                j <= 128,
        ;
    }
}

/// Zero fits in every word.
pub proof fn lemma_zero_fits(w: nat)
    ensures
        fits(0, w),
{
    let m = low_mask(w);
    assert(0u128 & m == 0) by (bit_vector);
}

} // verus!
