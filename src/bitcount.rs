//! Bit counts over the logical width of a packed value: the carrier's
//! padding bits above the width are never counted.
use crate::arith::{fits, max_of_width, valid_width};
use vstd::arithmetic::div_mod::*;
use vstd::arithmetic::power2::*;
use vstd::prelude::*;

verus! {

/// The number of ones among the `n` low bits of `a`.
pub open spec fn ones(a: nat, n: nat) -> nat
    decreases n,
{
    if n == 0 {
        0
    } else {
        a % 2 + ones(a / 2, (n - 1) as nat)
    }
}

/// The number of bits that `a` needs: one more than the place of its highest
/// one bit, 0 for 0.
pub open spec fn bit_length(a: nat) -> nat
    decreases a,
{
    if a == 0 {
        0
    } else {
        1 + bit_length(a / 2)
    }
}

/// The number of zero bits below the lowest one bit of `a`, counting at most
/// `n` bits.
pub open spec fn low_zeros(a: nat, n: nat) -> nat
    decreases n,
{
    if n == 0 || a % 2 == 1 {
        0
    } else {
        1 + low_zeros(a / 2, (n - 1) as nat)
    }
}

/// The number of one bits below the lowest zero bit of `a`, counting at most
/// `n` bits.
pub open spec fn low_ones(a: nat, n: nat) -> nat
    decreases n,
{
    if n == 0 || a % 2 == 0 {
        0
    } else {
        1 + low_ones(a / 2, (n - 1) as nat)
    }
}

pub proof fn lemma_bit_length_bound(a: nat, w: nat)
    requires
        a < pow2(w),
    ensures
        bit_length(a) <= w,
    decreases w,
{
    if a == 0 {
    } else if w == 0 {
        lemma2_to64();
    } else {
        lemma_pow2_unfold(w);
        lemma_pow2_pos((w - 1) as nat);
        lemma_multiply_divide_lt(a as int, 2, pow2((w - 1) as nat) as int);
        lemma_bit_length_bound(a / 2, (w - 1) as nat);
    }
}

pub proof fn lemma_ones_bound(a: nat, n: nat)
    ensures
        ones(a, n) <= n,
    decreases n,
{
    if n > 0 {
        lemma_ones_bound(a / 2, (n - 1) as nat);
    }
}

pub proof fn lemma_low_counts_bound(a: nat, n: nat)
    ensures
        low_zeros(a, n) <= n,
        low_ones(a, n) <= n,
    decreases n,
{
    if n > 0 {
        lemma_low_counts_bound(a / 2, (n - 1) as nat);
    }
}

/// The number of one bits of `a`.
pub fn count_ones(a: u128, w: u32) -> (r: u32)
    requires
        valid_width(w),
    ensures
        r as nat == ones(a as nat, w as nat),
        r <= w,
{
    let mut x: u128 = a;
    let mut c: u32 = 0;
    let mut i: u32 = 0;
    while i < w
        invariant
            i <= w <= 120,
            c <= i,
            c + ones(x as nat, (w - i) as nat) == ones(a as nat, w as nat),
        decreases w - i,
    {
        c = c + (x % 2) as u32;
        x = x / 2;
        i = i + 1;
    }
    proof {
        lemma_ones_bound(a as nat, w as nat);
    }
    c
}

/// The number of zero bits above the highest one bit of `a` within width `w`.
pub fn leading_zeros(a: u128, w: u32) -> (r: u32)
    requires
        valid_width(w),
        fits(a, w),
    ensures
        r as nat == w - bit_length(a as nat),
{
    let mut x: u128 = a;
    let mut n: u32 = 0;
    proof {
        lemma_bit_length_bound(a as nat, w as nat);
    }
    while x > 0
        invariant
            n + bit_length(x as nat) == bit_length(a as nat),
            bit_length(a as nat) <= w,
        decreases x,
    {
        n = n + 1;
        x = x / 2;
    }
    w - n
}

/// The number of zero bits below the lowest one bit of `a`; `w` for 0.
pub fn trailing_zeros(a: u128, w: u32) -> (r: u32)
    requires
        valid_width(w),
    ensures
        r as nat == low_zeros(a as nat, w as nat),
{
    let mut x: u128 = a;
    let mut i: u32 = 0;
    while i < w && x % 2 == 0
        invariant
            i <= w,
            i + low_zeros(x as nat, (w - i) as nat) == low_zeros(a as nat, w as nat),
        decreases w - i,
    {
        x = x / 2;
        i = i + 1;
    }
    i
}

/// The number of one bits below the lowest zero bit of `a`.
pub fn trailing_ones(a: u128, w: u32) -> (r: u32)
    requires
        valid_width(w),
    ensures
        r as nat == low_ones(a as nat, w as nat),
{
    let mut x: u128 = a;
    let mut i: u32 = 0;
    while i < w && x % 2 == 1
        invariant
            i <= w,
            i + low_ones(x as nat, (w - i) as nat) == low_ones(a as nat, w as nat),
        decreases w - i,
    {
        x = x / 2;
        i = i + 1;
    }
    i
}

/// The number of one bits above the highest zero bit of `a` within width
/// `w`: the leading zeros of its complement `2^w - 1 - a`.
pub fn leading_ones(a: u128, w: u32) -> (r: u32)
    requires
        valid_width(w),
        fits(a, w),
    ensures
        r as nat == w - bit_length((pow2(w as nat) - 1 - a) as nat),
{
    let m = max_of_width(w);
    leading_zeros(m - a, w)
}

} // verus!
