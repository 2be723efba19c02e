//! Arithmetic on integers of a logical width `w` (a multiple of 8 between 24
//! and 120 bits), computed in a `u128`.
//!
//! Every operand is below `2^w`; every result is too.
use crate::encoding::lemma_pow2_128;
use vstd::arithmetic::div_mod::*;
use vstd::arithmetic::mul::*;
use vstd::arithmetic::power::{lemma_pow_increases, pow};
use vstd::arithmetic::power2::*;
use vstd::prelude::*;

verus! {

/// The widths that the packed types use.
pub open spec fn valid_width(w: u32) -> bool {
    8 <= w <= 120
}

/// A value of width `w`.
pub open spec fn fits(a: u128, w: u32) -> bool {
    (a as nat) < pow2(w as nat)
}

/// `a` modulo `2^w`, as a nonnegative integer.
pub open spec fn wrap(a: int, w: u32) -> nat {
    (a % pow2(w as nat) as int) as nat
}

/// `2^k` as a `u128`.
pub fn power_of_two(k: u32) -> (r: u128)
    requires
        k < 128,
    ensures
        r as nat == pow2(k as nat),
{
    let mut r: u128 = 1;
    let mut i: u32 = 0;
    proof {
        lemma2_to64();
    }
    while i < k
        invariant
            i <= k < 128,
            r as nat == pow2(i as nat),
        decreases k - i,
    {
        proof {
            lemma_pow2_adds(i as nat, 1);
            lemma2_to64();
            lemma_pow2_strictly_increases((i + 1) as nat, 128);
            lemma_pow2_128();
        }
        r = r * 2;
        i = i + 1;
    }
    r
}

/// `2^w - 1`, the largest value of width `w`: `w` one bits.
pub fn max_of_width(w: u32) -> (r: u128)
    requires
        valid_width(w),
    ensures
        r as nat == pow2(w as nat) - 1,
        r & vstd::prelude::add(r, 1) == 0,
{
    let mut r: u128 = 0;
    let mut i: u32 = 0;
    proof {
        lemma2_to64();
        assert(0u128 & 1u128 == 0) by (bit_vector);
    }
    while i < w
        invariant
            i <= w <= 120,
            r as nat == pow2(i as nat) - 1,
            r & vstd::prelude::add(r, 1) == 0,
        decreases w - i,
    {
        proof {
            lemma_pow2_adds(i as nat, 1);
            lemma2_to64();
            lemma_pow2_strictly_increases((i + 1) as nat, 128);
            lemma_pow2_128();
            lemma_ones_step(r);
        }
        r = r * 2 + 1;
        i = i + 1;
    }
    r
}

/// One more one bit below a run of ones is still a run of ones.
proof fn lemma_ones_step(m: u128)
    requires
        m & vstd::prelude::add(m, 1) == 0,
        m < 0x8000_0000_0000_0000_0000_0000_0000_0000,
    ensures
        vstd::prelude::add(vstd::prelude::mul(m, 2), 1) & vstd::prelude::add(vstd::prelude::add(vstd::prelude::mul(m, 2), 1), 1) == 0,
{
    assert(m & vstd::prelude::add(m, 1) == 0 && m < 0x8000_0000_0000_0000_0000_0000_0000_0000 ==> vstd::prelude::add(vstd::prelude::mul(m, 2), 1)
        & vstd::prelude::add(vstd::prelude::add(vstd::prelude::mul(m, 2), 1), 1) == 0) by (bit_vector);
}

/// Below a run of low ones, `&`, `|` and `^` stay below it.
proof fn lemma_bitwise_fits(a: u128, b: u128, m: u128)
    requires
        m & vstd::prelude::add(m, 1) == 0,
        a <= m,
        b <= m,
    ensures
        a & b <= m,
        a | b <= m,
        a ^ b <= m,
{
    assert(m & vstd::prelude::add(m, 1) == 0 && a <= m && b <= m ==> a | b <= m && a ^ b <= m && a & b <= m)
        by (bit_vector);
}

/// `2^w - 1` is a run of `w` one bits.
proof fn lemma_low_mask(w: nat)
    requires
        w <= 120,
    ensures
        pow2(w) - 1 <= u128::MAX,
        ((pow2(w) - 1) as u128) & vstd::prelude::add((pow2(w) - 1) as u128, 1) == 0,
    decreases w,
{
    lemma_pow2_128();
    lemma_pow2_pos(w);
    if w == 0 {
        lemma2_to64();
        assert(0u128 & 1u128 == 0) by (bit_vector);
    } else {
        lemma_low_mask((w - 1) as nat);
        lemma_pow2_unfold(w);
        lemma_pow2_strictly_increases((w - 1) as nat, 127);
        lemma_pow2_strictly_increases(127, 128);
        lemma_pow2_adds(127, 1);
        lemma2_to64();
        lemma_ones_step((pow2((w - 1) as nat) - 1) as u128);
    }
}

/// `&`, `|` and `^` of two values of width `w` are of width `w`.
pub proof fn lemma_bitwise_in_width(a: u128, b: u128, w: u32)
    requires
        valid_width(w),
        fits(a, w),
        fits(b, w),
    ensures
        fits(a & b, w),
        fits(a | b, w),
        fits(a ^ b, w),
{
    lemma_low_mask(w as nat);
    lemma_bitwise_fits(a, b, (pow2(w as nat) - 1) as u128);
}

/// `a & b`.
pub fn bit_and(a: u128, b: u128, w: u32) -> (r: u128)
    requires
        valid_width(w),
        fits(a, w),
    ensures
        r == a & b,
        fits(r, w),
{
    assert(a & b <= a) by (bit_vector);
    a & b
}

/// `a | b`.
pub fn bit_or(a: u128, b: u128, w: u32) -> (r: u128)
    requires
        valid_width(w),
        fits(a, w),
        fits(b, w),
    ensures
        r == a | b,
        fits(r, w),
{
    let m = max_of_width(w);
    proof {
        lemma_bitwise_fits(a, b, m);
    }
    a | b
}

/// `a ^ b`.
pub fn bit_xor(a: u128, b: u128, w: u32) -> (r: u128)
    requires
        valid_width(w),
        fits(a, w),
        fits(b, w),
    ensures
        r == a ^ b,
        fits(r, w),
{
    let m = max_of_width(w);
    proof {
        lemma_bitwise_fits(a, b, m);
    }
    a ^ b
}

/// The carriers' moduli and those of the packed widths.
pub proof fn lemma_widths()
    ensures
        pow2(7) == 0x80,
        pow2(8) == 0x100,
        pow2(15) == 0x8000,
        pow2(16) == 0x1_0000,
        pow2(24) == 0x100_0000,
        pow2(31) == 0x8000_0000,
        pow2(32) == 0x1_0000_0000,
        pow2(40) == 0x100_0000_0000,
        pow2(48) == 0x1_0000_0000_0000,
        pow2(56) == 0x100_0000_0000_0000,
        pow2(63) == 0x8000_0000_0000_0000,
        pow2(64) == 0x1_0000_0000_0000_0000,
        pow2(72) == 0x100_0000_0000_0000_0000,
        pow2(80) == 0x1_0000_0000_0000_0000_0000,
        pow2(88) == 0x100_0000_0000_0000_0000_0000,
        pow2(96) == 0x1_0000_0000_0000_0000_0000_0000,
        pow2(104) == 0x100_0000_0000_0000_0000_0000_0000,
        pow2(112) == 0x1_0000_0000_0000_0000_0000_0000_0000,
        pow2(120) == 0x100_0000_0000_0000_0000_0000_0000_0000,
        pow2(127) == 0x8000_0000_0000_0000_0000_0000_0000_0000,
        pow2(128) == 0x1_0000_0000_0000_0000_0000_0000_0000_0000,
{
    lemma2_to64();
    lemma2_to64_rest();
    lemma_pow2_adds(64, 8);
    lemma_pow2_adds(64, 16);
    lemma_pow2_adds(64, 24);
    lemma_pow2_adds(64, 32);
    lemma_pow2_adds(64, 40);
    lemma_pow2_adds(64, 48);
    lemma_pow2_adds(64, 56);
    lemma_pow2_adds(64, 63);
    lemma_pow2_adds(64, 64);
}

pub proof fn lemma_width_bounds(w: u32)
    requires
        valid_width(w),
    ensures
        pow2(w as nat) <= pow2(120),
        pow2(120) * 2 < pow2(128),
        pow2(128) == u128::MAX + 1,
        pow2(w as nat) > 0,
{
    if w < 120 {
        lemma_pow2_strictly_increases(w as nat, 120);
    }
    lemma_pow2_128();
    lemma_pow2_adds(120, 1);
    lemma_pow2_strictly_increases(121, 128);
    lemma2_to64();
    lemma_pow2_pos(w as nat);
}

/// `(a + b) mod 2^w`.
pub fn wrapping_add(a: u128, b: u128, w: u32) -> (r: u128)
    requires
        valid_width(w),
        fits(a, w),
        fits(b, w),
    ensures
        r as nat == wrap(a + b, w),
        fits(r, w),
{
    proof {
        lemma_width_bounds(w);
    }
    let m = max_of_width(w);
    let s = a + b;
    if s > m {
        proof {
            lemma_fundamental_div_mod_converse(s as int, pow2(w as nat) as int, 1, s - pow2(w as nat));
        }
        s - m - 1
    } else {
        proof {
            lemma_small_mod(s as nat, pow2(w as nat));
        }
        s
    }
}

/// `(a - b) mod 2^w`.
pub fn wrapping_sub(a: u128, b: u128, w: u32) -> (r: u128)
    requires
        valid_width(w),
        fits(a, w),
        fits(b, w),
    ensures
        r as nat == wrap(a - b, w),
        fits(r, w),
{
    proof {
        lemma_width_bounds(w);
    }
    let m = max_of_width(w);
    if a >= b {
        proof {
            lemma_small_mod((a - b) as nat, pow2(w as nat));
        }
        a - b
    } else {
        proof {
            lemma_fundamental_div_mod_converse(a - b, pow2(w as nat) as int, -1, a - b + pow2(w as nat));
        }
        m - b + 1 + a
    }
}

/// `(a * b) mod 2^w`.
pub fn wrapping_mul(a: u128, b: u128, w: u32) -> (r: u128)
    requires
        valid_width(w),
        fits(a, w),
        fits(b, w),
    ensures
        r as nat == wrap(a * b, w),
        fits(r, w),
{
    proof {
        lemma_width_bounds(w);
    }
    let m = max_of_width(w);
    let p = a.wrapping_mul(b);
    proof {
        let pw = pow2(w as nat) as int;
        let rest = pow2((128 - w) as nat) as int;
        lemma_pow2_adds(w as nat, (128 - w) as nat);
        lemma_pow2_pos((128 - w) as nat);
        lemma_mod_mod(a * b, pw, rest);
        lemma_mul_nonnegative(a as int, b as int);
    }
    p % (m + 1)
}

/// `a^(i+1) == a^i * a`, and powers of a natural number are natural.
proof fn lemma_pow_step(a: nat, i: nat)
    ensures
        pow(a as int, i + 1) == pow(a as int, i) * a,
        pow(a as int, i) >= 0,
    decreases i,
{
    reveal(pow);
    lemma_mul_is_commutative(a as int, pow(a as int, i));
    if i > 0 {
        lemma_pow_step(a, (i - 1) as nat);
        lemma_mul_nonnegative(a as int, pow(a as int, (i - 1) as nat));
    }
}

/// `a^e` where it is below `2^w`.
pub fn checked_pow(a: u128, e: u32, w: u32) -> (r: Option<u128>)
    requires
        valid_width(w),
    ensures
        r is None <==> pow(a as int, e as nat) >= pow2(w as nat),
        r matches Some(v) ==> v == pow(a as int, e as nat),
{
    proof {
        lemma_width_bounds(w);
        reveal(pow);
        lemma2_to64();
        lemma_pow2_strictly_increases(0, w as nat);
    }
    let mut acc: u128 = 1;
    let mut i: u32 = 0;
    while i < e
        invariant
            valid_width(w),
            i <= e,
            acc as int == pow(a as int, i as nat),
            (acc as nat) < pow2(w as nat),
        decreases e - i,
    {
        proof {
            lemma_pow_step(a as nat, i as nat);
        }
        match checked_mul(acc, a, w) {
            None => {
                proof {
                    let pw = pow2(w as nat) as int;
                    assert(a > 0) by (nonlinear_arith)
                        requires
                            acc * a >= pw,
                            pw > 0,
                    ;
                    lemma_pow_increases(a as nat, (i + 1) as nat, e as nat);
                }
                return None;
            },
            Some(p) => {
                acc = p;
            },
        }
        i = i + 1;
    }
    Some(acc)
}

/// `a^e mod 2^w`.
pub fn wrapping_pow(a: u128, e: u32, w: u32) -> (r: u128)
    requires
        valid_width(w),
        fits(a, w),
    ensures
        r as nat == wrap(pow(a as int, e as nat), w),
        fits(r, w),
{
    proof {
        lemma_width_bounds(w);
        reveal(pow);
        lemma2_to64();
        lemma_pow2_strictly_increases(0, w as nat);
        lemma_small_mod(1, pow2(w as nat));
    }
    let mut acc: u128 = 1;
    let mut i: u32 = 0;
    while i < e
        invariant
            valid_width(w),
            fits(a, w),
            i <= e,
            acc as nat == wrap(pow(a as int, i as nat), w),
            fits(acc, w),
        decreases e - i,
    {
        proof {
            lemma_pow_step(a as nat, i as nat);
            lemma_mul_mod_noop_left(pow(a as int, i as nat), a as int, pow2(w as nat) as int);
        }
        acc = wrapping_mul(acc, a, w);
        i = i + 1;
    }
    acc
}


/// The integer logarithm of `a` in base `b`: the `k` with
/// `b^k <= a < b^(k+1)`.
pub fn int_log(a: u128, b: u128) -> (r: u32)
    requires
        a >= 1,
        b >= 2,
    ensures
        pow(b as int, r as nat) <= a,
        a < pow(b as int, (r + 1) as nat),
{
    proof {
        reveal(pow);
    }
    let mut p: u128 = 1;
    let mut k: u32 = 0;
    while p <= a / b
        invariant
            b >= 2,
            1 <= p <= a,
            p as int == pow(b as int, k as nat),
            pow(2, k as nat) <= p,
            k < 128,
        decreases a - p,
    {
        proof {
            lemma_pow_step(b as nat, k as nat);
            lemma_pow_step(2, k as nat);
            lemma_fundamental_div_mod(a as int, b as int);
            lemma_mul_inequality(p as int, (a / b) as int, b as int);
            lemma_mul_is_commutative(b as int, (a / b) as int);
            lemma_mul_inequality(2, b as int, p as int);
            lemma_mul_is_commutative(2, p as int);
            lemma_mul_is_commutative(p as int, b as int);
        }
        p = p * b;
        proof {
            lemma_log_bound((k + 1) as nat, p);
        }
        k = k + 1;
    }
    proof {
        lemma_pow_step(b as nat, k as nat);
        lemma_fundamental_div_mod(a as int, b as int);
        lemma_mod_bound(a as int, b as int);
        lemma_mul_inequality((a / b + 1) as int, p as int, b as int);
        lemma_mul_is_commutative(b as int, (a / b) as int);
        lemma_mul_is_distributive_add_other_way(b as int, (a / b) as int, 1);
    }
    k
}

/// A power of two that a `u128` holds has an exponent below 128.
proof fn lemma_log_bound(k: nat, p: u128)
    requires
        pow(2, k) <= p,
    ensures
        k < 128,
{
    lemma_pow2_128();
    lemma_pow2(k);
    if k > 128 {
        lemma_pow2_strictly_increases(128, k);
    }
}


/// `a + b` where it is below `2^w`.
pub fn checked_add(a: u128, b: u128, w: u32) -> (r: Option<u128>)
    requires
        valid_width(w),
        fits(a, w),
        fits(b, w),
    ensures
        r is None <==> a + b >= pow2(w as nat),
        r matches Some(v) ==> v == a + b,
{
    proof {
        lemma_width_bounds(w);
    }
    let m = max_of_width(w);
    let s = a + b;
    if s > m {
        None
    } else {
        Some(s)
    }
}

/// `a - b` where it is not negative.
pub fn checked_sub(a: u128, b: u128, w: u32) -> (r: Option<u128>)
    ensures
        r is None <==> a < b,
        r matches Some(v) ==> v == a - b,
{
    if a < b {
        None
    } else {
        Some(a - b)
    }
}

/// `a * b` where it is below `2^w`.
pub fn checked_mul(a: u128, b: u128, w: u32) -> (r: Option<u128>)
    requires
        valid_width(w),
    ensures
        r is None <==> a * b >= pow2(w as nat),
        r matches Some(v) ==> v == a * b,
{
    proof {
        lemma_width_bounds(w);
    }
    let m = max_of_width(w);
    match a.checked_mul(b) {
        None => None,
        Some(p) => {
            if p > m {
                None
            } else {
                Some(p)
            }
        },
    }
}

/// `a + b`, or `2^w - 1` where that is smaller.
pub fn saturating_add(a: u128, b: u128, w: u32) -> (r: u128)
    requires
        valid_width(w),
        fits(a, w),
        fits(b, w),
    ensures
        r == if a + b >= pow2(w as nat) { pow2(w as nat) - 1 } else { a + b },
        fits(r, w),
{
    let m = max_of_width(w);
    match checked_add(a, b, w) {
        Some(v) => v,
        None => m,
    }
}

/// `a - b`, or 0 where `b` is larger.
pub fn saturating_sub(a: u128, b: u128, w: u32) -> (r: u128)
    requires
        fits(a, w),
    ensures
        r == if a < b { 0 } else { a - b },
        fits(r, w),
{
    if a < b {
        proof {
            lemma_pow2_pos(w as nat);
        }
        0
    } else {
        a - b
    }
}

/// `a * b`, or `2^w - 1` where that is smaller.
pub fn saturating_mul(a: u128, b: u128, w: u32) -> (r: u128)
    requires
        valid_width(w),
    ensures
        r == if a * b >= pow2(w as nat) { pow2(w as nat) - 1 } else { a * b },
        fits(r, w),
{
    let m = max_of_width(w);
    match checked_mul(a, b, w) {
        Some(v) => v,
        None => m,
    }
}

/// `(a + b) mod 2^w`, and whether `a + b` left the range.
pub fn overflowing_add(a: u128, b: u128, w: u32) -> (r: (u128, bool))
    requires
        valid_width(w),
        fits(a, w),
        fits(b, w),
    ensures
        r.0 as nat == wrap(a + b, w),
        r.1 <==> a + b >= pow2(w as nat),
        fits(r.0, w),
{
    proof {
        lemma_width_bounds(w);
    }
    let m = max_of_width(w);
    (wrapping_add(a, b, w), a + b > m)
}

/// `(a - b) mod 2^w`, and whether `a - b` is negative.
pub fn overflowing_sub(a: u128, b: u128, w: u32) -> (r: (u128, bool))
    requires
        valid_width(w),
        fits(a, w),
        fits(b, w),
    ensures
        r.0 as nat == wrap(a - b, w),
        r.1 <==> a < b,
        fits(r.0, w),
{
    (wrapping_sub(a, b, w), a < b)
}

/// `(a * b) mod 2^w`, and whether `a * b` left the range.
pub fn overflowing_mul(a: u128, b: u128, w: u32) -> (r: (u128, bool))
    requires
        valid_width(w),
        fits(a, w),
        fits(b, w),
    ensures
        r.0 as nat == wrap(a * b, w),
        r.1 <==> a * b >= pow2(w as nat),
        fits(r.0, w),
{
    let c = checked_mul(a, b, w);
    (wrapping_mul(a, b, w), c.is_none())
}

/// `(0 - a) mod 2^w`.
pub fn wrapping_neg(a: u128, w: u32) -> (r: u128)
    requires
        valid_width(w),
        fits(a, w),
    ensures
        r as nat == wrap(0 - a, w),
        fits(r, w),
{
    proof {
        lemma_pow2_pos(w as nat);
    }
    wrapping_sub(0, a, w)
}

/// `(a * 2^k) mod 2^w`, with the high part cut before the shift so that the
/// `u128` never overflows.
pub fn shift_left(a: u128, k: u32, w: u32) -> (r: u128)
    requires
        valid_width(w),
        fits(a, w),
        k < w,
    ensures
        r as nat == wrap(a * pow2(k as nat), w),
        fits(r, w),
{
    proof {
        lemma_width_bounds(w);
    }
    let keep: u32 = w - k;
    proof {
        lemma_pow2_pos(keep as nat);
        lemma_pow2_pos(k as nat);
    }
    let p = power_of_two(keep);
    let pk_exec = power_of_two(k);
    let lo = a % p;
    proof {
        let pk = pow2(k as nat) as int;
        let pkeep = pow2(keep as nat) as int;
        lemma_pow2_adds(keep as nat, k as nat);
        // lo * 2^k < 2^keep * 2^k == 2^w
        lemma_mul_strict_inequality(lo as int, pkeep, pk);
        lemma_fundamental_div_mod(a as int, pkeep);
        let q = a as int / pkeep;
        lemma_mul_is_distributive_add_other_way(pk, pkeep * q, lo as int);
        lemma_mul_is_associative(pkeep, q, pk);
        lemma_mul_is_commutative(q, pk);
        lemma_mul_is_associative(pkeep, pk, q);
        lemma_mul_nonnegative(lo as int, pk);
        lemma_fundamental_div_mod_converse(a * pk, pkeep * pk, q, lo * pk);
    }
    lo * pk_exec
}

/// `a / 2^k`.
pub fn shift_right(a: u128, k: u32, w: u32) -> (r: u128)
    requires
        valid_width(w),
        fits(a, w),
        k < w,
    ensures
        r as nat == a as nat / pow2(k as nat),
        fits(r, w),
{
    proof {
        lemma_pow2_pos(k as nat);
        lemma_div_is_ordered_by_denominator(a as int, 1, pow2(k as nat) as int);
    }
    a / power_of_two(k)
}

/// The left rotation of the `w` low bits of `a` by `s` places, `s < w`: the
/// low `w - s` bits move up by `s`, the high `s` bits come round to the bottom.
pub open spec fn rotl(a: nat, s: nat, w: nat) -> nat {
    (a % pow2((w - s) as nat)) * pow2(s) + a / pow2((w - s) as nat)
}

/// The right rotation: `rotl` by `w - s`.
pub open spec fn rotr(a: nat, s: nat, w: nat) -> nat {
    (a % pow2(s)) * pow2((w - s) as nat) + a / pow2(s)
}

/// Splits `a < 2^(lo + hi)` at bit `lo`; the parts give `a` back.
proof fn lemma_split(a: nat, lo: nat, hi: nat)
    requires
        a < pow2(lo + hi),
    ensures
        a / pow2(lo) < pow2(hi),
        a % pow2(lo) < pow2(lo),
        a == (a / pow2(lo)) * pow2(lo) + a % pow2(lo),
{
    lemma_pow2_pos(lo);
    lemma_pow2_pos(hi);
    lemma_pow2_adds(lo, hi);
    lemma_fundamental_div_mod(a as int, pow2(lo) as int);
    lemma_mul_is_commutative(pow2(lo) as int, (a / pow2(lo)) as int);
    lemma_multiply_divide_lt(a as int, pow2(lo) as int, pow2(hi) as int);
    lemma_mod_bound(a as int, pow2(lo) as int);
}

/// `x * 2^s + y` with `y < 2^s` splits back into `x` and `y`.
proof fn lemma_join(x: nat, y: nat, s: nat)
    requires
        y < pow2(s),
    ensures
        (x * pow2(s) + y) / pow2(s) == x,
        (x * pow2(s) + y) % pow2(s) == y,
{
    lemma_pow2_pos(s);
    lemma_fundamental_div_mod_converse((x * pow2(s) + y) as int, pow2(s) as int, x as int, y as int);
}

/// A rotation stays below `2^w`.
pub proof fn lemma_rotl_fits(a: nat, s: nat, w: nat)
    requires
        a < pow2(w),
        s < w,
    ensures
        rotl(a, s, w) < pow2(w),
{
    let t = (w - s) as nat;
    lemma_split(a, t, s);
    lemma_pow2_pos(s);
    lemma_pow2_pos(t);
    // (a % 2^t) * 2^s + (a / 2^t) < (a % 2^t + 1) * 2^s <= 2^t * 2^s
    lemma_mul_inequality((a % pow2(t) + 1) as int, pow2(t) as int, pow2(s) as int);
    lemma_mul_is_distributive_add_other_way(pow2(s) as int, (a % pow2(t)) as int, 1);
    lemma_pow2_adds(t, s);
}

/// Rotating left and then right by the same amount gives the value back.
pub proof fn lemma_rotr_rotl(a: nat, s: nat, w: nat)
    requires
        a < pow2(w),
        s < w,
    ensures
        rotr(rotl(a, s, w), s, w) == a,
{
    let t = (w - s) as nat;
    lemma_split(a, t, s);
    lemma_join(a % pow2(t), a / pow2(t), s);
    let x = rotl(a, s, w);
    assert(x % pow2(s) == a / pow2(t));
    assert(x / pow2(s) == a % pow2(t));
    lemma_mul_is_commutative((a / pow2(t)) as int, pow2(t) as int);
}

/// Rotating right and then left by the same amount gives the value back.
pub proof fn lemma_rotl_rotr(a: nat, s: nat, w: nat)
    requires
        a < pow2(w),
        s < w,
    ensures
        rotl(rotr(a, s, w), s, w) == a,
{
    let t = (w - s) as nat;
    lemma_split(a, s, t);
    lemma_join(a % pow2(s), a / pow2(s), t);
    let x = rotr(a, s, w);
    assert(x % pow2(t) == a / pow2(s));
    assert(x / pow2(t) == a % pow2(s));
    lemma_mul_is_commutative((a / pow2(s)) as int, pow2(s) as int);
}

/// `rotl` of `a` by `s` places, computed without overflow.
pub fn rotate_left_by(a: u128, s: u32, w: u32) -> (r: u128)
    requires
        valid_width(w),
        fits(a, w),
        s < w,
    ensures
        r as nat == rotl(a as nat, s as nat, w as nat),
        fits(r, w),
{
    proof {
        lemma_width_bounds(w);
        lemma_rotl_fits(a as nat, s as nat, w as nat);
    }
    let t: u32 = w - s;
    proof {
        lemma_split(a as nat, t as nat, s as nat);
        lemma_pow2_pos(s as nat);
        lemma_mul_inequality((a as nat % pow2(t as nat)) as int, pow2(w as nat) as int, pow2(s as nat) as int);
    }
    proof {
        lemma_pow2_pos(t as nat);
    }
    let pt = power_of_two(t);
    let lo = a % pt;
    let hi = a / pt;
    proof {
        lemma_mul_is_commutative(lo as int, pow2(s as nat) as int);
        lemma_mul_nonnegative(lo as int, pow2(s as nat) as int);
    }
    lo * power_of_two(s) + hi
}

/// `rotr` of `a` by `s` places.
pub fn rotate_right_by(a: u128, s: u32, w: u32) -> (r: u128)
    requires
        valid_width(w),
        fits(a, w),
        s < w,
    ensures
        r as nat == rotr(a as nat, s as nat, w as nat),
        fits(r, w),
{
    if s == 0 {
        proof {
            lemma2_to64();
            assert(pow2(0) == 1);
            assert(a as nat % 1 == 0);
            assert(a as nat / 1 == a as nat);
            assert(rotr(a as nat, 0, w as nat) == 0 * pow2(w as nat) + a as nat / 1);
        }
        a
    } else {
        let r = rotate_left_by(a, w - s, w);
        proof {
            assert((w - (w - s)) as nat == s as nat);
        }
        r
    }
}

} // verus!
