//! Laws that hold of every packed width, stated over the spec functions that
//! the operations' contracts use: `wrap` for the value an operation stores,
//! `le_value` and `be_value` for byte encodings, `rotl` and `rotr` for
//! rotations.
use crate::arith::{fits, lemma_bitwise_in_width, lemma_rotl_rotr, lemma_rotr_rotl, rotl, rotr, valid_width, wrap};
use crate::encoding::{be_value, lemma_le_value_bound, lemma_le_value_injective, le_value, reversed_seq};
use vstd::arithmetic::div_mod::*;
use vstd::arithmetic::mul::*;
use vstd::arithmetic::power2::*;
use vstd::prelude::*;

verus! {

/// A value below `2^w` is stored as itself: packing it and reading it back
/// gives it again.
pub proof fn law_round_trip(v: nat, w: u32)
    requires
        valid_width(w),
        v < pow2(w as nat),
    ensures
        wrap(v as int, w) == v,
{
    lemma_small_mod(v, pow2(w as nat));
}

/// Bytes read in either order give a value of their width, which the packed
/// type of that width holds exactly.
pub proof fn law_bytes_fit(b: Seq<u8>)
    ensures
        le_value(b) < pow2(8 * b.len()),
        be_value(b) < pow2(8 * b.len()),
{
    lemma_le_value_bound(b);
    lemma_le_value_bound(b.reverse());
}

/// Encoding the value read from little-endian bytes gives the same bytes:
/// two encodings of one length with one value are equal.
pub proof fn law_le_bytes_involution(b: Seq<u8>, r: Seq<u8>)
    requires
        r.len() == b.len(),
        le_value(r) == le_value(b),
    ensures
        r == b,
{
    lemma_le_value_injective(r, b);
}

/// The same for big-endian bytes.
pub proof fn law_be_bytes_involution(b: Seq<u8>, r: Seq<u8>)
    requires
        r.len() == b.len(),
        be_value(r) == be_value(b),
    ensures
        r == b,
{
    lemma_le_value_injective(r.reverse(), b.reverse());
    assert(r =~= r.reverse().reverse());
    assert(b =~= b.reverse().reverse());
}

/// Where the mathematical result of `+`, `-`, `*`, `/`, `%`, `&`, `|` or `^`
/// on two values of width `w` is in range, the packed result is exactly it.
pub proof fn law_arithmetic_in_range(a: u128, b: u128, w: u32)
    requires
        valid_width(w),
        fits(a, w),
        fits(b, w),
    ensures
        a + b < pow2(w as nat) ==> wrap(a + b, w) == a + b,
        b <= a ==> wrap(a - b, w) == a - b,
        a * b < pow2(w as nat) ==> wrap(a * b, w) == a * b,
        b != 0 ==> wrap(a as int / b as int, w) == a / b,
        b != 0 ==> wrap(a as int % b as int, w) == a % b,
        wrap((a & b) as int, w) == a & b,
        wrap((a | b) as int, w) == a | b,
        wrap((a ^ b) as int, w) == a ^ b,
{
    let p = pow2(w as nat);
    lemma_pow2_pos(w as nat);
    if a + b < p {
        lemma_small_mod((a + b) as nat, p);
    }
    if b <= a {
        lemma_small_mod((a - b) as nat, p);
    }
    if a * b < p {
        lemma_mul_nonnegative(a as int, b as int);
        lemma_small_mod((a * b) as nat, p);
    }
    if b != 0 {
        lemma_div_is_ordered_by_denominator(a as int, 1, b as int);
        lemma_small_mod((a as int / b as int) as nat, p);
        lemma_mod_bound(a as int, b as int);
        lemma_small_mod((a as int % b as int) as nat, p);
    }
    lemma_bitwise_in_width(a, b, w);
    lemma_small_mod((a & b) as nat, p);
    lemma_small_mod((a | b) as nat, p);
    lemma_small_mod((a ^ b) as nat, p);
}

/// Widening a value to a larger width and narrowing it back loses nothing.
pub proof fn law_widen_then_narrow(v: nat, w1: u32, w2: u32)
    requires
        valid_width(w1),
        valid_width(w2),
        w1 < w2,
        v < pow2(w1 as nat),
    ensures
        wrap(wrap(v as int, w2) as int, w1) == v,
{
    lemma_pow2_strictly_increases(w1 as nat, w2 as nat);
    lemma_small_mod(v, pow2(w2 as nat));
    lemma_small_mod(v, pow2(w1 as nat));
}

/// Narrowing a value to a smaller width and widening it back gives the value
/// exactly when it fits the smaller width: when the bits cut off were zero.
pub proof fn law_narrow_then_widen(v: nat, w1: u32, w2: u32)
    requires
        valid_width(w1),
        valid_width(w2),
        w1 < w2,
        v < pow2(w2 as nat),
    ensures
        wrap(wrap(v as int, w1) as int, w2) == v <==> v < pow2(w1 as nat),
{
    let p1 = pow2(w1 as nat);
    let p2 = pow2(w2 as nat);
    lemma_pow2_pos(w1 as nat);
    lemma_pow2_strictly_increases(w1 as nat, w2 as nat);
    lemma_mod_bound(v as int, p1 as int);
    lemma_small_mod(v % p1, p2);
    if v < p1 {
        lemma_small_mod(v, p1);
    } else {
        assert(v % p1 < p1);
    }
}

/// Rotating right by the amount just rotated left by gives the value back,
/// and so does the other way round.
pub proof fn law_rotation_inverse(v: nat, k: nat, w: u32)
    requires
        valid_width(w),
        v < pow2(w as nat),
    ensures
        rotr(rotl(v, k % (w as nat), w as nat), k % (w as nat), w as nat) == v,
        rotl(rotr(v, k % (w as nat), w as nat), k % (w as nat), w as nat) == v,
{
    lemma_rotr_rotl(v, k % (w as nat), w as nat);
    lemma_rotl_rotr(v, k % (w as nat), w as nat);
}

} // verus!
