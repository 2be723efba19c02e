//! Casts between a packed width and the native integer widths: the value is
//! cut to the target's width, and a signed value stands for its two's
//! complement bits.
use crate::arith::{fits, max_of_width, power_of_two, valid_width, wrap};
use crate::encoding::{lemma_pow2_128, signed_of};
use vstd::arithmetic::div_mod::*;
use vstd::arithmetic::power2::*;
use vstd::prelude::*;

verus! {

/// `a mod 2^w`.
pub fn truncate(a: u128, w: u32) -> (r: u128)
    requires
        1 <= w < 128,
    ensures
        r as nat == a as nat % pow2(w as nat),
{
    proof {
        lemma_pow2_pos(w as nat);
    }
    a % power_of_two(w)
}

/// The two's complement bits of `v`, cut to `w` bits: `v mod 2^w`.
pub fn wrap_signed(v: i128, w: u32) -> (r: u128)
    requires
        valid_width(w),
    ensures
        r as nat == wrap(v as int, w),
        fits(r, w),
{
    proof {
        lemma_pow2_pos(w as nat);
    }
    if v >= 0 {
        let r = truncate(v as u128, w);
        proof {
            lemma_mod_bound(v as int, pow2(w as nat) as int);
        }
        r
    } else {
        let n: u128 = (-(v + 1)) as u128;
        let m = max_of_width(w);
        let low = truncate(n, w);
        proof {
            let p = pow2(w as nat) as int;
            lemma_fundamental_div_mod(n as int, p);
            let q = n as int / p;
            lemma_mod_bound(n as int, p);
            assert(v as int == (-q - 1) * p + (p - 1 - (n as int % p))) by (nonlinear_arith)
                requires
                    n as int == p * q + n as int % p,
                    n as int == -(v + 1),
            ;
            lemma_fundamental_div_mod_converse(v as int, p, -q - 1, p - 1 - (n as int % p));
        }
        m - low
    }
}

/// The low `bits` bits of `v` read as a two's complement number.
pub fn signed_bits(v: u128, bits: u32) -> (r: i128)
    requires
        bits == 8 || bits == 16 || bits == 32 || bits == 64 || bits == 128,
        bits == 128 ==> (v as nat) < pow2(120),
    ensures
        r as int == signed_of(v as nat % pow2(bits as nat), bits as nat),
        -pow2((bits - 1) as nat) <= r < pow2((bits - 1) as nat),
{
    proof {
        lemma_pow2_128();
        lemma_pow2_pos((bits - 1) as nat);
        lemma_pow2_adds((bits - 1) as nat, 1);
        lemma2_to64();
    }
    if bits == 128 {
        proof {
            lemma_small_mod(v as nat, pow2(128));
            lemma_pow2_strictly_increases(120, 127);
        }
        v as i128
    } else {
        proof {
            lemma2_to64_rest();
        }
        let p = power_of_two(bits);
        let half = power_of_two(bits - 1);
        let low = v % p;
        if low < half {
            low as i128
        } else {
            low as i128 - p as i128
        }
    }
}

/// The two's complement reading of `bits` bits wraps back to those bits.
pub proof fn lemma_wrap_of_signed(v: nat, bits: u32)
    requires
        8 <= bits <= 120,
        v < pow2(bits as nat),
    ensures
        wrap(signed_of(v, bits as nat), bits) == v,
{
    let p = pow2(bits as nat) as int;
    lemma_pow2_pos(bits as nat);
    if v < pow2((bits - 1) as nat) {
        lemma_small_mod(v, p as nat);
    } else {
        lemma_fundamental_div_mod_converse(v - p, p, -1, v as int);
    }
}

} // verus!
