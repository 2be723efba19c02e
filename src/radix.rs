//! Parsing of unsigned numbers written in a radix from 2 to 36.
use crate::arith::{lemma_width_bounds, max_of_width, valid_width};
use vstd::arithmetic::mul::*;
use vstd::arithmetic::power2::pow2;
use vstd::prelude::*;
use vstd::string::StringSliceAdditionalSpecFns;

verus! {

/// Why a text is not a number of the type.
#[derive(Clone, Copy, Debug, PartialEq, Eq, Structural)]
pub enum ParseError {
    /// The text is empty.
    Empty,
    /// The text holds a character that is not a digit of the radix, or no
    /// digit after the sign.
    InvalidDigit,
    /// The number is larger than the type holds.
    PosOverflow,
}

/// The value of the ASCII digit `c`: `0`-`9`, then `a`-`z` or `A`-`Z` for
/// 10 to 35.
pub open spec fn digit_value(c: u8) -> nat {
    if 48 <= c <= 57 {
        (c - 48) as nat
    } else if 97 <= c <= 122 {
        (c - 97 + 10) as nat
    } else if 65 <= c <= 90 {
        (c - 65 + 10) as nat
    } else {
        36
    }
}

/// Every byte of `s` is a digit of `radix`.
pub open spec fn all_digits(s: Seq<u8>, radix: nat) -> bool {
    forall|i: int| 0 <= i < s.len() ==> #[trigger] digit_value(s[i]) < radix
}

/// The number that the digits `s` write in `radix`, most significant first.
pub open spec fn digits_value(s: Seq<u8>, radix: nat) -> nat
    decreases s.len(),
{
    if s.len() == 0 {
        0
    } else {
        digits_value(s.drop_last(), radix) * radix + digit_value(s.last())
    }
}

/// The digits of `s`: what follows a leading `+`, if there is one.
pub open spec fn unsigned_digits(s: Seq<u8>) -> Seq<u8> {
    if s.len() > 0 && s[0] == 43 {
        s.drop_first()
    } else {
        s
    }
}

/// The number that the UTF-8 text `s` writes in `radix`, or `None` where it
/// is not a number: an optional `+`, then one or more digits.
pub open spec fn radix_value(s: Seq<u8>, radix: nat) -> Option<nat> {
    let d = unsigned_digits(s);
    if d.len() > 0 && all_digits(d, radix) {
        Some(digits_value(d, radix))
    } else {
        None
    }
}

/// The number that `src` writes in `radix`, where it is one of width `w`.
pub open spec fn parse_spec(src: Seq<u8>, radix: nat, w: nat) -> Result<u128, ParseError> {
    if src.len() == 0 {
        Err(ParseError::Empty)
    } else {
        match radix_value(src, radix) {
            None => Err(ParseError::InvalidDigit),
            Some(n) => if n >= pow2(w) {
                Err(ParseError::PosOverflow)
            } else {
                Ok(n as u128)
            },
        }
    }
}

proof fn lemma_digits_grow(s: Seq<u8>, radix: nat)
    requires
        s.len() > 0,
        radix >= 2,
    ensures
        digits_value(s, radix) >= digits_value(s.drop_last(), radix),
{
    lemma_mul_inequality(1, radix as int, digits_value(s.drop_last(), radix) as int);
    lemma_mul_is_commutative(radix as int, digits_value(s.drop_last(), radix) as int);
}

/// Parses `src` as a number of width `w` in base `radix`.
pub fn parse_radix(src: &str, radix: u32, w: u32) -> (r: Result<u128, ParseError>)
    requires
        2 <= radix <= 36,
        valid_width(w),
    ensures
        r == parse_spec(src.spec_bytes(), radix as nat, w as nat),
{
    let b = src.as_bytes();
    let n = b.len();
    if n == 0 {
        return Err(ParseError::Empty);
    }
    let start: usize = if b[0] == 43 {
        1
    } else {
        0
    };
    let ghost d = unsigned_digits(b@);
    proof {
        assert(d =~= b@.subrange(start as int, n as int));
    }
    if start == n {
        return Err(ParseError::InvalidDigit);
    }
    let max = max_of_width(w);
    proof {
        lemma_width_bounds(w);
    }
    let mut acc: u128 = 0;
    let mut over = false;
    let mut i: usize = start;
    proof {
        assert(d.subrange(0, 0) =~= Seq::<u8>::empty());
    }
    while i < n
        invariant
            b@ == src.spec_bytes(),
            n == b@.len(),
            start <= i <= n,
            start < n,
            d == b@.subrange(start as int, n as int),
            d == unsigned_digits(b@),
            2 <= radix <= 36,
            max as nat == pow2(w as nat) - 1,
            pow2(w as nat) <= pow2(120),
            pow2(120) * 2 < pow2(128),
            pow2(128) == u128::MAX + 1,
            all_digits(d.subrange(0, i - start), radix as nat),
            over ==> digits_value(d.subrange(0, i - start), radix as nat) > max,
            !over ==> acc as nat == digits_value(d.subrange(0, i - start), radix as nat),
            !over ==> acc <= max,
        decreases n - i,
    {
        let c = b[i];
        let v: u32 = if 48 <= c && c <= 57 {
            (c - 48) as u32
        } else if 97 <= c && c <= 122 {
            (c - 97 + 10) as u32
        } else if 65 <= c && c <= 90 {
            (c - 65 + 10) as u32
        } else {
            36
        };
        let ghost k = (i - start) as int;
        let ghost p = d.subrange(0, k + 1);
        proof {
            assert(p.drop_last() =~= d.subrange(0, k));
            assert(p.last() == c);
        }
        assert(v as nat == digit_value(c));
        if v >= radix {
            proof {
                assert(d[k] == c);
                assert(digit_value(d[k]) >= radix);
                assert(!all_digits(d, radix as nat));
                assert(d == unsigned_digits(src.spec_bytes()));
                assert(radix_value(src.spec_bytes(), radix as nat) is None);
            }
            return Err(ParseError::InvalidDigit);
        }
        proof {
            assert(all_digits(p, radix as nat)) by {
                assert forall|j: int| 0 <= j < p.len() implies #[trigger] digit_value(p[j])
                    < radix as nat by {
                    if j < k {
                        assert(p[j] == d.subrange(0, k)[j]);
                    }
                }
            }
            lemma_digits_grow(p, radix as nat);
        }
        if !over {
            proof {
                lemma_mul_inequality(acc as int, max as int, radix as int);
                lemma_mul_inequality(radix as int, 36, max as int);
                lemma_mul_is_commutative(max as int, radix as int);
                assert(36 * pow2(120) < pow2(128)) by {
                    crate::arith::lemma_widths();
                }
            }
            let next = acc * (radix as u128) + (v as u128);
            if next > max {
                over = true;
            } else {
                acc = next;
            }
        } else {
            proof {
                lemma_mul_inequality(1, radix as int, digits_value(d.subrange(0, k), radix as nat) as int);
            }
        }
        i = i + 1;
    }
    proof {
        assert(d.subrange(0, n - start) =~= d);
    }
    if over {
        Err(ParseError::PosOverflow)
    } else {
        Ok(acc)
    }
}

} // verus!
