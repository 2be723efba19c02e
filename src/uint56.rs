//! The 56-bit unsigned integer `u56`, held in 7 bytes.
use crate::arith::{
    self, fits, lemma_widths, rotl, rotr, wrap,
};
use crate::bitcount::{self, bit_length, low_ones, low_zeros, ones};
use crate::convert::{signed_bits, truncate, wrap_signed};
use crate::encoding::{
    be_value, byte_of, bytes_as_i8, i8_as_bytes, lane, lanes, le_value, lemma_le_value_bound,
    lemma_le_value_injective, load_le, reverse_bytes, reversed_seq, signed_of, store_le,
};
use crate::host::host_is_little_endian;
use crate::radix::{parse_radix, parse_spec, ParseError};
use crate::{u24, u40, u48, u72, u80, u88, u96, u104, u112, u120};
use vstd::arithmetic::power::pow;
use vstd::arithmetic::power2::pow2;
use vstd::prelude::*;
use vstd::string::StringSliceAdditionalSpecFns;

verus! {

/// An unsigned integer of 56 bits in 7 bytes, least significant byte
/// first, with no padding. Arithmetic runs in `u64`.
#[allow(non_camel_case_types)]
#[derive(Clone, Copy, Debug, Hash)]
pub struct u56(pub(crate) [u8; 7]);

impl u56 {
    /// The largest value, `2^56 - 1`.
    pub const MAX_VALUE: u64 = 0xff_ffff_ffff_ffff;

    /// The width in bits.
    pub const NUM_BITS: usize = 56;

    /// The bits of `u64` above the width, always zero in a value.
    pub const NUM_BITS_MISSING_FOR_ALIGNMENT: usize = 8;

    /// The stored bytes, least significant first.
    pub closed spec fn bytes(self) -> Seq<u8> {
        self.0@
    }

    /// The integer that the value stands for.
    pub open spec fn value(self) -> nat {
        le_value(self.bytes())
    }

    /// The value that `v` wraps to modulo `2^56`.
    pub open spec fn of(v: int) -> Self {
        choose|r: Self| r.value() == wrap(v, 56)
    }

    /// A value has its width's number of bytes and is below `2^56`.
    pub proof fn lemma_valid(self)
        ensures
            self.bytes().len() == 7,
            self.value() < pow2(56),
            pow2(56) == 0x100_0000_0000_0000,
    {
        lemma_le_value_bound(self.bytes());
        lemma_widths();
    }

    /// Two values with one integer are the same bytes.
    pub proof fn lemma_same(a: Self, b: Self)
        requires
            a.value() == b.value(),
        ensures
            a == b,
    {
        lemma_le_value_injective(a.bytes(), b.bytes());
        assert(a.0 =~= b.0);
    }

    /// `of(v)` is the value whose integer is `v` wrapped.
    pub proof fn lemma_of(r: Self, v: int)
        requires
            r.value() == wrap(v, 56),
        ensures
            r == Self::of(v),
    {
        let c = Self::of(v);
        Self::lemma_same(r, c);
    }

    pub(crate) fn wide(self) -> (r: u128)
        ensures
            r as nat == self.value(),
            fits(r, 56),
    {
        load_le(&self.0)
    }

    pub(crate) fn of_wide(v: u128) -> (r: Self)
        requires
            fits(v, 56),
        ensures
            r.value() == v,
    {
        let b = store_le::<7>(v);
        proof {
            vstd::arithmetic::div_mod::lemma_small_mod(v as nat, pow2(56));
        }
        u56(b)
    }

    /// The largest value.
    pub fn max_value() -> (r: Self)
        ensures
            r.value() == pow2(56) - 1,
    {
        Self::of_wide(arith::max_of_width(56))
    }

    /// Zero.
    pub fn min_value() -> (r: Self)
        ensures
            r.value() == 0,
    {
        proof {
            lemma_widths();
        }
        Self::of_wide(0)
    }

    /// The value as a `u64`; the bits above the width are zero.
    pub fn as_num(self) -> (r: u64)
        ensures
            r as nat == self.value(),
    {
        proof {
            lemma_widths();
        }
        self.wide() as u64
    }

    /// The low 56 bits of `n`; the bits above are dropped.
    pub fn from_num(n: u64) -> (r: Self)
        ensures
            r.value() == wrap(n as int, 56),
    {
        proof {
            lemma_widths();
        }
        Self::of_wide(truncate(n as u128, 56))
    }

    /// `data` in the opposite byte order.
    pub(crate) fn swap_data_copy(data: &[u8; 7]) -> (r: [u8; 7])
        ensures
            r@ == reversed_seq(data@),
    {
        reverse_bytes(data)
    }

    /// The value with its bytes in the opposite order.
    pub fn swap_bytes(self) -> (r: Self)
        ensures
            r.bytes() == reversed_seq(self.bytes()),
            r.value() == be_value(self.bytes()),
    {
        u56(Self::swap_data_copy(&self.0))
    }

    /// The value whose little-endian encoding is `data`.
    pub fn from_le_bytes(data: [u8; 7]) -> (r: Self)
        ensures
            r.value() == le_value(data@),
    {
        u56(data)
    }

    /// The value whose big-endian encoding is `data`.
    pub fn from_be_bytes(data: [u8; 7]) -> (r: Self)
        ensures
            r.value() == be_value(data@),
    {
        u56(Self::swap_data_copy(&data))
    }

    /// The little-endian encoding of the value.
    pub fn to_le_bytes(self) -> (r: [u8; 7])
        ensures
            le_value(r@) == self.value(),
    {
        self.0
    }

    /// The big-endian encoding of the value.
    pub fn to_be_bytes(self) -> (r: [u8; 7])
        ensures
            be_value(r@) == self.value(),
    {
        let r = Self::swap_data_copy(&self.0);
        proof {
            crate::encoding::lemma_reversed_twice(self.bytes());
        }
        r
    }

    /// The stored bytes, least significant first where `low_first`, else
    /// most significant first.
    pub open spec fn ordered_bytes(self, low_first: bool) -> Seq<u8> {
        if low_first {
            self.bytes()
        } else {
            reversed_seq(self.bytes())
        }
    }

    /// A reference to the stored bytes, least significant first.
    pub fn inner_ref(&self) -> (r: &[u8; 7])
        ensures
            r@ == self.bytes(),
    {
        &self.0
    }

    /// The encoding of the value in the order that `low_first` names.
    pub fn to_bytes_in(self, low_first: bool) -> (r: [u8; 7])
        ensures
            r@ == self.ordered_bytes(low_first),
    {
        if low_first {
            self.0
        } else {
            Self::swap_data_copy(&self.0)
        }
    }

    /// The value whose encoding in the order that `low_first` names is `data`.
    pub fn from_bytes_in(data: [u8; 7], low_first: bool) -> (r: Self)
        ensures
            r.ordered_bytes(low_first) == data@,
            low_first ==> r.value() == le_value(data@),
            !low_first ==> r.value() == be_value(data@),
    {
        if low_first {
            u56(data)
        } else {
            let r = u56(Self::swap_data_copy(&data));
            proof {
                crate::encoding::lemma_reversed_twice(data@);
            }
            r
        }
    }

    /// Two values with one encoding in one order are the same value: reading
    /// back what `to_bytes_in` wrote, in the same order, gives the value again.
    pub proof fn lemma_bytes_round_trip(x: Self, y: Self, low_first: bool)
        requires
            x.ordered_bytes(low_first) == y.ordered_bytes(low_first),
        ensures
            x == y,
    {
        crate::encoding::lemma_reversed_twice(x.bytes());
        crate::encoding::lemma_reversed_twice(y.bytes());
        assert(x.0 =~= y.0);
    }

    /// The value whose encoding in the host's byte order is `data`.
    pub fn from_ne_bytes(data: [u8; 7]) -> (r: Self)
        ensures
            r.ordered_bytes(true) == data@ || r.ordered_bytes(false) == data@,
            r.value() == le_value(data@) || r.value() == be_value(data@),
    {
        Self::from_bytes_in(data, host_is_little_endian())
    }

    /// The encoding of the value in the host's byte order.
    pub fn to_ne_bytes(self) -> (r: [u8; 7])
        ensures
            r@ == self.ordered_bytes(true) || r@ == self.ordered_bytes(false),
            le_value(r@) == self.value() || be_value(r@) == self.value(),
    {
        let r = self.to_bytes_in(host_is_little_endian());
        proof {
            crate::encoding::lemma_reversed_twice(self.bytes());
        }
        r
    }

    /// The value with its bytes put in big-endian order, from the host's order: swapped exactly
    /// where the host is little-endian (`host_little` tells which).
    pub fn to_be_in(self, host_little: bool) -> (r: Self)
        ensures
            host_little ==> r.bytes() == reversed_seq(self.bytes()),
            !(host_little) ==> r == self,
    {
        if host_little {
            self.swap_bytes()
        } else {
            self
        }
    }

    /// `to_be_in` for the host's byte order.
    pub fn to_be(self) -> (r: Self)
        ensures
            r == self || r.bytes() == reversed_seq(self.bytes()),
    {
        self.to_be_in(host_is_little_endian())
    }

    /// The value with its bytes put in little-endian order, from the host's order: swapped exactly
    /// where the host is big-endian (`host_little` tells which).
    pub fn to_le_in(self, host_little: bool) -> (r: Self)
        ensures
            !host_little ==> r.bytes() == reversed_seq(self.bytes()),
            !(!host_little) ==> r == self,
    {
        if !host_little {
            self.swap_bytes()
        } else {
            self
        }
    }

    /// `to_le_in` for the host's byte order.
    pub fn to_le(self) -> (r: Self)
        ensures
            r == self || r.bytes() == reversed_seq(self.bytes()),
    {
        self.to_le_in(host_is_little_endian())
    }

    /// The inverse of `to_be_in`, which is the same swap.
    pub fn from_be_in(x: Self, host_little: bool) -> (r: Self)
        ensures
            host_little ==> r.bytes() == reversed_seq(x.bytes()),
            !(host_little) ==> r == x,
    {
        x.to_be_in(host_little)
    }

    /// `from_be_in` for the host's byte order.
    pub fn from_be(x: Self) -> (r: Self)
        ensures
            r == x || r.bytes() == reversed_seq(x.bytes()),
    {
        x.to_be()
    }

    /// The inverse of `to_le_in`, which is the same swap.
    pub fn from_le_in(x: Self, host_little: bool) -> (r: Self)
        ensures
            !host_little ==> r.bytes() == reversed_seq(x.bytes()),
            !(!host_little) ==> r == x,
    {
        x.to_le_in(host_little)
    }

    /// `from_le_in` for the host's byte order.
    pub fn from_le(x: Self) -> (r: Self)
        ensures
            r == x || r.bytes() == reversed_seq(x.bytes()),
    {
        x.to_le()
    }

    /// The bytes in the order that `low_first` names, each reinterpreted as
    /// an `i8`.
    pub fn as_i8_array_in(self, low_first: bool) -> (r: [i8; 7])
        ensures
            forall|i: int| 0 <= i < 7 ==> #[trigger] r@[i] as int == signed_of(self.ordered_bytes(low_first)[i] as nat, 8),
    {
        bytes_as_i8(&self.to_bytes_in(low_first))
    }

    /// The bytes in the host's byte order, each reinterpreted as an `i8`.
    pub fn as_i8_array(self) -> (r: [i8; 7])
        ensures
            (forall|i: int| 0 <= i < 7 ==> #[trigger] r@[i] as int == signed_of(self.ordered_bytes(true)[i] as nat, 8))
                || (forall|i: int| 0 <= i < 7 ==> #[trigger] r@[i] as int == signed_of(self.ordered_bytes(false)[i] as nat, 8)),
    {
        self.as_i8_array_in(host_is_little_endian())
    }

    /// The value whose bytes, in the order that `low_first` names, are the
    /// bits of `a`.
    pub fn from_i8_array_in(a: [i8; 7], low_first: bool) -> (r: Self)
        ensures
            r.ordered_bytes(low_first) == a@.map_values(|x: i8| byte_of(x)),
    {
        Self::from_bytes_in(i8_as_bytes(&a), low_first)
    }

    /// `from_i8_array_in` for the host's byte order.
    pub fn from_i8_array(a: [i8; 7]) -> (r: Self)
        ensures
            r.ordered_bytes(true) == a@.map_values(|x: i8| byte_of(x))
                || r.ordered_bytes(false) == a@.map_values(|x: i8| byte_of(x)),
    {
        Self::from_i8_array_in(a, host_is_little_endian())
    }

    /// The sum modulo `2^56`.
    pub fn wrapping_add(self, rhs: Self) -> (r: Self)
        ensures
            r.value() == wrap((self.value() + rhs.value()) as int, 56),
    {
        Self::of_wide(arith::wrapping_add(self.wide(), rhs.wide(), 56))
    }

    /// The difference modulo `2^56`.
    pub fn wrapping_sub(self, rhs: Self) -> (r: Self)
        ensures
            r.value() == wrap((self.value() - rhs.value()) as int, 56),
    {
        Self::of_wide(arith::wrapping_sub(self.wide(), rhs.wide(), 56))
    }

    /// The product modulo `2^56`.
    pub fn wrapping_mul(self, rhs: Self) -> (r: Self)
        ensures
            r.value() == wrap((self.value() * rhs.value()) as int, 56),
    {
        Self::of_wide(arith::wrapping_mul(self.wide(), rhs.wide(), 56))
    }

    /// The negation modulo `2^56`.
    pub fn wrapping_neg(self) -> (r: Self)
        ensures
            r.value() == wrap((0 - self.value()) as int, 56),
    {
        Self::of_wide(arith::wrapping_neg(self.wide(), 56))
    }

    /// The sum, or `None` where it exceeds `MAX_VALUE`.
    pub fn checked_add(self, rhs: Self) -> (r: Option<Self>)
        ensures
            r is None <==> self.value() + rhs.value() > 0xff_ffff_ffff_ffff,
            r matches Some(v) ==> v.value() == self.value() + rhs.value(),
    {
        proof {
            self.lemma_valid();
        }
        match arith::checked_add(self.wide(), rhs.wide(), 56) {
            Some(v) => Some(Self::of_wide(v)),
            None => None,
        }
    }

    /// The difference, or `None` where it is negative.
    pub fn checked_sub(self, rhs: Self) -> (r: Option<Self>)
        ensures
            r is None <==> self.value() < rhs.value(),
            r matches Some(v) ==> v.value() == self.value() - rhs.value(),
    {
        match arith::checked_sub(self.wide(), rhs.wide(), 56) {
            Some(v) => Some(Self::of_wide(v)),
            None => None,
        }
    }

    /// The product, or `None` where it exceeds `MAX_VALUE`.
    pub fn checked_mul(self, rhs: Self) -> (r: Option<Self>)
        ensures
            r is None <==> self.value() * rhs.value() > 0xff_ffff_ffff_ffff,
            r matches Some(v) ==> v.value() == self.value() * rhs.value(),
    {
        proof {
            self.lemma_valid();
        }
        match arith::checked_mul(self.wide(), rhs.wide(), 56) {
            Some(v) => Some(Self::of_wide(v)),
            None => None,
        }
    }

    /// The quotient, or `None` where `rhs` is zero.
    pub fn checked_div(self, rhs: Self) -> (r: Option<Self>)
        ensures
            r is None <==> rhs.value() == 0,
            r matches Some(v) ==> v.value() == self.value() / rhs.value(),
    {
        if rhs.wide() == 0 {
            None
        } else {
            Some(self.div(rhs))
        }
    }

    /// The remainder, or `None` where `rhs` is zero.
    pub fn checked_rem(self, rhs: Self) -> (r: Option<Self>)
        ensures
            r is None <==> rhs.value() == 0,
            r matches Some(v) ==> v.value() == self.value() % rhs.value(),
    {
        if rhs.wide() == 0 {
            None
        } else {
            Some(self.rem(rhs))
        }
    }

    /// The sum, or `MAX_VALUE` where it would exceed it.
    pub fn saturating_add(self, rhs: Self) -> (r: Self)
        ensures
            r.value() == if self.value() + rhs.value() > 0xff_ffff_ffff_ffff { 0xff_ffff_ffff_ffff } else { self.value() + rhs.value() },
    {
        proof {
            self.lemma_valid();
        }
        Self::of_wide(arith::saturating_add(self.wide(), rhs.wide(), 56))
    }

    /// The difference, or zero where it would be negative.
    pub fn saturating_sub(self, rhs: Self) -> (r: Self)
        ensures
            r.value() == if self.value() < rhs.value() { 0 } else { self.value() - rhs.value() },
    {
        Self::of_wide(arith::saturating_sub(self.wide(), rhs.wide(), 56))
    }

    /// The product, or `MAX_VALUE` where it would exceed it.
    pub fn saturating_mul(self, rhs: Self) -> (r: Self)
        ensures
            r.value() == if self.value() * rhs.value() > 0xff_ffff_ffff_ffff { 0xff_ffff_ffff_ffff } else { self.value() * rhs.value() },
    {
        proof {
            self.lemma_valid();
        }
        Self::of_wide(arith::saturating_mul(self.wide(), rhs.wide(), 56))
    }

    /// The quotient, or `MAX_VALUE` where `rhs` is zero.
    pub fn saturating_div(self, rhs: Self) -> (r: Self)
        ensures
            r.value() == if rhs.value() == 0 { 0xff_ffff_ffff_ffff } else { self.value() / rhs.value() },
    {
        if rhs.wide() == 0 {
            proof {
                lemma_widths();
            }
            Self::max_value()
        } else {
            self.div(rhs)
        }
    }

    /// The sum modulo `2^56`, and whether it left the range.
    pub fn overflowing_add(self, rhs: Self) -> (r: (Self, bool))
        ensures
            r.0.value() == wrap((self.value() + rhs.value()) as int, 56),
            r.1 <==> self.value() + rhs.value() > 0xff_ffff_ffff_ffff,
    {
        proof {
            self.lemma_valid();
        }
        let (v, o) = arith::overflowing_add(self.wide(), rhs.wide(), 56);
        (Self::of_wide(v), o)
    }

    /// The difference modulo `2^56`, and whether it left the range.
    pub fn overflowing_sub(self, rhs: Self) -> (r: (Self, bool))
        ensures
            r.0.value() == wrap((self.value() - rhs.value()) as int, 56),
            r.1 <==> self.value() < rhs.value(),
    {
        proof {
            self.lemma_valid();
        }
        let (v, o) = arith::overflowing_sub(self.wide(), rhs.wide(), 56);
        (Self::of_wide(v), o)
    }

    /// The product modulo `2^56`, and whether it left the range.
    pub fn overflowing_mul(self, rhs: Self) -> (r: (Self, bool))
        ensures
            r.0.value() == wrap((self.value() * rhs.value()) as int, 56),
            r.1 <==> self.value() * rhs.value() > 0xff_ffff_ffff_ffff,
    {
        proof {
            self.lemma_valid();
        }
        let (v, o) = arith::overflowing_mul(self.wide(), rhs.wide(), 56);
        (Self::of_wide(v), o)
    }

    /// The sum; it must not exceed `MAX_VALUE`.
    pub fn add(self, rhs: Self) -> (r: Self)
        requires
            self.value() + rhs.value() <= 0xff_ffff_ffff_ffff,
        ensures
            r.value() == self.value() + rhs.value(),
    {
        proof {
            self.lemma_valid();
        }
        let w = arith::wrapping_add(self.wide(), rhs.wide(), 56);
        proof {
            vstd::arithmetic::div_mod::lemma_small_mod((self.value() + rhs.value()) as nat, pow2(56));
        }
        Self::of_wide(w)
    }

    /// The difference; it must not be negative.
    pub fn sub(self, rhs: Self) -> (r: Self)
        requires
            rhs.value() <= self.value(),
        ensures
            r.value() == self.value() - rhs.value(),
    {
        proof {
            self.lemma_valid();
        }
        let w = arith::wrapping_sub(self.wide(), rhs.wide(), 56);
        proof {
            vstd::arithmetic::div_mod::lemma_small_mod((self.value() - rhs.value()) as nat, pow2(56));
        }
        Self::of_wide(w)
    }

    /// The product; it must not exceed `MAX_VALUE`.
    pub fn mul(self, rhs: Self) -> (r: Self)
        requires
            self.value() * rhs.value() <= 0xff_ffff_ffff_ffff,
        ensures
            r.value() == self.value() * rhs.value(),
    {
        proof {
            self.lemma_valid();
        }
        let w = arith::wrapping_mul(self.wide(), rhs.wide(), 56);
        proof {
            vstd::arithmetic::mul::lemma_mul_nonnegative(self.value() as int, rhs.value() as int);
            vstd::arithmetic::div_mod::lemma_small_mod((self.value() * rhs.value()) as nat, pow2(56));
        }
        Self::of_wide(w)
    }

    /// The quotient; `rhs` must not be zero.
    pub fn div(self, rhs: Self) -> (r: Self)
        requires
            rhs.value() != 0,
        ensures
            r.value() == self.value() / rhs.value(),
    {
        let a = self.wide();
        let b = rhs.wide();
        proof {
            vstd::arithmetic::div_mod::lemma_div_is_ordered_by_denominator(a as int, 1, b as int);
            vstd::arithmetic::div_mod::lemma_mod_bound(a as int, b as int);
        }
        Self::of_wide(a / b)
    }

    /// The remainder; `rhs` must not be zero.
    pub fn rem(self, rhs: Self) -> (r: Self)
        requires
            rhs.value() != 0,
        ensures
            r.value() == self.value() % rhs.value(),
    {
        let a = self.wide();
        let b = rhs.wide();
        proof {
            vstd::arithmetic::div_mod::lemma_div_is_ordered_by_denominator(a as int, 1, b as int);
            vstd::arithmetic::div_mod::lemma_mod_bound(a as int, b as int);
        }
        Self::of_wide(a % b)
    }

    /// Zero for zero, `None` for any other value, which has no unsigned negation.
    pub fn checked_neg(self) -> (r: Option<Self>)
        ensures
            r is Some <==> self.value() == 0,
            r matches Some(v) ==> v.value() == 0,
    {
        if self.wide() == 0 {
            Some(self)
        } else {
            None
        }
    }

    /// The negation modulo `2^56`, and whether the value was not zero.
    pub fn overflowing_neg(self) -> (r: (Self, bool))
        ensures
            r.0.value() == wrap((0 - self.value()) as int, 56),
            r.1 <==> self.value() != 0,
    {
        (self.wrapping_neg(), self.wide() != 0)
    }

    /// The quotient, which cannot overflow; `rhs` must not be zero.
    pub fn wrapping_div(self, rhs: Self) -> (r: Self)
        requires
            rhs.value() != 0,
        ensures
            r.value() == self.value() / rhs.value(),
    {
        self.div(rhs)
    }

    /// The remainder, which cannot overflow; `rhs` must not be zero.
    pub fn wrapping_rem(self, rhs: Self) -> (r: Self)
        requires
            rhs.value() != 0,
        ensures
            r.value() == self.value() % rhs.value(),
    {
        self.rem(rhs)
    }

    /// The Euclidean quotient, the quotient for unsigned values; `rhs` must not be zero.
    pub fn div_euclid(self, rhs: Self) -> (r: Self)
        requires
            rhs.value() != 0,
        ensures
            r.value() == self.value() / rhs.value(),
    {
        self.div(rhs)
    }

    /// The Euclidean remainder, the remainder for unsigned values; `rhs` must not be zero.
    pub fn rem_euclid(self, rhs: Self) -> (r: Self)
        requires
            rhs.value() != 0,
        ensures
            r.value() == self.value() % rhs.value(),
    {
        self.rem(rhs)
    }

    /// The quotient, and `false`: it never overflows; `rhs` must not be zero.
    pub fn overflowing_div(self, rhs: Self) -> (r: (Self, bool))
        requires
            rhs.value() != 0,
        ensures
            r.0.value() == self.value() / rhs.value(),
            !r.1,
    {
        (self.div(rhs), false)
    }

    /// The remainder, and `false`: it never overflows; `rhs` must not be zero.
    pub fn overflowing_rem(self, rhs: Self) -> (r: (Self, bool))
        requires
            rhs.value() != 0,
        ensures
            r.0.value() == self.value() % rhs.value(),
            !r.1,
    {
        (self.rem(rhs), false)
    }

    /// As `checked_div`: the Euclidean forms agree with the plain ones on unsigned values.
    pub fn checked_div_euclid(self, rhs: Self) -> (r: Option<Self>)
        ensures
            r is None <==> rhs.value() == 0,
            r matches Some(v) ==> v.value() == self.value() / rhs.value(),
    {
        self.checked_div(rhs)
    }

    /// As `checked_rem`: the Euclidean forms agree with the plain ones on unsigned values.
    pub fn checked_rem_euclid(self, rhs: Self) -> (r: Option<Self>)
        ensures
            r is None <==> rhs.value() == 0,
            r matches Some(v) ==> v.value() == self.value() % rhs.value(),
    {
        self.checked_rem(rhs)
    }

    /// Whether exactly one bit is set.
    pub fn is_power_of_two(self) -> (r: bool)
        ensures
            r == (ones(self.value(), 56) == 1),
    {
        self.count_ones() == 1
    }

    /// The value raised to `exp`; the power must not exceed `MAX_VALUE`.
    pub fn pow(self, exp: u32) -> (r: Self)
        requires
            pow(self.value() as int, exp as nat) <= 0xff_ffff_ffff_ffff,
        ensures
            r.value() == pow(self.value() as int, exp as nat),
    {
        proof {
            lemma_widths();
        }
        match arith::checked_pow(self.wide(), exp, 56) {
            Some(v) => Self::of_wide(v),
            None => Self::min_value(),
        }
    }

    /// The power, or `None` where it exceeds `MAX_VALUE`.
    pub fn checked_pow(self, exp: u32) -> (r: Option<Self>)
        ensures
            r is None <==> pow(self.value() as int, exp as nat) > 0xff_ffff_ffff_ffff,
            r matches Some(v) ==> v.value() == pow(self.value() as int, exp as nat),
    {
        proof {
            lemma_widths();
        }
        match arith::checked_pow(self.wide(), exp, 56) {
            Some(v) => Some(Self::of_wide(v)),
            None => None,
        }
    }

    /// The power, or `MAX_VALUE` where it would exceed it.
    pub fn saturating_pow(self, exp: u32) -> (r: Self)
        ensures
            r.value() == if pow(self.value() as int, exp as nat) > 0xff_ffff_ffff_ffff { 0xff_ffff_ffff_ffff } else { pow(self.value() as int, exp as nat) },
    {
        proof {
            lemma_widths();
        }
        match self.checked_pow(exp) {
            Some(v) => v,
            None => Self::max_value(),
        }
    }

    /// The power modulo `2^56`.
    pub fn wrapping_pow(self, exp: u32) -> (r: Self)
        ensures
            r.value() == wrap((pow(self.value() as int, exp as nat)) as int, 56),
    {
        Self::of_wide(arith::wrapping_pow(self.wide(), exp, 56))
    }

    /// The integer logarithm in base `base`: the `k` with `base^k <= self <
    /// base^(k+1)`; the value must be positive and the base at least 2.
    pub fn ilog(self, base: Self) -> (r: u32)
        requires
            self.value() >= 1,
            base.value() >= 2,
        ensures
            pow(base.value() as int, r as nat) <= self.value(),
            self.value() < pow(base.value() as int, (r + 1) as nat),
    {
        arith::int_log(self.wide(), base.wide())
    }

    /// The base 2 logarithm, rounded down; the value must be positive.
    pub fn ilog2(self) -> (r: u32)
        requires
            self.value() >= 1,
        ensures
            pow(2, r as nat) <= self.value(),
            self.value() < pow(2, (r + 1) as nat),
    {
        arith::int_log(self.wide(), 2)
    }

    /// The base 10 logarithm, rounded down; the value must be positive.
    pub fn ilog10(self) -> (r: u32)
        requires
            self.value() >= 1,
        ensures
            pow(10, r as nat) <= self.value(),
            self.value() < pow(10, (r + 1) as nat),
    {
        arith::int_log(self.wide(), 10)
    }

    /// The logarithm in base `base`, or `None` where the value is zero or the
    /// base is below 2.
    pub fn checked_ilog(self, base: Self) -> (r: Option<u32>)
        ensures
            r is None <==> self.value() == 0 || base.value() < 2,
            r matches Some(k) ==> pow(base.value() as int, k as nat) <= self.value() < pow(base.value() as int, (k + 1) as nat),
    {
        if self.wide() == 0 || base.wide() < 2 {
            None
        } else {
            Some(self.ilog(base))
        }
    }

    /// The base 2 logarithm, or `None` for zero.
    pub fn checked_ilog2(self) -> (r: Option<u32>)
        ensures
            r is None <==> self.value() == 0,
            r matches Some(k) ==> pow(2, k as nat) <= self.value() < pow(2, (k + 1) as nat),
    {
        if self.wide() == 0 {
            None
        } else {
            Some(self.ilog2())
        }
    }

    /// The base 10 logarithm, or `None` for zero.
    pub fn checked_ilog10(self) -> (r: Option<u32>)
        ensures
            r is None <==> self.value() == 0,
            r matches Some(k) ==> pow(10, k as nat) <= self.value() < pow(10, (k + 1) as nat),
    {
        if self.wide() == 0 {
            None
        } else {
            Some(self.ilog10())
        }
    }

    /// The quotient rounded up; `rhs` must not be zero.
    pub fn div_ceil(self, rhs: Self) -> (r: Self)
        requires
            rhs.value() != 0,
        ensures
            r.value() == if self.value() % rhs.value() == 0 { self.value() / rhs.value() } else { self.value() / rhs.value() + 1 },
    {
        let q = self.div(rhs);
        if self.rem(rhs).wide() == 0 {
            q
        } else {
            proof {
                self.lemma_valid();
                rhs.lemma_valid();
                vstd::arithmetic::div_mod::lemma_fundamental_div_mod(self.value() as int, rhs.value() as int);
                vstd::arithmetic::mul::lemma_mul_inequality(1, rhs.value() as int, q.value() as int);
            }
            q.add(Self::of_wide(1))
        }
    }

    /// The distance between the two values.
    pub fn abs_diff(self, other: Self) -> (r: Self)
        ensures
            r.value() == if self.value() < other.value() { other.value() - self.value() } else { self.value() - other.value() },
    {
        if self.wide() < other.wide() {
            other.sub(self)
        } else {
            self.sub(other)
        }
    }

    /// Compares the integers: `self == other`.
    pub fn eq(&self, other: &Self) -> (r: bool)
        ensures
            r == (self.value() == other.value()),
    {
        self.wide() == other.wide()
    }

    /// Compares the integers: `self > other`.
    pub fn gt(&self, other: &Self) -> (r: bool)
        ensures
            r == (self.value() > other.value()),
    {
        self.wide() > other.wide()
    }

    /// Compares the integers: `self >= other`.
    pub fn ge(&self, other: &Self) -> (r: bool)
        ensures
            r == (self.value() >= other.value()),
    {
        self.wide() >= other.wide()
    }

    /// Compares the integers: `self < other`.
    pub fn lt(&self, other: &Self) -> (r: bool)
        ensures
            r == (self.value() < other.value()),
    {
        self.wide() < other.wide()
    }

    /// Compares the integers: `self <= other`.
    pub fn le(&self, other: &Self) -> (r: bool)
        ensures
            r == (self.value() <= other.value()),
    {
        self.wide() <= other.wide()
    }

    /// The value shifted left by `rhs < 56` places, cut to 56 bits.
    pub fn shl(self, rhs: u32) -> (r: Self)
        requires
            rhs < 56,
        ensures
            r.value() == wrap((self.value() * pow2(rhs as nat)) as int, 56),
    {
        Self::of_wide(arith::shift_left(self.wide(), rhs, 56))
    }

    /// The value shifted right by `rhs < 56` places.
    pub fn shr(self, rhs: u32) -> (r: Self)
        requires
            rhs < 56,
        ensures
            r.value() == self.value() / pow2(rhs as nat),
    {
        Self::of_wide(arith::shift_right(self.wide(), rhs, 56))
    }

    /// The left shift, or `None` where `rhs` is 56 or more.
    pub fn checked_shl(self, rhs: u32) -> (r: Option<Self>)
        ensures
            r is None <==> rhs >= 56,
            r matches Some(v) ==> v.value() == wrap((self.value() * pow2(rhs as nat)) as int, 56),
    {
        if rhs >= 56 {
            None
        } else {
            Some(self.shl(rhs))
        }
    }

    /// The right shift, or `None` where `rhs` is 56 or more.
    pub fn checked_shr(self, rhs: u32) -> (r: Option<Self>)
        ensures
            r is None <==> rhs >= 56,
            r matches Some(v) ==> v.value() == self.value() / pow2(rhs as nat),
    {
        if rhs >= 56 {
            None
        } else {
            Some(self.shr(rhs))
        }
    }

    /// The left shift by `rhs`, and whether `rhs` is 56 or more; in that
    /// case the shift is by 55 places.
    pub fn overflowing_shl(self, rhs: u32) -> (r: (Self, bool))
        ensures
            r.1 <==> rhs >= 56,
            r.0.value() == wrap((self.value() * pow2(if rhs >= 56 { 55 } else { rhs as nat })) as int, 56),
    {
        if rhs >= 56 {
            (self.shl(55), true)
        } else {
            (self.shl(rhs), false)
        }
    }

    /// The right shift by `rhs`, and whether `rhs` is 56 or more; in that
    /// case the shift is by 55 places.
    pub fn overflowing_shr(self, rhs: u32) -> (r: (Self, bool))
        ensures
            r.1 <==> rhs >= 56,
            r.0.value() == self.value() / pow2(if rhs >= 56 { 55 } else { rhs as nat }),
    {
        if rhs >= 56 {
            (self.shr(55), true)
        } else {
            (self.shr(rhs), false)
        }
    }

    /// The left shift by `rhs` modulo 56.
    pub fn wrapping_shl(self, rhs: u32) -> (r: Self)
        ensures
            r.value() == wrap((self.value() * pow2((rhs % 56) as nat)) as int, 56),
    {
        self.shl(rhs % 56)
    }

    /// The right shift by `rhs` modulo 56.
    pub fn wrapping_shr(self, rhs: u32) -> (r: Self)
        ensures
            r.value() == self.value() / pow2((rhs % 56) as nat),
    {
        self.shr(rhs % 56)
    }

    /// The 56 bits rotated left by `n` places (modulo 56).
    pub fn rotate_left(self, n: u32) -> (r: Self)
        ensures
            r.value() == rotl(self.value(), (n % 56) as nat, 56),
    {
        Self::of_wide(arith::rotate_left_by(self.wide(), n % 56, 56))
    }

    /// The 56 bits rotated right by `n` places (modulo 56).
    pub fn rotate_right(self, n: u32) -> (r: Self)
        ensures
            r.value() == rotr(self.value(), (n % 56) as nat, 56),
    {
        Self::of_wide(arith::rotate_right_by(self.wide(), n % 56, 56))
    }

    /// The number of one bits.
    pub fn count_ones(self) -> (r: u32)
        ensures
            r as nat == ones(self.value(), 56),
    {
        bitcount::count_ones(self.wide(), 56)
    }

    /// The number of zero bits among the 56.
    pub fn count_zeros(self) -> (r: u32)
        ensures
            r as nat == 56 - ones(self.value(), 56),
    {
        56 - bitcount::count_ones(self.wide(), 56)
    }

    /// The number of zero bits above the highest one bit, within 56 bits.
    pub fn leading_zeros(self) -> (r: u32)
        ensures
            r as nat == 56 - bit_length(self.value()),
    {
        bitcount::leading_zeros(self.wide(), 56)
    }

    /// The number of zero bits below the lowest one bit; 56 for zero.
    pub fn trailing_zeros(self) -> (r: u32)
        ensures
            r as nat == low_zeros(self.value(), 56),
    {
        bitcount::trailing_zeros(self.wide(), 56)
    }

    /// The number of one bits above the highest zero bit, within 56 bits.
    pub fn leading_ones(self) -> (r: u32)
        ensures
            r as nat == 56 - bit_length((0xff_ffff_ffff_ffff - self.value()) as nat),
    {
        proof {
            self.lemma_valid();
        }
        bitcount::leading_ones(self.wide(), 56)
    }

    /// The number of one bits below the lowest zero bit.
    pub fn trailing_ones(self) -> (r: u32)
        ensures
            r as nat == low_ones(self.value(), 56),
    {
        bitcount::trailing_ones(self.wide(), 56)
    }

    /// Parses `src` as digits in base `radix` (2 to 36) after an optional
    /// `+`; a number above `MAX_VALUE` is refused as out of range.
    pub fn from_str_radix(src: &str, radix: u32) -> (r: Result<Self, ParseError>)
        requires
            2 <= radix <= 36,
        ensures
            parse_spec(src.spec_bytes(), radix as nat, 56) matches Ok(n) ==> r matches Ok(v) && v.value() == n,
            parse_spec(src.spec_bytes(), radix as nat, 56) matches Err(e) ==> r matches Err(e2) && e2 == e,
    {
        match parse_radix(src, radix, 56) {
            Ok(v) => Ok(Self::of_wide(v)),
            Err(e) => Err(e),
        }
    }
}

impl PartialEq for u56 {
    fn eq(&self, other: &u56) -> bool {
        let r = self.wide() == other.wide();
        proof {
            if r {
                u56::lemma_same(*self, *other);
            }
        }
        r
    }
}

impl vstd::std_specs::cmp::PartialEqSpecImpl for u56 {
    open spec fn obeys_eq_spec() -> bool {
        true
    }

    open spec fn eq_spec(&self, other: &u56) -> bool {
        self == other
    }
}

impl Eq for u56 {

}

impl PartialEq<u64> for u56 {
    fn eq(&self, other: &u64) -> bool {
        proof {
            lemma_widths();
        }
        self.wide() == *other as u128
    }
}

impl vstd::std_specs::cmp::PartialEqSpecImpl<u64> for u56 {
    open spec fn obeys_eq_spec() -> bool {
        true
    }

    open spec fn eq_spec(&self, other: &u64) -> bool {
        self.value() == *other as nat
    }
}

impl PartialOrd<u56> for u56 {
    fn partial_cmp(&self, other: &u56) -> Option<core::cmp::Ordering> {
        let a = self.wide();
        let b = other.wide();
        proof {
            lemma_widths();
        }
        Some(if a < b {
            core::cmp::Ordering::Less
        } else if a == b {
            core::cmp::Ordering::Equal
        } else {
            core::cmp::Ordering::Greater
        })
    }
}

impl vstd::std_specs::cmp::PartialOrdSpecImpl<u56> for u56 {
    open spec fn obeys_partial_cmp_spec() -> bool {
        true
    }

    open spec fn partial_cmp_spec(&self, other: &u56) -> Option<core::cmp::Ordering> {
        Some(if self.value() < other.value() {
            core::cmp::Ordering::Less
        } else if self.value() == other.value() {
            core::cmp::Ordering::Equal
        } else {
            core::cmp::Ordering::Greater
        })
    }
}

impl PartialOrd<u64> for u56 {
    fn partial_cmp(&self, other: &u64) -> Option<core::cmp::Ordering> {
        let a = self.wide();
        let b = *other as u128;
        proof {
            lemma_widths();
        }
        Some(if a < b {
            core::cmp::Ordering::Less
        } else if a == b {
            core::cmp::Ordering::Equal
        } else {
            core::cmp::Ordering::Greater
        })
    }
}

impl vstd::std_specs::cmp::PartialOrdSpecImpl<u64> for u56 {
    open spec fn obeys_partial_cmp_spec() -> bool {
        true
    }

    open spec fn partial_cmp_spec(&self, other: &u64) -> Option<core::cmp::Ordering> {
        Some(if self.value() < *other as nat {
            core::cmp::Ordering::Less
        } else if self.value() == *other as nat {
            core::cmp::Ordering::Equal
        } else {
            core::cmp::Ordering::Greater
        })
    }
}

impl Default for u56 {
    fn default() -> (r: Self)
        ensures
            r.value() == 0,
    {
        Self::min_value()
    }
}

impl core::ops::Not for u56 {
    type Output = u56;

    fn not(self) -> u56 {
        let m = arith::max_of_width(56);
        proof {
            self.lemma_valid();
        }
        let r = Self::of_wide(m - self.wide());
        proof {
            vstd::arithmetic::div_mod::lemma_small_mod((0xff_ffff_ffff_ffff - self.value()) as nat, pow2(56));
            Self::lemma_of(r, (0xff_ffff_ffff_ffff - self.value()) as int);
        }
        r
    }
}

impl vstd::std_specs::ops::NotSpecImpl for u56 {
    open spec fn obeys_not_spec() -> bool {
        true
    }

    open spec fn not_req(self) -> bool {
        true
    }

    open spec fn not_spec(self) -> u56 {
        u56::of((0xff_ffff_ffff_ffff - self.value()) as int)
    }
}

impl core::ops::Add<u56> for u56 {
    type Output = u56;

    fn add(self, rhs: u56) -> u56 {
        proof {
            lemma_widths();
        }
        let b = rhs;
        let r = u56::add(self, b);
        proof {
            self.lemma_valid();
            r.lemma_valid();
            vstd::arithmetic::div_mod::lemma_small_mod(r.value(), pow2(56));
            u56::lemma_of(r, (self.value() + rhs.value()) as int);
        }
        r
    }
}

impl vstd::std_specs::ops::AddSpecImpl<u56> for u56 {
    open spec fn obeys_add_spec() -> bool {
        true
    }

    open spec fn add_req(self, rhs: u56) -> bool {
        self.value() + rhs.value() <= 0xff_ffff_ffff_ffff
    }

    open spec fn add_spec(self, rhs: u56) -> u56 {
        u56::of((self.value() + rhs.value()) as int)
    }
}

impl core::ops::Add<u64> for u56 {
    type Output = u56;

    fn add(self, rhs: u64) -> u56 {
        proof {
            lemma_widths();
        }
        let b = u56::of_wide(rhs as u128);
        let r = u56::add(self, b);
        proof {
            self.lemma_valid();
            r.lemma_valid();
            vstd::arithmetic::div_mod::lemma_small_mod(r.value(), pow2(56));
            u56::lemma_of(r, (self.value() + rhs as nat) as int);
        }
        r
    }
}

impl vstd::std_specs::ops::AddSpecImpl<u64> for u56 {
    open spec fn obeys_add_spec() -> bool {
        true
    }

    open spec fn add_req(self, rhs: u64) -> bool {
        self.value() + rhs as nat <= 0xff_ffff_ffff_ffff && rhs as nat <= 0xff_ffff_ffff_ffff
    }

    open spec fn add_spec(self, rhs: u64) -> u56 {
        u56::of((self.value() + rhs as nat) as int)
    }
}

impl core::ops::Sub<u56> for u56 {
    type Output = u56;

    fn sub(self, rhs: u56) -> u56 {
        proof {
            lemma_widths();
        }
        let b = rhs;
        let r = u56::sub(self, b);
        proof {
            self.lemma_valid();
            r.lemma_valid();
            vstd::arithmetic::div_mod::lemma_small_mod(r.value(), pow2(56));
            u56::lemma_of(r, (self.value() - rhs.value()) as int);
        }
        r
    }
}

impl vstd::std_specs::ops::SubSpecImpl<u56> for u56 {
    open spec fn obeys_sub_spec() -> bool {
        true
    }

    open spec fn sub_req(self, rhs: u56) -> bool {
        rhs.value() <= self.value()
    }

    open spec fn sub_spec(self, rhs: u56) -> u56 {
        u56::of((self.value() - rhs.value()) as int)
    }
}

impl core::ops::Sub<u64> for u56 {
    type Output = u56;

    fn sub(self, rhs: u64) -> u56 {
        proof {
            lemma_widths();
        }
        let b = u56::of_wide(rhs as u128);
        let r = u56::sub(self, b);
        proof {
            self.lemma_valid();
            r.lemma_valid();
            vstd::arithmetic::div_mod::lemma_small_mod(r.value(), pow2(56));
            u56::lemma_of(r, (self.value() - rhs as nat) as int);
        }
        r
    }
}

impl vstd::std_specs::ops::SubSpecImpl<u64> for u56 {
    open spec fn obeys_sub_spec() -> bool {
        true
    }

    open spec fn sub_req(self, rhs: u64) -> bool {
        rhs as nat <= self.value() && rhs as nat <= 0xff_ffff_ffff_ffff
    }

    open spec fn sub_spec(self, rhs: u64) -> u56 {
        u56::of((self.value() - rhs as nat) as int)
    }
}

impl core::ops::Mul<u56> for u56 {
    type Output = u56;

    fn mul(self, rhs: u56) -> u56 {
        proof {
            lemma_widths();
        }
        let b = rhs;
        let r = u56::mul(self, b);
        proof {
            self.lemma_valid();
            r.lemma_valid();
            vstd::arithmetic::div_mod::lemma_small_mod(r.value(), pow2(56));
            u56::lemma_of(r, (self.value() * rhs.value()) as int);
        }
        r
    }
}

impl vstd::std_specs::ops::MulSpecImpl<u56> for u56 {
    open spec fn obeys_mul_spec() -> bool {
        true
    }

    open spec fn mul_req(self, rhs: u56) -> bool {
        self.value() * rhs.value() <= 0xff_ffff_ffff_ffff
    }

    open spec fn mul_spec(self, rhs: u56) -> u56 {
        u56::of((self.value() * rhs.value()) as int)
    }
}

impl core::ops::Mul<u64> for u56 {
    type Output = u56;

    fn mul(self, rhs: u64) -> u56 {
        proof {
            lemma_widths();
        }
        let b = u56::of_wide(rhs as u128);
        let r = u56::mul(self, b);
        proof {
            self.lemma_valid();
            r.lemma_valid();
            vstd::arithmetic::div_mod::lemma_small_mod(r.value(), pow2(56));
            u56::lemma_of(r, (self.value() * rhs as nat) as int);
        }
        r
    }
}

impl vstd::std_specs::ops::MulSpecImpl<u64> for u56 {
    open spec fn obeys_mul_spec() -> bool {
        true
    }

    open spec fn mul_req(self, rhs: u64) -> bool {
        self.value() * rhs as nat <= 0xff_ffff_ffff_ffff && rhs as nat <= 0xff_ffff_ffff_ffff
    }

    open spec fn mul_spec(self, rhs: u64) -> u56 {
        u56::of((self.value() * rhs as nat) as int)
    }
}

impl core::ops::Div<u56> for u56 {
    type Output = u56;

    fn div(self, rhs: u56) -> u56 {
        proof {
            lemma_widths();
        }
        let b = rhs;
        let r = u56::div(self, b);
        proof {
            self.lemma_valid();
            r.lemma_valid();
            vstd::arithmetic::div_mod::lemma_small_mod(r.value(), pow2(56));
            u56::lemma_of(r, (self.value() / rhs.value()) as int);
        }
        r
    }
}

impl vstd::std_specs::ops::DivSpecImpl<u56> for u56 {
    open spec fn obeys_div_spec() -> bool {
        true
    }

    open spec fn div_req(self, rhs: u56) -> bool {
        rhs.value() != 0
    }

    open spec fn div_spec(self, rhs: u56) -> u56 {
        u56::of((self.value() / rhs.value()) as int)
    }
}

impl core::ops::Div<u64> for u56 {
    type Output = u56;

    fn div(self, rhs: u64) -> u56 {
        proof {
            lemma_widths();
        }
        let b = u56::of_wide(rhs as u128);
        let r = u56::div(self, b);
        proof {
            self.lemma_valid();
            r.lemma_valid();
            vstd::arithmetic::div_mod::lemma_small_mod(r.value(), pow2(56));
            u56::lemma_of(r, (self.value() / rhs as nat) as int);
        }
        r
    }
}

impl vstd::std_specs::ops::DivSpecImpl<u64> for u56 {
    open spec fn obeys_div_spec() -> bool {
        true
    }

    open spec fn div_req(self, rhs: u64) -> bool {
        rhs as nat != 0 && rhs as nat <= 0xff_ffff_ffff_ffff
    }

    open spec fn div_spec(self, rhs: u64) -> u56 {
        u56::of((self.value() / rhs as nat) as int)
    }
}

impl core::ops::Rem<u56> for u56 {
    type Output = u56;

    fn rem(self, rhs: u56) -> u56 {
        proof {
            lemma_widths();
        }
        let b = rhs;
        let r = u56::rem(self, b);
        proof {
            self.lemma_valid();
            r.lemma_valid();
            vstd::arithmetic::div_mod::lemma_small_mod(r.value(), pow2(56));
            u56::lemma_of(r, (self.value() % rhs.value()) as int);
        }
        r
    }
}

impl vstd::std_specs::ops::RemSpecImpl<u56> for u56 {
    open spec fn obeys_rem_spec() -> bool {
        true
    }

    open spec fn rem_req(self, rhs: u56) -> bool {
        rhs.value() != 0
    }

    open spec fn rem_spec(self, rhs: u56) -> u56 {
        u56::of((self.value() % rhs.value()) as int)
    }
}

impl core::ops::Rem<u64> for u56 {
    type Output = u56;

    fn rem(self, rhs: u64) -> u56 {
        proof {
            lemma_widths();
        }
        let b = u56::of_wide(rhs as u128);
        let r = u56::rem(self, b);
        proof {
            self.lemma_valid();
            r.lemma_valid();
            vstd::arithmetic::div_mod::lemma_small_mod(r.value(), pow2(56));
            u56::lemma_of(r, (self.value() % rhs as nat) as int);
        }
        r
    }
}

impl vstd::std_specs::ops::RemSpecImpl<u64> for u56 {
    open spec fn obeys_rem_spec() -> bool {
        true
    }

    open spec fn rem_req(self, rhs: u64) -> bool {
        rhs as nat != 0 && rhs as nat <= 0xff_ffff_ffff_ffff
    }

    open spec fn rem_spec(self, rhs: u64) -> u56 {
        u56::of((self.value() % rhs as nat) as int)
    }
}

impl core::ops::BitAnd<u56> for u56 {
    type Output = u56;

    fn bitand(self, rhs: u56) -> u56 {
        proof {
            lemma_widths();
        }
        let v = arith::bit_and(self.wide(), rhs.wide(), 56);
        let r = Self::of_wide(v);
        proof {
            vstd::arithmetic::div_mod::lemma_small_mod(v as nat, pow2(56));
            u56::lemma_of(r, v as int);
        }
        r
    }
}

impl vstd::std_specs::ops::BitAndSpecImpl<u56> for u56 {
    open spec fn obeys_bitand_spec() -> bool {
        true
    }

    open spec fn bitand_req(self, rhs: u56) -> bool {
        true
    }

    open spec fn bitand_spec(self, rhs: u56) -> u56 {
        u56::of(((self.value() as u128) & (rhs.value() as u128)) as int)
    }
}

impl core::ops::BitAnd<u64> for u56 {
    type Output = u56;

    fn bitand(self, rhs: u64) -> u56 {
        proof {
            lemma_widths();
        }
        let v = arith::bit_and(self.wide(), rhs as u128, 56);
        let r = Self::of_wide(v);
        proof {
            vstd::arithmetic::div_mod::lemma_small_mod(v as nat, pow2(56));
            u56::lemma_of(r, v as int);
        }
        r
    }
}

impl vstd::std_specs::ops::BitAndSpecImpl<u64> for u56 {
    open spec fn obeys_bitand_spec() -> bool {
        true
    }

    open spec fn bitand_req(self, rhs: u64) -> bool {
        true
    }

    open spec fn bitand_spec(self, rhs: u64) -> u56 {
        u56::of(((self.value() as u128) & (rhs as u128)) as int)
    }
}

impl core::ops::BitOr<u56> for u56 {
    type Output = u56;

    fn bitor(self, rhs: u56) -> u56 {
        proof {
            lemma_widths();
        }
        let v = arith::bit_or(self.wide(), rhs.wide(), 56);
        let r = Self::of_wide(v);
        proof {
            vstd::arithmetic::div_mod::lemma_small_mod(v as nat, pow2(56));
            u56::lemma_of(r, v as int);
        }
        r
    }
}

impl vstd::std_specs::ops::BitOrSpecImpl<u56> for u56 {
    open spec fn obeys_bitor_spec() -> bool {
        true
    }

    open spec fn bitor_req(self, rhs: u56) -> bool {
        true
    }

    open spec fn bitor_spec(self, rhs: u56) -> u56 {
        u56::of(((self.value() as u128) | (rhs.value() as u128)) as int)
    }
}

impl core::ops::BitOr<u64> for u56 {
    type Output = u56;

    fn bitor(self, rhs: u64) -> u56 {
        proof {
            lemma_widths();
        }
        let v = arith::bit_or(self.wide(), rhs as u128, 56);
        let r = Self::of_wide(v);
        proof {
            vstd::arithmetic::div_mod::lemma_small_mod(v as nat, pow2(56));
            u56::lemma_of(r, v as int);
        }
        r
    }
}

impl vstd::std_specs::ops::BitOrSpecImpl<u64> for u56 {
    open spec fn obeys_bitor_spec() -> bool {
        true
    }

    open spec fn bitor_req(self, rhs: u64) -> bool {
        (rhs as nat) <= 0xff_ffff_ffff_ffff
    }

    open spec fn bitor_spec(self, rhs: u64) -> u56 {
        u56::of(((self.value() as u128) | (rhs as u128)) as int)
    }
}

impl core::ops::BitXor<u56> for u56 {
    type Output = u56;

    fn bitxor(self, rhs: u56) -> u56 {
        proof {
            lemma_widths();
        }
        let v = arith::bit_xor(self.wide(), rhs.wide(), 56);
        let r = Self::of_wide(v);
        proof {
            vstd::arithmetic::div_mod::lemma_small_mod(v as nat, pow2(56));
            u56::lemma_of(r, v as int);
        }
        r
    }
}

impl vstd::std_specs::ops::BitXorSpecImpl<u56> for u56 {
    open spec fn obeys_bitxor_spec() -> bool {
        true
    }

    open spec fn bitxor_req(self, rhs: u56) -> bool {
        true
    }

    open spec fn bitxor_spec(self, rhs: u56) -> u56 {
        u56::of(((self.value() as u128) ^ (rhs.value() as u128)) as int)
    }
}

impl core::ops::BitXor<u64> for u56 {
    type Output = u56;

    fn bitxor(self, rhs: u64) -> u56 {
        proof {
            lemma_widths();
        }
        let v = arith::bit_xor(self.wide(), rhs as u128, 56);
        let r = Self::of_wide(v);
        proof {
            vstd::arithmetic::div_mod::lemma_small_mod(v as nat, pow2(56));
            u56::lemma_of(r, v as int);
        }
        r
    }
}

impl vstd::std_specs::ops::BitXorSpecImpl<u64> for u56 {
    open spec fn obeys_bitxor_spec() -> bool {
        true
    }

    open spec fn bitxor_req(self, rhs: u64) -> bool {
        (rhs as nat) <= 0xff_ffff_ffff_ffff
    }

    open spec fn bitxor_spec(self, rhs: u64) -> u56 {
        u56::of(((self.value() as u128) ^ (rhs as u128)) as int)
    }
}

impl core::ops::AddAssign<u56> for u56 {
    /// Modular: the result wraps modulo `2^56`.
    fn add_assign(&mut self, rhs: u56)
        ensures
            final(self).value() == wrap((old(self).value() + rhs.value()) as int, 56),
    {
        *self = self.wrapping_add(rhs);
    }
}

impl core::ops::SubAssign<u56> for u56 {
    /// Modular: the result wraps modulo `2^56`.
    fn sub_assign(&mut self, rhs: u56)
        ensures
            final(self).value() == wrap((old(self).value() - rhs.value()) as int, 56),
    {
        *self = self.wrapping_sub(rhs);
    }
}

impl core::ops::MulAssign<u56> for u56 {
    /// Modular: the result wraps modulo `2^56`.
    fn mul_assign(&mut self, rhs: u56)
        ensures
            final(self).value() == wrap((old(self).value() * rhs.value()) as int, 56),
    {
        *self = self.wrapping_mul(rhs);
    }
}

impl core::ops::DivAssign<u56> for u56 {
    /// Division by zero gives `MAX_VALUE`, as in bit-vector arithmetic.
    fn div_assign(&mut self, rhs: u56)
        ensures
            final(self).value() == if rhs.value() == 0 { 0xff_ffff_ffff_ffff } else { old(self).value() / rhs.value() },
    {
        *self = self.saturating_div(rhs);
    }
}

impl core::ops::RemAssign<u56> for u56 {
    /// The remainder by zero leaves the value as it is, as in bit-vector
    /// arithmetic.
    fn rem_assign(&mut self, rhs: u56)
        ensures
            final(self).value() == if rhs.value() == 0 { old(self).value() } else { old(self).value() % rhs.value() },
    {
        if let Some(v) = self.checked_rem(rhs) {
            *self = v;
        }
    }
}

impl core::ops::BitAndAssign<u56> for u56 {
    fn bitand_assign(&mut self, rhs: u56)
        ensures
            *final(self) == u56::of(((old(self).value() as u128) & (rhs.value() as u128)) as int),
    {
        *self = *self & rhs;
    }
}

impl core::ops::BitOrAssign<u56> for u56 {
    fn bitor_assign(&mut self, rhs: u56)
        ensures
            *final(self) == u56::of(((old(self).value() as u128) | (rhs.value() as u128)) as int),
    {
        *self = *self | rhs;
    }
}

impl core::ops::BitXorAssign<u56> for u56 {
    fn bitxor_assign(&mut self, rhs: u56)
        ensures
            *final(self) == u56::of(((old(self).value() as u128) ^ (rhs.value() as u128)) as int),
    {
        *self = *self ^ rhs;
    }
}

impl core::ops::AddAssign<u64> for u56 {
    /// Modular: the result wraps modulo `2^56`.
    fn add_assign(&mut self, rhs: u64)
        ensures
            final(self).value() == wrap((old(self).value() + wrap(rhs as int, 56)) as int, 56),
    {
        *self = self.wrapping_add(u56::from_num(rhs));
    }
}

impl core::ops::SubAssign<u64> for u56 {
    /// Modular: the result wraps modulo `2^56`.
    fn sub_assign(&mut self, rhs: u64)
        ensures
            final(self).value() == wrap((old(self).value() - wrap(rhs as int, 56)) as int, 56),
    {
        *self = self.wrapping_sub(u56::from_num(rhs));
    }
}

impl core::ops::MulAssign<u64> for u56 {
    /// Modular: the result wraps modulo `2^56`.
    fn mul_assign(&mut self, rhs: u64)
        ensures
            final(self).value() == wrap((old(self).value() * wrap(rhs as int, 56)) as int, 56),
    {
        *self = self.wrapping_mul(u56::from_num(rhs));
    }
}

impl core::ops::DivAssign<u64> for u56 {
    /// Division by zero gives `MAX_VALUE`, as in bit-vector arithmetic.
    fn div_assign(&mut self, rhs: u64)
        ensures
            final(self).value() == if wrap(rhs as int, 56) == 0 { 0xff_ffff_ffff_ffff } else { old(self).value() / wrap(rhs as int, 56) },
    {
        *self = self.saturating_div(u56::from_num(rhs));
    }
}

impl core::ops::RemAssign<u64> for u56 {
    /// The remainder by zero leaves the value as it is, as in bit-vector
    /// arithmetic.
    fn rem_assign(&mut self, rhs: u64)
        ensures
            final(self).value() == if wrap(rhs as int, 56) == 0 { old(self).value() } else { old(self).value() % wrap(rhs as int, 56) },
    {
        if let Some(v) = self.checked_rem(u56::from_num(rhs)) {
            *self = v;
        }
    }
}

impl core::ops::BitAndAssign<u64> for u56 {
    fn bitand_assign(&mut self, rhs: u64)
        ensures
            *final(self) == u56::of(((old(self).value() as u128) & (wrap(rhs as int, 56) as u128)) as int),
    {
        *self = *self & u56::from_num(rhs);
    }
}

impl core::ops::BitOrAssign<u64> for u56 {
    fn bitor_assign(&mut self, rhs: u64)
        ensures
            *final(self) == u56::of(((old(self).value() as u128) | (wrap(rhs as int, 56) as u128)) as int),
    {
        *self = *self | u56::from_num(rhs);
    }
}

impl core::ops::BitXorAssign<u64> for u56 {
    fn bitxor_assign(&mut self, rhs: u64)
        ensures
            *final(self) == u56::of(((old(self).value() as u128) ^ (wrap(rhs as int, 56) as u128)) as int),
    {
        *self = *self ^ u56::from_num(rhs);
    }
}

impl core::ops::Shl<u8> for u56 {
    type Output = u56;

    fn shl(self, rhs: u8) -> u56 {
        let r = u56::shl(self, rhs as u32);
        proof {
            u56::lemma_of(r, (self.value() * pow2(rhs as nat)) as int);
        }
        r
    }
}

impl vstd::std_specs::ops::ShlSpecImpl<u8> for u56 {
    open spec fn obeys_shl_spec() -> bool {
        true
    }

    open spec fn shl_req(self, rhs: u8) -> bool {
        rhs < 56
    }

    open spec fn shl_spec(self, rhs: u8) -> u56 {
        u56::of((self.value() * pow2(rhs as nat)) as int)
    }
}

impl core::ops::Shr<u8> for u56 {
    type Output = u56;

    fn shr(self, rhs: u8) -> u56 {
        let r = u56::shr(self, rhs as u32);
        proof {
            self.lemma_valid();
            vstd::arithmetic::power2::lemma_pow2_pos(rhs as nat);
            vstd::arithmetic::div_mod::lemma_div_is_ordered_by_denominator(self.value() as int, 1, pow2(rhs as nat) as int);
            vstd::arithmetic::div_mod::lemma_small_mod(r.value(), pow2(56));
            u56::lemma_of(r, (self.value() / pow2(rhs as nat)) as int);
        }
        r
    }
}

impl vstd::std_specs::ops::ShrSpecImpl<u8> for u56 {
    open spec fn obeys_shr_spec() -> bool {
        true
    }

    open spec fn shr_req(self, rhs: u8) -> bool {
        rhs < 56
    }

    open spec fn shr_spec(self, rhs: u8) -> u56 {
        u56::of((self.value() / pow2(rhs as nat)) as int)
    }
}

impl core::ops::ShlAssign<u8> for u56 {
    /// A shift by 56 places or more gives zero, as in bit-vector arithmetic.
    fn shl_assign(&mut self, rhs: u8)
        ensures
            final(self).value() == if rhs >= 56 { 0 } else { wrap((old(self).value() * pow2(rhs as nat)) as int, 56) },
    {
        *self = if rhs >= 56 {
            u56::min_value()
        } else {
            self.shl(rhs as u32)
        };
    }
}

impl core::ops::ShrAssign<u8> for u56 {
    /// A shift by 56 places or more gives zero, as in bit-vector arithmetic.
    fn shr_assign(&mut self, rhs: u8)
        ensures
            final(self).value() == if rhs >= 56 { 0 } else { old(self).value() / pow2(rhs as nat) },
    {
        *self = if rhs >= 56 {
            u56::min_value()
        } else {
            self.shr(rhs as u32)
        };
    }
}

impl core::ops::Shl<u16> for u56 {
    type Output = u56;

    fn shl(self, rhs: u16) -> u56 {
        let r = u56::shl(self, rhs as u32);
        proof {
            u56::lemma_of(r, (self.value() * pow2(rhs as nat)) as int);
        }
        r
    }
}

impl vstd::std_specs::ops::ShlSpecImpl<u16> for u56 {
    open spec fn obeys_shl_spec() -> bool {
        true
    }

    open spec fn shl_req(self, rhs: u16) -> bool {
        rhs < 56
    }

    open spec fn shl_spec(self, rhs: u16) -> u56 {
        u56::of((self.value() * pow2(rhs as nat)) as int)
    }
}

impl core::ops::Shr<u16> for u56 {
    type Output = u56;

    fn shr(self, rhs: u16) -> u56 {
        let r = u56::shr(self, rhs as u32);
        proof {
            self.lemma_valid();
            vstd::arithmetic::power2::lemma_pow2_pos(rhs as nat);
            vstd::arithmetic::div_mod::lemma_div_is_ordered_by_denominator(self.value() as int, 1, pow2(rhs as nat) as int);
            vstd::arithmetic::div_mod::lemma_small_mod(r.value(), pow2(56));
            u56::lemma_of(r, (self.value() / pow2(rhs as nat)) as int);
        }
        r
    }
}

impl vstd::std_specs::ops::ShrSpecImpl<u16> for u56 {
    open spec fn obeys_shr_spec() -> bool {
        true
    }

    open spec fn shr_req(self, rhs: u16) -> bool {
        rhs < 56
    }

    open spec fn shr_spec(self, rhs: u16) -> u56 {
        u56::of((self.value() / pow2(rhs as nat)) as int)
    }
}

impl core::ops::ShlAssign<u16> for u56 {
    /// A shift by 56 places or more gives zero, as in bit-vector arithmetic.
    fn shl_assign(&mut self, rhs: u16)
        ensures
            final(self).value() == if rhs >= 56 { 0 } else { wrap((old(self).value() * pow2(rhs as nat)) as int, 56) },
    {
        *self = if rhs >= 56 {
            u56::min_value()
        } else {
            self.shl(rhs as u32)
        };
    }
}

impl core::ops::ShrAssign<u16> for u56 {
    /// A shift by 56 places or more gives zero, as in bit-vector arithmetic.
    fn shr_assign(&mut self, rhs: u16)
        ensures
            final(self).value() == if rhs >= 56 { 0 } else { old(self).value() / pow2(rhs as nat) },
    {
        *self = if rhs >= 56 {
            u56::min_value()
        } else {
            self.shr(rhs as u32)
        };
    }
}

impl core::ops::Shl<u32> for u56 {
    type Output = u56;

    fn shl(self, rhs: u32) -> u56 {
        let r = u56::shl(self, rhs as u32);
        proof {
            u56::lemma_of(r, (self.value() * pow2(rhs as nat)) as int);
        }
        r
    }
}

impl vstd::std_specs::ops::ShlSpecImpl<u32> for u56 {
    open spec fn obeys_shl_spec() -> bool {
        true
    }

    open spec fn shl_req(self, rhs: u32) -> bool {
        rhs < 56
    }

    open spec fn shl_spec(self, rhs: u32) -> u56 {
        u56::of((self.value() * pow2(rhs as nat)) as int)
    }
}

impl core::ops::Shr<u32> for u56 {
    type Output = u56;

    fn shr(self, rhs: u32) -> u56 {
        let r = u56::shr(self, rhs as u32);
        proof {
            self.lemma_valid();
            vstd::arithmetic::power2::lemma_pow2_pos(rhs as nat);
            vstd::arithmetic::div_mod::lemma_div_is_ordered_by_denominator(self.value() as int, 1, pow2(rhs as nat) as int);
            vstd::arithmetic::div_mod::lemma_small_mod(r.value(), pow2(56));
            u56::lemma_of(r, (self.value() / pow2(rhs as nat)) as int);
        }
        r
    }
}

impl vstd::std_specs::ops::ShrSpecImpl<u32> for u56 {
    open spec fn obeys_shr_spec() -> bool {
        true
    }

    open spec fn shr_req(self, rhs: u32) -> bool {
        rhs < 56
    }

    open spec fn shr_spec(self, rhs: u32) -> u56 {
        u56::of((self.value() / pow2(rhs as nat)) as int)
    }
}

impl core::ops::ShlAssign<u32> for u56 {
    /// A shift by 56 places or more gives zero, as in bit-vector arithmetic.
    fn shl_assign(&mut self, rhs: u32)
        ensures
            final(self).value() == if rhs >= 56 { 0 } else { wrap((old(self).value() * pow2(rhs as nat)) as int, 56) },
    {
        *self = if rhs >= 56 {
            u56::min_value()
        } else {
            self.shl(rhs as u32)
        };
    }
}

impl core::ops::ShrAssign<u32> for u56 {
    /// A shift by 56 places or more gives zero, as in bit-vector arithmetic.
    fn shr_assign(&mut self, rhs: u32)
        ensures
            final(self).value() == if rhs >= 56 { 0 } else { old(self).value() / pow2(rhs as nat) },
    {
        *self = if rhs >= 56 {
            u56::min_value()
        } else {
            self.shr(rhs as u32)
        };
    }
}

impl core::ops::Shl<u64> for u56 {
    type Output = u56;

    fn shl(self, rhs: u64) -> u56 {
        let r = u56::shl(self, rhs as u32);
        proof {
            u56::lemma_of(r, (self.value() * pow2(rhs as nat)) as int);
        }
        r
    }
}

impl vstd::std_specs::ops::ShlSpecImpl<u64> for u56 {
    open spec fn obeys_shl_spec() -> bool {
        true
    }

    open spec fn shl_req(self, rhs: u64) -> bool {
        rhs < 56
    }

    open spec fn shl_spec(self, rhs: u64) -> u56 {
        u56::of((self.value() * pow2(rhs as nat)) as int)
    }
}

impl core::ops::Shr<u64> for u56 {
    type Output = u56;

    fn shr(self, rhs: u64) -> u56 {
        let r = u56::shr(self, rhs as u32);
        proof {
            self.lemma_valid();
            vstd::arithmetic::power2::lemma_pow2_pos(rhs as nat);
            vstd::arithmetic::div_mod::lemma_div_is_ordered_by_denominator(self.value() as int, 1, pow2(rhs as nat) as int);
            vstd::arithmetic::div_mod::lemma_small_mod(r.value(), pow2(56));
            u56::lemma_of(r, (self.value() / pow2(rhs as nat)) as int);
        }
        r
    }
}

impl vstd::std_specs::ops::ShrSpecImpl<u64> for u56 {
    open spec fn obeys_shr_spec() -> bool {
        true
    }

    open spec fn shr_req(self, rhs: u64) -> bool {
        rhs < 56
    }

    open spec fn shr_spec(self, rhs: u64) -> u56 {
        u56::of((self.value() / pow2(rhs as nat)) as int)
    }
}

impl core::ops::ShlAssign<u64> for u56 {
    /// A shift by 56 places or more gives zero, as in bit-vector arithmetic.
    fn shl_assign(&mut self, rhs: u64)
        ensures
            final(self).value() == if rhs >= 56 { 0 } else { wrap((old(self).value() * pow2(rhs as nat)) as int, 56) },
    {
        *self = if rhs >= 56 {
            u56::min_value()
        } else {
            self.shl(rhs as u32)
        };
    }
}

impl core::ops::ShrAssign<u64> for u56 {
    /// A shift by 56 places or more gives zero, as in bit-vector arithmetic.
    fn shr_assign(&mut self, rhs: u64)
        ensures
            final(self).value() == if rhs >= 56 { 0 } else { old(self).value() / pow2(rhs as nat) },
    {
        *self = if rhs >= 56 {
            u56::min_value()
        } else {
            self.shr(rhs as u32)
        };
    }
}

impl core::ops::Shl<u128> for u56 {
    type Output = u56;

    fn shl(self, rhs: u128) -> u56 {
        let r = u56::shl(self, rhs as u32);
        proof {
            u56::lemma_of(r, (self.value() * pow2(rhs as nat)) as int);
        }
        r
    }
}

impl vstd::std_specs::ops::ShlSpecImpl<u128> for u56 {
    open spec fn obeys_shl_spec() -> bool {
        true
    }

    open spec fn shl_req(self, rhs: u128) -> bool {
        rhs < 56
    }

    open spec fn shl_spec(self, rhs: u128) -> u56 {
        u56::of((self.value() * pow2(rhs as nat)) as int)
    }
}

impl core::ops::Shr<u128> for u56 {
    type Output = u56;

    fn shr(self, rhs: u128) -> u56 {
        let r = u56::shr(self, rhs as u32);
        proof {
            self.lemma_valid();
            vstd::arithmetic::power2::lemma_pow2_pos(rhs as nat);
            vstd::arithmetic::div_mod::lemma_div_is_ordered_by_denominator(self.value() as int, 1, pow2(rhs as nat) as int);
            vstd::arithmetic::div_mod::lemma_small_mod(r.value(), pow2(56));
            u56::lemma_of(r, (self.value() / pow2(rhs as nat)) as int);
        }
        r
    }
}

impl vstd::std_specs::ops::ShrSpecImpl<u128> for u56 {
    open spec fn obeys_shr_spec() -> bool {
        true
    }

    open spec fn shr_req(self, rhs: u128) -> bool {
        rhs < 56
    }

    open spec fn shr_spec(self, rhs: u128) -> u56 {
        u56::of((self.value() / pow2(rhs as nat)) as int)
    }
}

impl core::ops::ShlAssign<u128> for u56 {
    /// A shift by 56 places or more gives zero, as in bit-vector arithmetic.
    fn shl_assign(&mut self, rhs: u128)
        ensures
            final(self).value() == if rhs >= 56 { 0 } else { wrap((old(self).value() * pow2(rhs as nat)) as int, 56) },
    {
        *self = if rhs >= 56 {
            u56::min_value()
        } else {
            self.shl(rhs as u32)
        };
    }
}

impl core::ops::ShrAssign<u128> for u56 {
    /// A shift by 56 places or more gives zero, as in bit-vector arithmetic.
    fn shr_assign(&mut self, rhs: u128)
        ensures
            final(self).value() == if rhs >= 56 { 0 } else { old(self).value() / pow2(rhs as nat) },
    {
        *self = if rhs >= 56 {
            u56::min_value()
        } else {
            self.shr(rhs as u32)
        };
    }
}

impl core::ops::Shl<usize> for u56 {
    type Output = u56;

    fn shl(self, rhs: usize) -> u56 {
        let r = u56::shl(self, rhs as u32);
        proof {
            u56::lemma_of(r, (self.value() * pow2(rhs as nat)) as int);
        }
        r
    }
}

impl vstd::std_specs::ops::ShlSpecImpl<usize> for u56 {
    open spec fn obeys_shl_spec() -> bool {
        true
    }

    open spec fn shl_req(self, rhs: usize) -> bool {
        rhs < 56
    }

    open spec fn shl_spec(self, rhs: usize) -> u56 {
        u56::of((self.value() * pow2(rhs as nat)) as int)
    }
}

impl core::ops::Shr<usize> for u56 {
    type Output = u56;

    fn shr(self, rhs: usize) -> u56 {
        let r = u56::shr(self, rhs as u32);
        proof {
            self.lemma_valid();
            vstd::arithmetic::power2::lemma_pow2_pos(rhs as nat);
            vstd::arithmetic::div_mod::lemma_div_is_ordered_by_denominator(self.value() as int, 1, pow2(rhs as nat) as int);
            vstd::arithmetic::div_mod::lemma_small_mod(r.value(), pow2(56));
            u56::lemma_of(r, (self.value() / pow2(rhs as nat)) as int);
        }
        r
    }
}

impl vstd::std_specs::ops::ShrSpecImpl<usize> for u56 {
    open spec fn obeys_shr_spec() -> bool {
        true
    }

    open spec fn shr_req(self, rhs: usize) -> bool {
        rhs < 56
    }

    open spec fn shr_spec(self, rhs: usize) -> u56 {
        u56::of((self.value() / pow2(rhs as nat)) as int)
    }
}

impl core::ops::ShlAssign<usize> for u56 {
    /// A shift by 56 places or more gives zero, as in bit-vector arithmetic.
    fn shl_assign(&mut self, rhs: usize)
        ensures
            final(self).value() == if rhs >= 56 { 0 } else { wrap((old(self).value() * pow2(rhs as nat)) as int, 56) },
    {
        *self = if rhs >= 56 {
            u56::min_value()
        } else {
            self.shl(rhs as u32)
        };
    }
}

impl core::ops::ShrAssign<usize> for u56 {
    /// A shift by 56 places or more gives zero, as in bit-vector arithmetic.
    fn shr_assign(&mut self, rhs: usize)
        ensures
            final(self).value() == if rhs >= 56 { 0 } else { old(self).value() / pow2(rhs as nat) },
    {
        *self = if rhs >= 56 {
            u56::min_value()
        } else {
            self.shr(rhs as u32)
        };
    }
}

impl core::ops::Shl<i8> for u56 {
    type Output = u56;

    fn shl(self, rhs: i8) -> u56 {
        let r = u56::shl(self, rhs as u32);
        proof {
            u56::lemma_of(r, (self.value() * pow2(rhs as nat)) as int);
        }
        r
    }
}

impl vstd::std_specs::ops::ShlSpecImpl<i8> for u56 {
    open spec fn obeys_shl_spec() -> bool {
        true
    }

    open spec fn shl_req(self, rhs: i8) -> bool {
        0 <= rhs < 56
    }

    open spec fn shl_spec(self, rhs: i8) -> u56 {
        u56::of((self.value() * pow2(rhs as nat)) as int)
    }
}

impl core::ops::Shr<i8> for u56 {
    type Output = u56;

    fn shr(self, rhs: i8) -> u56 {
        let r = u56::shr(self, rhs as u32);
        proof {
            self.lemma_valid();
            vstd::arithmetic::power2::lemma_pow2_pos(rhs as nat);
            vstd::arithmetic::div_mod::lemma_div_is_ordered_by_denominator(self.value() as int, 1, pow2(rhs as nat) as int);
            vstd::arithmetic::div_mod::lemma_small_mod(r.value(), pow2(56));
            u56::lemma_of(r, (self.value() / pow2(rhs as nat)) as int);
        }
        r
    }
}

impl vstd::std_specs::ops::ShrSpecImpl<i8> for u56 {
    open spec fn obeys_shr_spec() -> bool {
        true
    }

    open spec fn shr_req(self, rhs: i8) -> bool {
        0 <= rhs < 56
    }

    open spec fn shr_spec(self, rhs: i8) -> u56 {
        u56::of((self.value() / pow2(rhs as nat)) as int)
    }
}

impl core::ops::ShlAssign<i8> for u56 {
    /// A shift by 56 places or more gives zero, as in bit-vector arithmetic.
    fn shl_assign(&mut self, rhs: i8)
        ensures
            final(self).value() == if rhs < 0 || rhs >= 56 { 0 } else { wrap((old(self).value() * pow2(rhs as nat)) as int, 56) },
    {
        *self = if rhs < 0 || rhs >= 56 {
            u56::min_value()
        } else {
            self.shl(rhs as u32)
        };
    }
}

impl core::ops::ShrAssign<i8> for u56 {
    /// A shift by 56 places or more gives zero, as in bit-vector arithmetic.
    fn shr_assign(&mut self, rhs: i8)
        ensures
            final(self).value() == if rhs < 0 || rhs >= 56 { 0 } else { old(self).value() / pow2(rhs as nat) },
    {
        *self = if rhs < 0 || rhs >= 56 {
            u56::min_value()
        } else {
            self.shr(rhs as u32)
        };
    }
}

impl core::ops::Shl<i16> for u56 {
    type Output = u56;

    fn shl(self, rhs: i16) -> u56 {
        let r = u56::shl(self, rhs as u32);
        proof {
            u56::lemma_of(r, (self.value() * pow2(rhs as nat)) as int);
        }
        r
    }
}

impl vstd::std_specs::ops::ShlSpecImpl<i16> for u56 {
    open spec fn obeys_shl_spec() -> bool {
        true
    }

    open spec fn shl_req(self, rhs: i16) -> bool {
        0 <= rhs < 56
    }

    open spec fn shl_spec(self, rhs: i16) -> u56 {
        u56::of((self.value() * pow2(rhs as nat)) as int)
    }
}

impl core::ops::Shr<i16> for u56 {
    type Output = u56;

    fn shr(self, rhs: i16) -> u56 {
        let r = u56::shr(self, rhs as u32);
        proof {
            self.lemma_valid();
            vstd::arithmetic::power2::lemma_pow2_pos(rhs as nat);
            vstd::arithmetic::div_mod::lemma_div_is_ordered_by_denominator(self.value() as int, 1, pow2(rhs as nat) as int);
            vstd::arithmetic::div_mod::lemma_small_mod(r.value(), pow2(56));
            u56::lemma_of(r, (self.value() / pow2(rhs as nat)) as int);
        }
        r
    }
}

impl vstd::std_specs::ops::ShrSpecImpl<i16> for u56 {
    open spec fn obeys_shr_spec() -> bool {
        true
    }

    open spec fn shr_req(self, rhs: i16) -> bool {
        0 <= rhs < 56
    }

    open spec fn shr_spec(self, rhs: i16) -> u56 {
        u56::of((self.value() / pow2(rhs as nat)) as int)
    }
}

impl core::ops::ShlAssign<i16> for u56 {
    /// A shift by 56 places or more gives zero, as in bit-vector arithmetic.
    fn shl_assign(&mut self, rhs: i16)
        ensures
            final(self).value() == if rhs < 0 || rhs >= 56 { 0 } else { wrap((old(self).value() * pow2(rhs as nat)) as int, 56) },
    {
        *self = if rhs < 0 || rhs >= 56 {
            u56::min_value()
        } else {
            self.shl(rhs as u32)
        };
    }
}

impl core::ops::ShrAssign<i16> for u56 {
    /// A shift by 56 places or more gives zero, as in bit-vector arithmetic.
    fn shr_assign(&mut self, rhs: i16)
        ensures
            final(self).value() == if rhs < 0 || rhs >= 56 { 0 } else { old(self).value() / pow2(rhs as nat) },
    {
        *self = if rhs < 0 || rhs >= 56 {
            u56::min_value()
        } else {
            self.shr(rhs as u32)
        };
    }
}

impl core::ops::Shl<i32> for u56 {
    type Output = u56;

    fn shl(self, rhs: i32) -> u56 {
        let r = u56::shl(self, rhs as u32);
        proof {
            u56::lemma_of(r, (self.value() * pow2(rhs as nat)) as int);
        }
        r
    }
}

impl vstd::std_specs::ops::ShlSpecImpl<i32> for u56 {
    open spec fn obeys_shl_spec() -> bool {
        true
    }

    open spec fn shl_req(self, rhs: i32) -> bool {
        0 <= rhs < 56
    }

    open spec fn shl_spec(self, rhs: i32) -> u56 {
        u56::of((self.value() * pow2(rhs as nat)) as int)
    }
}

impl core::ops::Shr<i32> for u56 {
    type Output = u56;

    fn shr(self, rhs: i32) -> u56 {
        let r = u56::shr(self, rhs as u32);
        proof {
            self.lemma_valid();
            vstd::arithmetic::power2::lemma_pow2_pos(rhs as nat);
            vstd::arithmetic::div_mod::lemma_div_is_ordered_by_denominator(self.value() as int, 1, pow2(rhs as nat) as int);
            vstd::arithmetic::div_mod::lemma_small_mod(r.value(), pow2(56));
            u56::lemma_of(r, (self.value() / pow2(rhs as nat)) as int);
        }
        r
    }
}

impl vstd::std_specs::ops::ShrSpecImpl<i32> for u56 {
    open spec fn obeys_shr_spec() -> bool {
        true
    }

    open spec fn shr_req(self, rhs: i32) -> bool {
        0 <= rhs < 56
    }

    open spec fn shr_spec(self, rhs: i32) -> u56 {
        u56::of((self.value() / pow2(rhs as nat)) as int)
    }
}

impl core::ops::ShlAssign<i32> for u56 {
    /// A shift by 56 places or more gives zero, as in bit-vector arithmetic.
    fn shl_assign(&mut self, rhs: i32)
        ensures
            final(self).value() == if rhs < 0 || rhs >= 56 { 0 } else { wrap((old(self).value() * pow2(rhs as nat)) as int, 56) },
    {
        *self = if rhs < 0 || rhs >= 56 {
            u56::min_value()
        } else {
            self.shl(rhs as u32)
        };
    }
}

impl core::ops::ShrAssign<i32> for u56 {
    /// A shift by 56 places or more gives zero, as in bit-vector arithmetic.
    fn shr_assign(&mut self, rhs: i32)
        ensures
            final(self).value() == if rhs < 0 || rhs >= 56 { 0 } else { old(self).value() / pow2(rhs as nat) },
    {
        *self = if rhs < 0 || rhs >= 56 {
            u56::min_value()
        } else {
            self.shr(rhs as u32)
        };
    }
}

impl core::ops::Shl<i64> for u56 {
    type Output = u56;

    fn shl(self, rhs: i64) -> u56 {
        let r = u56::shl(self, rhs as u32);
        proof {
            u56::lemma_of(r, (self.value() * pow2(rhs as nat)) as int);
        }
        r
    }
}

impl vstd::std_specs::ops::ShlSpecImpl<i64> for u56 {
    open spec fn obeys_shl_spec() -> bool {
        true
    }

    open spec fn shl_req(self, rhs: i64) -> bool {
        0 <= rhs < 56
    }

    open spec fn shl_spec(self, rhs: i64) -> u56 {
        u56::of((self.value() * pow2(rhs as nat)) as int)
    }
}

impl core::ops::Shr<i64> for u56 {
    type Output = u56;

    fn shr(self, rhs: i64) -> u56 {
        let r = u56::shr(self, rhs as u32);
        proof {
            self.lemma_valid();
            vstd::arithmetic::power2::lemma_pow2_pos(rhs as nat);
            vstd::arithmetic::div_mod::lemma_div_is_ordered_by_denominator(self.value() as int, 1, pow2(rhs as nat) as int);
            vstd::arithmetic::div_mod::lemma_small_mod(r.value(), pow2(56));
            u56::lemma_of(r, (self.value() / pow2(rhs as nat)) as int);
        }
        r
    }
}

impl vstd::std_specs::ops::ShrSpecImpl<i64> for u56 {
    open spec fn obeys_shr_spec() -> bool {
        true
    }

    open spec fn shr_req(self, rhs: i64) -> bool {
        0 <= rhs < 56
    }

    open spec fn shr_spec(self, rhs: i64) -> u56 {
        u56::of((self.value() / pow2(rhs as nat)) as int)
    }
}

impl core::ops::ShlAssign<i64> for u56 {
    /// A shift by 56 places or more gives zero, as in bit-vector arithmetic.
    fn shl_assign(&mut self, rhs: i64)
        ensures
            final(self).value() == if rhs < 0 || rhs >= 56 { 0 } else { wrap((old(self).value() * pow2(rhs as nat)) as int, 56) },
    {
        *self = if rhs < 0 || rhs >= 56 {
            u56::min_value()
        } else {
            self.shl(rhs as u32)
        };
    }
}

impl core::ops::ShrAssign<i64> for u56 {
    /// A shift by 56 places or more gives zero, as in bit-vector arithmetic.
    fn shr_assign(&mut self, rhs: i64)
        ensures
            final(self).value() == if rhs < 0 || rhs >= 56 { 0 } else { old(self).value() / pow2(rhs as nat) },
    {
        *self = if rhs < 0 || rhs >= 56 {
            u56::min_value()
        } else {
            self.shr(rhs as u32)
        };
    }
}

impl core::ops::Shl<i128> for u56 {
    type Output = u56;

    fn shl(self, rhs: i128) -> u56 {
        let r = u56::shl(self, rhs as u32);
        proof {
            u56::lemma_of(r, (self.value() * pow2(rhs as nat)) as int);
        }
        r
    }
}

impl vstd::std_specs::ops::ShlSpecImpl<i128> for u56 {
    open spec fn obeys_shl_spec() -> bool {
        true
    }

    open spec fn shl_req(self, rhs: i128) -> bool {
        0 <= rhs < 56
    }

    open spec fn shl_spec(self, rhs: i128) -> u56 {
        u56::of((self.value() * pow2(rhs as nat)) as int)
    }
}

impl core::ops::Shr<i128> for u56 {
    type Output = u56;

    fn shr(self, rhs: i128) -> u56 {
        let r = u56::shr(self, rhs as u32);
        proof {
            self.lemma_valid();
            vstd::arithmetic::power2::lemma_pow2_pos(rhs as nat);
            vstd::arithmetic::div_mod::lemma_div_is_ordered_by_denominator(self.value() as int, 1, pow2(rhs as nat) as int);
            vstd::arithmetic::div_mod::lemma_small_mod(r.value(), pow2(56));
            u56::lemma_of(r, (self.value() / pow2(rhs as nat)) as int);
        }
        r
    }
}

impl vstd::std_specs::ops::ShrSpecImpl<i128> for u56 {
    open spec fn obeys_shr_spec() -> bool {
        true
    }

    open spec fn shr_req(self, rhs: i128) -> bool {
        0 <= rhs < 56
    }

    open spec fn shr_spec(self, rhs: i128) -> u56 {
        u56::of((self.value() / pow2(rhs as nat)) as int)
    }
}

impl core::ops::ShlAssign<i128> for u56 {
    /// A shift by 56 places or more gives zero, as in bit-vector arithmetic.
    fn shl_assign(&mut self, rhs: i128)
        ensures
            final(self).value() == if rhs < 0 || rhs >= 56 { 0 } else { wrap((old(self).value() * pow2(rhs as nat)) as int, 56) },
    {
        *self = if rhs < 0 || rhs >= 56 {
            u56::min_value()
        } else {
            self.shl(rhs as u32)
        };
    }
}

impl core::ops::ShrAssign<i128> for u56 {
    /// A shift by 56 places or more gives zero, as in bit-vector arithmetic.
    fn shr_assign(&mut self, rhs: i128)
        ensures
            final(self).value() == if rhs < 0 || rhs >= 56 { 0 } else { old(self).value() / pow2(rhs as nat) },
    {
        *self = if rhs < 0 || rhs >= 56 {
            u56::min_value()
        } else {
            self.shr(rhs as u32)
        };
    }
}

impl core::ops::Shl<isize> for u56 {
    type Output = u56;

    fn shl(self, rhs: isize) -> u56 {
        let r = u56::shl(self, rhs as u32);
        proof {
            u56::lemma_of(r, (self.value() * pow2(rhs as nat)) as int);
        }
        r
    }
}

impl vstd::std_specs::ops::ShlSpecImpl<isize> for u56 {
    open spec fn obeys_shl_spec() -> bool {
        true
    }

    open spec fn shl_req(self, rhs: isize) -> bool {
        0 <= rhs < 56
    }

    open spec fn shl_spec(self, rhs: isize) -> u56 {
        u56::of((self.value() * pow2(rhs as nat)) as int)
    }
}

impl core::ops::Shr<isize> for u56 {
    type Output = u56;

    fn shr(self, rhs: isize) -> u56 {
        let r = u56::shr(self, rhs as u32);
        proof {
            self.lemma_valid();
            vstd::arithmetic::power2::lemma_pow2_pos(rhs as nat);
            vstd::arithmetic::div_mod::lemma_div_is_ordered_by_denominator(self.value() as int, 1, pow2(rhs as nat) as int);
            vstd::arithmetic::div_mod::lemma_small_mod(r.value(), pow2(56));
            u56::lemma_of(r, (self.value() / pow2(rhs as nat)) as int);
        }
        r
    }
}

impl vstd::std_specs::ops::ShrSpecImpl<isize> for u56 {
    open spec fn obeys_shr_spec() -> bool {
        true
    }

    open spec fn shr_req(self, rhs: isize) -> bool {
        0 <= rhs < 56
    }

    open spec fn shr_spec(self, rhs: isize) -> u56 {
        u56::of((self.value() / pow2(rhs as nat)) as int)
    }
}

impl core::ops::ShlAssign<isize> for u56 {
    /// A shift by 56 places or more gives zero, as in bit-vector arithmetic.
    fn shl_assign(&mut self, rhs: isize)
        ensures
            final(self).value() == if rhs < 0 || rhs >= 56 { 0 } else { wrap((old(self).value() * pow2(rhs as nat)) as int, 56) },
    {
        *self = if rhs < 0 || rhs >= 56 {
            u56::min_value()
        } else {
            self.shl(rhs as u32)
        };
    }
}

impl core::ops::ShrAssign<isize> for u56 {
    /// A shift by 56 places or more gives zero, as in bit-vector arithmetic.
    fn shr_assign(&mut self, rhs: isize)
        ensures
            final(self).value() == if rhs < 0 || rhs >= 56 { 0 } else { old(self).value() / pow2(rhs as nat) },
    {
        *self = if rhs < 0 || rhs >= 56 {
            u56::min_value()
        } else {
            self.shr(rhs as u32)
        };
    }
}

impl From<u8> for u56 {
    fn from(n: u8) -> u56 {
        proof {
            lemma_widths();
        }
        let r = u56::of_wide(truncate(n as u128, 56));
        proof {
            u56::lemma_of(r, n as int);
        }
        r
    }
}

impl vstd::std_specs::convert::FromSpecImpl<u8> for u56 {
    open spec fn obeys_from_spec() -> bool {
        true
    }

    open spec fn from_spec(n: u8) -> u56 {
        u56::of(n as int)
    }
}

impl From<u16> for u56 {
    fn from(n: u16) -> u56 {
        proof {
            lemma_widths();
        }
        let r = u56::of_wide(truncate(n as u128, 56));
        proof {
            u56::lemma_of(r, n as int);
        }
        r
    }
}

impl vstd::std_specs::convert::FromSpecImpl<u16> for u56 {
    open spec fn obeys_from_spec() -> bool {
        true
    }

    open spec fn from_spec(n: u16) -> u56 {
        u56::of(n as int)
    }
}

impl From<u32> for u56 {
    fn from(n: u32) -> u56 {
        proof {
            lemma_widths();
        }
        let r = u56::of_wide(truncate(n as u128, 56));
        proof {
            u56::lemma_of(r, n as int);
        }
        r
    }
}

impl vstd::std_specs::convert::FromSpecImpl<u32> for u56 {
    open spec fn obeys_from_spec() -> bool {
        true
    }

    open spec fn from_spec(n: u32) -> u56 {
        u56::of(n as int)
    }
}

impl From<u64> for u56 {
    fn from(n: u64) -> u56 {
        proof {
            lemma_widths();
        }
        let r = u56::of_wide(truncate(n as u128, 56));
        proof {
            u56::lemma_of(r, n as int);
        }
        r
    }
}

impl vstd::std_specs::convert::FromSpecImpl<u64> for u56 {
    open spec fn obeys_from_spec() -> bool {
        true
    }

    open spec fn from_spec(n: u64) -> u56 {
        u56::of(n as int)
    }
}

impl From<u128> for u56 {
    fn from(n: u128) -> u56 {
        proof {
            lemma_widths();
        }
        let r = u56::of_wide(truncate(n as u128, 56));
        proof {
            u56::lemma_of(r, n as int);
        }
        r
    }
}

impl vstd::std_specs::convert::FromSpecImpl<u128> for u56 {
    open spec fn obeys_from_spec() -> bool {
        true
    }

    open spec fn from_spec(n: u128) -> u56 {
        u56::of(n as int)
    }
}

impl From<i8> for u56 {
    /// The two's complement bits of `n`, cut to 56.
    fn from(n: i8) -> u56 {
        let r = u56::of_wide(wrap_signed(n as i128, 56));
        proof {
            u56::lemma_of(r, n as int);
        }
        r
    }
}

impl vstd::std_specs::convert::FromSpecImpl<i8> for u56 {
    open spec fn obeys_from_spec() -> bool {
        true
    }

    open spec fn from_spec(n: i8) -> u56 {
        u56::of(n as int)
    }
}

impl From<i16> for u56 {
    /// The two's complement bits of `n`, cut to 56.
    fn from(n: i16) -> u56 {
        let r = u56::of_wide(wrap_signed(n as i128, 56));
        proof {
            u56::lemma_of(r, n as int);
        }
        r
    }
}

impl vstd::std_specs::convert::FromSpecImpl<i16> for u56 {
    open spec fn obeys_from_spec() -> bool {
        true
    }

    open spec fn from_spec(n: i16) -> u56 {
        u56::of(n as int)
    }
}

impl From<i32> for u56 {
    /// The two's complement bits of `n`, cut to 56.
    fn from(n: i32) -> u56 {
        let r = u56::of_wide(wrap_signed(n as i128, 56));
        proof {
            u56::lemma_of(r, n as int);
        }
        r
    }
}

impl vstd::std_specs::convert::FromSpecImpl<i32> for u56 {
    open spec fn obeys_from_spec() -> bool {
        true
    }

    open spec fn from_spec(n: i32) -> u56 {
        u56::of(n as int)
    }
}

impl From<i64> for u56 {
    /// The two's complement bits of `n`, cut to 56.
    fn from(n: i64) -> u56 {
        let r = u56::of_wide(wrap_signed(n as i128, 56));
        proof {
            u56::lemma_of(r, n as int);
        }
        r
    }
}

impl vstd::std_specs::convert::FromSpecImpl<i64> for u56 {
    open spec fn obeys_from_spec() -> bool {
        true
    }

    open spec fn from_spec(n: i64) -> u56 {
        u56::of(n as int)
    }
}

impl From<i128> for u56 {
    /// The two's complement bits of `n`, cut to 56.
    fn from(n: i128) -> u56 {
        let r = u56::of_wide(wrap_signed(n as i128, 56));
        proof {
            u56::lemma_of(r, n as int);
        }
        r
    }
}

impl vstd::std_specs::convert::FromSpecImpl<i128> for u56 {
    open spec fn obeys_from_spec() -> bool {
        true
    }

    open spec fn from_spec(n: i128) -> u56 {
        u56::of(n as int)
    }
}

impl From<u56> for u8 {
    /// The low 8 bits of the value.
    fn from(v: u56) -> u8 {
        proof {
            lemma_widths();
        }
        truncate(v.wide(), 8) as u8
    }
}

impl vstd::std_specs::convert::FromSpecImpl<u56> for u8 {
    open spec fn obeys_from_spec() -> bool {
        true
    }

    open spec fn from_spec(v: u56) -> u8 {
        (v.value() % pow2(8)) as u8
    }
}

impl From<u56> for u16 {
    /// The low 16 bits of the value.
    fn from(v: u56) -> u16 {
        proof {
            lemma_widths();
        }
        truncate(v.wide(), 16) as u16
    }
}

impl vstd::std_specs::convert::FromSpecImpl<u56> for u16 {
    open spec fn obeys_from_spec() -> bool {
        true
    }

    open spec fn from_spec(v: u56) -> u16 {
        (v.value() % pow2(16)) as u16
    }
}

impl From<u56> for u32 {
    /// The low 32 bits of the value.
    fn from(v: u56) -> u32 {
        proof {
            lemma_widths();
        }
        truncate(v.wide(), 32) as u32
    }
}

impl vstd::std_specs::convert::FromSpecImpl<u56> for u32 {
    open spec fn obeys_from_spec() -> bool {
        true
    }

    open spec fn from_spec(v: u56) -> u32 {
        (v.value() % pow2(32)) as u32
    }
}

impl From<u56> for u64 {
    /// The low 64 bits of the value.
    fn from(v: u56) -> u64 {
        proof {
            lemma_widths();
        }
        v.wide() as u64
    }
}

impl vstd::std_specs::convert::FromSpecImpl<u56> for u64 {
    open spec fn obeys_from_spec() -> bool {
        true
    }

    open spec fn from_spec(v: u56) -> u64 {
        v.value() as u64
    }
}

impl From<u56> for u128 {
    /// The low 128 bits of the value.
    fn from(v: u56) -> u128 {
        proof {
            lemma_widths();
        }
        v.wide() as u128
    }
}

impl vstd::std_specs::convert::FromSpecImpl<u56> for u128 {
    open spec fn obeys_from_spec() -> bool {
        true
    }

    open spec fn from_spec(v: u56) -> u128 {
        v.value() as u128
    }
}

impl From<u56> for i8 {
    /// The low 8 bits of the value, read as two's complement.
    fn from(v: u56) -> i8 {
        proof {
            lemma_widths();
            v.lemma_valid();
        }
        signed_bits(v.wide(), 8) as i8
    }
}

impl vstd::std_specs::convert::FromSpecImpl<u56> for i8 {
    open spec fn obeys_from_spec() -> bool {
        true
    }

    open spec fn from_spec(v: u56) -> i8 {
        signed_of(v.value() % pow2(8), 8) as i8
    }
}

impl From<u56> for i16 {
    /// The low 16 bits of the value, read as two's complement.
    fn from(v: u56) -> i16 {
        proof {
            lemma_widths();
            v.lemma_valid();
        }
        signed_bits(v.wide(), 16) as i16
    }
}

impl vstd::std_specs::convert::FromSpecImpl<u56> for i16 {
    open spec fn obeys_from_spec() -> bool {
        true
    }

    open spec fn from_spec(v: u56) -> i16 {
        signed_of(v.value() % pow2(16), 16) as i16
    }
}

impl From<u56> for i32 {
    /// The low 32 bits of the value, read as two's complement.
    fn from(v: u56) -> i32 {
        proof {
            lemma_widths();
            v.lemma_valid();
        }
        signed_bits(v.wide(), 32) as i32
    }
}

impl vstd::std_specs::convert::FromSpecImpl<u56> for i32 {
    open spec fn obeys_from_spec() -> bool {
        true
    }

    open spec fn from_spec(v: u56) -> i32 {
        signed_of(v.value() % pow2(32), 32) as i32
    }
}

impl From<u56> for i64 {
    /// The low 64 bits of the value, read as two's complement.
    fn from(v: u56) -> i64 {
        proof {
            lemma_widths();
            v.lemma_valid();
        }
        signed_bits(v.wide(), 64) as i64
    }
}

impl vstd::std_specs::convert::FromSpecImpl<u56> for i64 {
    open spec fn obeys_from_spec() -> bool {
        true
    }

    open spec fn from_spec(v: u56) -> i64 {
        signed_of(v.value() % pow2(64), 64) as i64
    }
}

impl From<u56> for i128 {
    /// The low 128 bits of the value, read as two's complement.
    fn from(v: u56) -> i128 {
        proof {
            lemma_widths();
            v.lemma_valid();
        }
        signed_bits(v.wide(), 128) as i128
    }
}

impl vstd::std_specs::convert::FromSpecImpl<u56> for i128 {
    open spec fn obeys_from_spec() -> bool {
        true
    }

    open spec fn from_spec(v: u56) -> i128 {
        signed_of(v.value() % pow2(128), 128) as i128
    }
}

impl From<u24> for u56 {
    /// The same value, widened.
    fn from(v: u24) -> u56 {
        proof {
            lemma_widths();
            v.lemma_valid();
        }
        let r = u56::of_wide(v.wide());
        proof {
            vstd::arithmetic::div_mod::lemma_small_mod(v.value(), pow2(56));
            u56::lemma_of(r, v.value() as int);
        }
        r
    }
}

impl vstd::std_specs::convert::FromSpecImpl<u24> for u56 {
    open spec fn obeys_from_spec() -> bool {
        true
    }

    open spec fn from_spec(v: u24) -> u56 {
        u56::of(v.value() as int)
    }
}

impl From<u40> for u56 {
    /// The same value, widened.
    fn from(v: u40) -> u56 {
        proof {
            lemma_widths();
            v.lemma_valid();
        }
        let r = u56::of_wide(v.wide());
        proof {
            vstd::arithmetic::div_mod::lemma_small_mod(v.value(), pow2(56));
            u56::lemma_of(r, v.value() as int);
        }
        r
    }
}

impl vstd::std_specs::convert::FromSpecImpl<u40> for u56 {
    open spec fn obeys_from_spec() -> bool {
        true
    }

    open spec fn from_spec(v: u40) -> u56 {
        u56::of(v.value() as int)
    }
}

impl From<u48> for u56 {
    /// The same value, widened.
    fn from(v: u48) -> u56 {
        proof {
            lemma_widths();
            v.lemma_valid();
        }
        let r = u56::of_wide(v.wide());
        proof {
            vstd::arithmetic::div_mod::lemma_small_mod(v.value(), pow2(56));
            u56::lemma_of(r, v.value() as int);
        }
        r
    }
}

impl vstd::std_specs::convert::FromSpecImpl<u48> for u56 {
    open spec fn obeys_from_spec() -> bool {
        true
    }

    open spec fn from_spec(v: u48) -> u56 {
        u56::of(v.value() as int)
    }
}

impl From<u72> for u56 {
    /// The low 56 bits of the 72-bit value.
    fn from(v: u72) -> u56 {
        proof {
            lemma_widths();
            v.lemma_valid();
        }
        let r = u56::of_wide(truncate(v.wide(), 56));
        proof {
            u56::lemma_of(r, v.value() as int);
        }
        r
    }
}

impl vstd::std_specs::convert::FromSpecImpl<u72> for u56 {
    open spec fn obeys_from_spec() -> bool {
        true
    }

    open spec fn from_spec(v: u72) -> u56 {
        u56::of(v.value() as int)
    }
}

impl From<u80> for u56 {
    /// The low 56 bits of the 80-bit value.
    fn from(v: u80) -> u56 {
        proof {
            lemma_widths();
            v.lemma_valid();
        }
        let r = u56::of_wide(truncate(v.wide(), 56));
        proof {
            u56::lemma_of(r, v.value() as int);
        }
        r
    }
}

impl vstd::std_specs::convert::FromSpecImpl<u80> for u56 {
    open spec fn obeys_from_spec() -> bool {
        true
    }

    open spec fn from_spec(v: u80) -> u56 {
        u56::of(v.value() as int)
    }
}

impl From<u88> for u56 {
    /// The low 56 bits of the 88-bit value.
    fn from(v: u88) -> u56 {
        proof {
            lemma_widths();
            v.lemma_valid();
        }
        let r = u56::of_wide(truncate(v.wide(), 56));
        proof {
            u56::lemma_of(r, v.value() as int);
        }
        r
    }
}

impl vstd::std_specs::convert::FromSpecImpl<u88> for u56 {
    open spec fn obeys_from_spec() -> bool {
        true
    }

    open spec fn from_spec(v: u88) -> u56 {
        u56::of(v.value() as int)
    }
}

impl From<u96> for u56 {
    /// The low 56 bits of the 96-bit value.
    fn from(v: u96) -> u56 {
        proof {
            lemma_widths();
            v.lemma_valid();
        }
        let r = u56::of_wide(truncate(v.wide(), 56));
        proof {
            u56::lemma_of(r, v.value() as int);
        }
        r
    }
}

impl vstd::std_specs::convert::FromSpecImpl<u96> for u56 {
    open spec fn obeys_from_spec() -> bool {
        true
    }

    open spec fn from_spec(v: u96) -> u56 {
        u56::of(v.value() as int)
    }
}

impl From<u104> for u56 {
    /// The low 56 bits of the 104-bit value.
    fn from(v: u104) -> u56 {
        proof {
            lemma_widths();
            v.lemma_valid();
        }
        let r = u56::of_wide(truncate(v.wide(), 56));
        proof {
            u56::lemma_of(r, v.value() as int);
        }
        r
    }
}

impl vstd::std_specs::convert::FromSpecImpl<u104> for u56 {
    open spec fn obeys_from_spec() -> bool {
        true
    }

    open spec fn from_spec(v: u104) -> u56 {
        u56::of(v.value() as int)
    }
}

impl From<u112> for u56 {
    /// The low 56 bits of the 112-bit value.
    fn from(v: u112) -> u56 {
        proof {
            lemma_widths();
            v.lemma_valid();
        }
        let r = u56::of_wide(truncate(v.wide(), 56));
        proof {
            u56::lemma_of(r, v.value() as int);
        }
        r
    }
}

impl vstd::std_specs::convert::FromSpecImpl<u112> for u56 {
    open spec fn obeys_from_spec() -> bool {
        true
    }

    open spec fn from_spec(v: u112) -> u56 {
        u56::of(v.value() as int)
    }
}

impl From<u120> for u56 {
    /// The low 56 bits of the 120-bit value.
    fn from(v: u120) -> u56 {
        proof {
            lemma_widths();
            v.lemma_valid();
        }
        let r = u56::of_wide(truncate(v.wide(), 56));
        proof {
            u56::lemma_of(r, v.value() as int);
        }
        r
    }
}

impl vstd::std_specs::convert::FromSpecImpl<u120> for u56 {
    open spec fn obeys_from_spec() -> bool {
        true
    }

    open spec fn from_spec(v: u120) -> u56 {
        u56::of(v.value() as int)
    }
}

impl From<[u8; 7]> for u56 {
    /// As `from_ne_bytes`: `b` holds the bytes in the host's byte order.
    fn from(b: [u8; 7]) -> (r: u56)
        ensures
            r.ordered_bytes(true) == b@ || r.ordered_bytes(false) == b@,
    {
        u56::from_ne_bytes(b)
    }
}

impl vstd::std_specs::convert::FromSpecImpl<[u8; 7]> for u56 {
    /// The result depends on the host's byte order, so no spec function
    /// gives it; `from` states both possible outcomes.
    open spec fn obeys_from_spec() -> bool {
        false
    }

    open spec fn from_spec(b: [u8; 7]) -> u56 {
        arbitrary()
    }
}

impl From<u56> for [u8; 7] {
    /// As `to_ne_bytes`: the bytes in the host's byte order.
    fn from(v: u56) -> (r: [u8; 7])
        ensures
            r@ == v.ordered_bytes(true) || r@ == v.ordered_bytes(false),
    {
        v.to_ne_bytes()
    }
}

impl vstd::std_specs::convert::FromSpecImpl<u56> for [u8; 7] {
    /// The result depends on the host's byte order, so no spec function
    /// gives it; `from` states both possible outcomes.
    open spec fn obeys_from_spec() -> bool {
        false
    }

    open spec fn from_spec(v: u56) -> [u8; 7] {
        arbitrary()
    }
}

impl From<[i8; 7]> for u56 {
    /// As `from_i8_array`: the bits of `b` in the host's byte order.
    fn from(b: [i8; 7]) -> (r: u56)
        ensures
            r.ordered_bytes(true) == b@.map_values(|x: i8| byte_of(x)) || r.ordered_bytes(false) == b@.map_values(|x: i8| byte_of(x)),
    {
        u56::from_i8_array(b)
    }
}

impl vstd::std_specs::convert::FromSpecImpl<[i8; 7]> for u56 {
    /// The result depends on the host's byte order, so no spec function
    /// gives it; `from` states both possible outcomes.
    open spec fn obeys_from_spec() -> bool {
        false
    }

    open spec fn from_spec(b: [i8; 7]) -> u56 {
        arbitrary()
    }
}

impl From<u56> for [i8; 7] {
    /// As `as_i8_array`: the bytes in the host's byte order, as `i8`.
    fn from(v: u56) -> (r: [i8; 7])
        ensures
            (forall|i: int| 0 <= i < 7 ==> #[trigger] r@[i] as int == signed_of(v.ordered_bytes(true)[i] as nat, 8)) || (forall|i: int| 0 <= i < 7 ==> #[trigger] r@[i] as int == signed_of(v.ordered_bytes(false)[i] as nat, 8)),
    {
        v.as_i8_array()
    }
}

impl vstd::std_specs::convert::FromSpecImpl<u56> for [i8; 7] {
    /// The result depends on the host's byte order, so no spec function
    /// gives it; `from` states both possible outcomes.
    open spec fn obeys_from_spec() -> bool {
        false
    }

    open spec fn from_spec(v: u56) -> [i8; 7] {
        arbitrary()
    }
}

} // verus!
