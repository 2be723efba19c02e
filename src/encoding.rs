//! Little-endian byte encoding of unsigned integers, and the byte-order
//! permutations built on it.
use vstd::arithmetic::div_mod::*;
use vstd::arithmetic::mul::*;
use vstd::arithmetic::power2::*;
use vstd::prelude::*;

verus! {

/// The integer whose little-endian encoding is `s`: `s[0]` is the least
/// significant byte.
pub open spec fn le_value(s: Seq<u8>) -> nat
    decreases s.len(),
{
    if s.len() == 0 {
        0
    } else {
        le_value(s.drop_last()) + pow2(8 * (s.len() - 1) as nat) * s.last() as nat
    }
}

/// The integer whose big-endian encoding is `s`.
pub open spec fn be_value(s: Seq<u8>) -> nat {
    le_value(s.reverse())
}

/// `s` with its elements in the opposite order.
pub open spec fn reversed_seq(s: Seq<u8>) -> Seq<u8> {
    Seq::new(s.len(), |i: int| s[s.len() - 1 - i])
}

pub proof fn lemma_pow2_step(i: nat)
    ensures
        pow2(8 * (i + 1)) == pow2(8 * i) * 256,
        pow2(8 * i) > 0,
{
    lemma_pow2_adds(8 * i, 8);
    lemma2_to64();
    lemma_pow2_pos(8 * i);
}

/// An encoding of `n` bytes holds a value below `2^(8n)`.
pub proof fn lemma_le_value_bound(s: Seq<u8>)
    ensures
        le_value(s) < pow2(8 * s.len()),
    decreases s.len(),
{
    if s.len() == 0 {
        lemma2_to64();
    } else {
        let k = (s.len() - 1) as nat;
        lemma_le_value_bound(s.drop_last());
        lemma_pow2_step(k);
        assert(s.last() as nat <= 255);
        lemma_mul_inequality(s.last() as int, 255, pow2(8 * k) as int);
        lemma_mul_is_commutative(s.last() as int, pow2(8 * k) as int);
    }
}

/// The low byte and the rest of an encoding.
pub proof fn lemma_le_value_first(s: Seq<u8>)
    requires
        s.len() > 0,
    ensures
        le_value(s) == s[0] as nat + 256 * le_value(s.drop_first()),
    decreases s.len(),
{
    let k = (s.len() - 1) as nat;
    if k == 0 {
        assert(s.drop_last().len() == 0);
        assert(s.drop_first().len() == 0);
        assert(le_value(s.drop_first()) == 0);
        assert(le_value(s.drop_last()) == 0);
        assert(pow2(0) == 1) by {
            lemma2_to64();
        }
        assert(s.last() == s[0]);
        assert(le_value(s) == pow2(0) * s[0] as nat);
    } else {
        let t = s.drop_first();
        let u = s.drop_last();
        let last = s.last() as int;
        let pk = pow2(8 * k) as int;
        let pk1 = pow2(8 * (k - 1) as nat) as int;
        lemma_le_value_first(u);
        assert(u.drop_first() =~= t.drop_last());
        lemma_pow2_step((k - 1) as nat);
        assert(t.last() == s.last());
        assert(u[0] == s[0]);
        let l = le_value(t.drop_last()) as int;
        assert(le_value(t) == l + pk1 * last);
        assert(le_value(s) == le_value(u) + pk * last);
        assert(le_value(u) == s[0] + 256 * l);
        assert(pk == pk1 * 256);
        lemma_mul_is_associative(256, pk1, last);
        lemma_mul_is_commutative(256, pk1);
        lemma_mul_is_distributive_add(256, l, pk1 * last);
    }
}

/// Two encodings of one length with one value are the same bytes.
pub proof fn lemma_le_value_injective(a: Seq<u8>, b: Seq<u8>)
    requires
        a.len() == b.len(),
        le_value(a) == le_value(b),
    ensures
        a == b,
    decreases a.len(),
{
    if a.len() == 0 {
        assert(a =~= b);
    } else {
        lemma_le_value_first(a);
        lemma_le_value_first(b);
        let ra = le_value(a.drop_first());
        let rb = le_value(b.drop_first());
        lemma_fundamental_div_mod_converse(le_value(a) as int, 256, ra as int, a[0] as int);
        lemma_fundamental_div_mod_converse(le_value(b) as int, 256, rb as int, b[0] as int);
        lemma_le_value_injective(a.drop_first(), b.drop_first());
        assert forall|i: int| 0 <= i < a.len() implies a[i] == b[i] by {
            if i > 0 {
                assert(a.drop_first()[i - 1] == b.drop_first()[i - 1]);
            }
        }
        assert(a =~= b);
    }
}

/// Reads the `len` bytes of `b` from `start` on as a little-endian integer.
pub fn load_le_range<const N: usize>(b: &[u8; N], start: usize, len: usize) -> (r: u128)
    requires
        len <= 15,
        start + len <= N,
    ensures
        r as nat == le_value(b@.subrange(start as int, start + len)),
        (r as nat) < pow2(8 * len as nat),
{
    let mut acc: u128 = 0;
    let mut scale: u128 = 1;
    let mut i: usize = 0;
    let ghost s = b@.subrange(start as int, start + len);
    proof {
        lemma2_to64();
        assert(s.subrange(0, 0) =~= Seq::<u8>::empty());
    }
    while i < len
        invariant
            len <= 15,
            start + len <= N,
            0 <= i <= len,
            s == b@.subrange(start as int, start + len),
            acc as nat == le_value(s.subrange(0, i as int)),
            i < len ==> scale as nat == pow2(8 * i as nat),
            b@.len() == N,
        decreases len - i,
    {
        proof {
            lemma_le_value_bound(s.subrange(0, i as int));
            lemma_pow2_step(i as nat);
            lemma_pow2_strictly_increases(8 * (i + 1) as nat, 128);
            lemma_pow2_128();
            lemma_mul_inequality(s[i as int] as int, 255, scale as int);
            lemma_mul_is_commutative(s[i as int] as int, scale as int);
            let s1 = s.subrange(0, i + 1);
            assert(s1.drop_last() =~= s.subrange(0, i as int));
            assert(s1.last() == s[i as int]);
        }
        acc = acc + scale * (b[start + i] as u128);
        if i + 1 < len {
            proof {
                lemma_pow2_strictly_increases(8 * (i + 1) as nat, 120);
                lemma_pow2_128();
            }
            scale = scale * 256;
        }
        i = i + 1;
    }
    proof {
        assert(s.subrange(0, len as int) =~= s);
        lemma_le_value_bound(s);
    }
    acc
}

/// Reads `b` as a little-endian integer.
pub fn load_le<const N: usize>(b: &[u8; N]) -> (r: u128)
    requires
        N <= 15,
    ensures
        r as nat == le_value(b@),
        (r as nat) < pow2(8 * N as nat),
{
    let r = load_le_range(b, 0, N);
    proof {
        assert(b@.subrange(0, N as int) =~= b@);
    }
    r
}

/// The `i`-th group of `width` bytes of `s`, read as a little-endian integer.
pub open spec fn lane(s: Seq<u8>, width: nat, i: nat) -> nat {
    le_value(s.subrange((i * width) as int, ((i + 1) * width) as int))
}

/// Splits `b` into groups of `width` bytes and reads each as a little-endian
/// integer: from the low group up where `low_first`, else from the high one
/// down.
pub fn lanes<const N: usize>(b: &[u8; N], width: usize, low_first: bool) -> (r: Vec<u128>)
    requires
        1 <= width <= 15,
        N <= 15,
        N % width == 0,
    ensures
        r@.len() == N / width,
        forall|i: int|
            0 <= i < r@.len() ==> {
                &&& #[trigger] r@[i] as nat == lane(
                    b@,
                    width as nat,
                    if low_first {
                        i as nat
                    } else {
                        (N / width - 1 - i) as nat
                    },
                )
                &&& (r@[i] as nat) < pow2(8 * width as nat)
            },
{
    let k: usize = N / width;
    let mut r: Vec<u128> = Vec::new();
    let mut i: usize = 0;
    proof {
        vstd::arithmetic::div_mod::lemma_fundamental_div_mod(N as int, width as int);
    }
    while i < k
        invariant
            1 <= width <= 15,
            N <= 15,
            N % width == 0,
            k == N / width,
            k * width == N,
            0 <= i <= k,
            r@.len() == i,
            forall|j: int|
                0 <= j < i ==> {
                    &&& #[trigger] r@[j] as nat == lane(
                        b@,
                        width as nat,
                        if low_first {
                            j as nat
                        } else {
                            (k - 1 - j) as nat
                        },
                    )
                    &&& (r@[j] as nat) < pow2(8 * width as nat)
                },
        decreases k - i,
    {
        let idx: usize = if low_first {
            i
        } else {
            k - 1 - i
        };
        proof {
            lemma_mul_inequality(idx as int + 1, k as int, width as int);
            lemma_mul_is_distributive_add_other_way(width as int, idx as int, 1);
        }
        let v = load_le_range(b, idx * width, width);
        proof {
            assert((idx + 1) * width == idx * width + width) by (nonlinear_arith);
        }
        r.push(v);
        i = i + 1;
    }
    r
}

/// Two byte sequences of `k` groups of `w` bytes with the same groups are the
/// same bytes.
pub proof fn lemma_lanes_determine(s1: Seq<u8>, s2: Seq<u8>, w: nat, k: nat)
    requires
        w >= 1,
        s1.len() == k * w,
        s2.len() == k * w,
        forall|j: nat| j < k ==> #[trigger] lane(s1, w, j) == lane(s2, w, j),
    ensures
        s1 == s2,
{
    assert forall|p: int| 0 <= p < s1.len() implies s1[p] == s2[p] by {
        let j = p / w as int;
        let o = p % w as int;
        lemma_fundamental_div_mod(p, w as int);
        lemma_mod_bound(p, w as int);
        lemma_div_pos_is_pos(p, w as int);
        lemma_mul_is_commutative(k as int, w as int);
        lemma_multiply_divide_lt(p, w as int, k as int);
        assert(lane(s1, w, j as nat) == lane(s2, w, j as nat));
        lemma_mul_is_distributive_add_other_way(w as int, j, 1);
        lemma_mul_is_commutative(w as int, j);
        lemma_mul_inequality(j + 1, k as int, w as int);
        let a = s1.subrange(j * w, (j + 1) * w);
        let b = s2.subrange(j * w, (j + 1) * w);
        assert((j as nat * w) as int == j * w);
        assert(((j as nat + 1) * w) as int == (j + 1) * w);
        lemma_le_value_injective(a, b);
        assert(a[o] == s1[p]);
        assert(b[o] == s2[p]);
    }
    assert(s1 =~= s2);
}


/// The `bits`-bit value `v` read as a two's complement number.
pub open spec fn signed_of(v: nat, bits: nat) -> int {
    if v < pow2((bits - 1) as nat) {
        v as int
    } else {
        v - pow2(bits)
    }
}

/// `b` reinterpreted as an `i8`.
pub fn byte_as_i8(b: u8) -> (r: i8)
    ensures
        r as int == signed_of(b as nat, 8),
{
    proof {
        lemma2_to64();
    }
    if b < 128 {
        b as i8
    } else {
        (b as i16 - 256) as i8
    }
}

/// Each byte of `b` reinterpreted as an `i8`.
pub fn bytes_as_i8<const N: usize>(b: &[u8; N]) -> (r: [i8; N])
    ensures
        forall|i: int| 0 <= i < N ==> #[trigger] r@[i] as int == signed_of(b@[i] as nat, 8),
{
    let mut r: [i8; N] = [0i8; N];
    let mut i: usize = 0;
    while i < N
        invariant
            0 <= i <= N,
            r@.len() == N,
            b@.len() == N,
            forall|j: int| 0 <= j < i ==> #[trigger] r@[j] as int == signed_of(b@[j] as nat, 8),
        decreases N - i,
    {
        r[i] = byte_as_i8(b[i]);
        i = i + 1;
    }
    r
}

/// Each element of `a` reinterpreted as a `u8`.
pub fn i8_as_bytes<const N: usize>(a: &[i8; N]) -> (r: [u8; N])
    ensures
        forall|i: int| 0 <= i < N ==> a@[i] as int == signed_of(#[trigger] r@[i] as nat, 8),
        r@ == a@.map_values(|x: i8| byte_of(x)),
{
    let mut r: [u8; N] = [0u8; N];
    let mut i: usize = 0;
    while i < N
        invariant
            0 <= i <= N,
            r@.len() == N,
            a@.len() == N,
            forall|j: int| 0 <= j < i ==> a@[j] as int == signed_of(#[trigger] r@[j] as nat, 8),
            forall|j: int| 0 <= j < i ==> #[trigger] r@[j] == byte_of(a@[j]),
        decreases N - i,
    {
        r[i] = i8_as_byte(a[i]);
        i = i + 1;
    }
    proof {
        assert(r@ =~= a@.map_values(|x: i8| byte_of(x)));
    }
    r
}

/// The byte whose two's complement reading is `x`.
pub open spec fn byte_of(x: i8) -> u8 {
    if x >= 0 {
        x as u8
    } else {
        (x + 256) as u8
    }
}

/// `b` reinterpreted as a `u8`.
pub fn i8_as_byte(b: i8) -> (r: u8)
    ensures
        b as int == signed_of(r as nat, 8),
        r == byte_of(b),
{
    proof {
        lemma2_to64();
    }
    if b >= 0 {
        b as u8
    } else {
        (b as i16 + 256) as u8
    }
}

pub proof fn lemma_pow2_128()
    ensures
        pow2(120) < pow2(128),
        pow2(128) == 0x1_0000_0000_0000_0000_0000_0000_0000_0000,
{
    lemma2_to64();
    lemma2_to64_rest();
    lemma_pow2_adds(64, 64);
    lemma_pow2_strictly_increases(120, 128);
}

/// The `N` low bytes of `n`, least significant first.
pub fn store_le<const N: usize>(n: u128) -> (r: [u8; N])
    requires
        1 <= N <= 15,
    ensures
        le_value(r@) == n as nat % pow2(8 * N as nat),
{
    let mut r: [u8; N] = [0u8; N];
    let mut m: u128 = n;
    let mut i: usize = 0;
    proof {
        lemma2_to64();
        assert(r@.subrange(0, 0) =~= Seq::<u8>::empty());
        assert(le_value(r@.subrange(0, 0)) == 0);
        assert(pow2(0) * n as nat == n as nat);
    }
    while i < N
        invariant
            1 <= N <= 15,
            0 <= i <= N,
            r@.len() == N,
            le_value(r@.subrange(0, i as int)) + pow2(8 * i as nat) * m as nat == n as nat,
        decreases N - i,
    {
        let byte: u8 = (m % 256) as u8;
        let ghost old_r = r@;
        let ghost p = pow2(8 * i as nat);
        r[i] = byte;
        proof {
            let s1 = r@.subrange(0, i + 1);
            assert(s1.drop_last() =~= old_r.subrange(0, i as int));
            assert(s1.last() == byte);
            lemma_pow2_step(i as nat);
            lemma_fundamental_div_mod(m as int, 256);
            lemma_mul_is_distributive_add(p as int, 256 * (m / 256) as int, (m % 256) as int);
            lemma_mul_is_associative(p as int, 256, (m / 256) as int);
            lemma_mul_is_commutative(p as int, byte as int);
        }
        m = m / 256;
        i = i + 1;
    }
    proof {
        assert(r@.subrange(0, N as int) =~= r@);
        lemma_le_value_bound(r@);
        lemma_pow2_pos(8 * N as nat);
        lemma_mul_is_commutative(m as int, pow2(8 * N as nat) as int);
        lemma_fundamental_div_mod_converse(
            n as int,
            pow2(8 * N as nat) as int,
            m as int,
            le_value(r@) as int,
        );
    }
    r
}

/// `b` with its bytes in the opposite order.
pub fn reverse_bytes<const N: usize>(b: &[u8; N]) -> (r: [u8; N])
    ensures
        r@ == reversed_seq(b@),
{
    let mut r: [u8; N] = *b;
    let mut i: usize = 0;
    while i < N
        invariant
            0 <= i <= N,
            r@.len() == N,
            b@.len() == N,
            forall|j: int| 0 <= j < i ==> r@[j] == b@[N - 1 - j],
        decreases N - i,
    {
        r[i] = b[N - 1 - i];
        i = i + 1;
    }
    proof {
        assert(r@ =~= reversed_seq(b@));
    }
    r
}

/// Reversing twice gives back the bytes.
pub proof fn lemma_reversed_twice(s: Seq<u8>)
    ensures
        reversed_seq(reversed_seq(s)) == s,
{
    assert(reversed_seq(reversed_seq(s)) =~= s);
}

} // verus!
