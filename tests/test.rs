use std::mem::size_of;
use uintx::{u24, u40, u48, u56, u72, u80, u88, u96, u104, u112, u120};

const TEST_SET_SIZE: usize = 0xF;

/// A small deterministic source of test bytes (xorshift64*).
struct ByteSource {
    state: u64,
}

impl ByteSource {
    fn new(seed: u64) -> ByteSource {
        ByteSource { state: seed | 1 }
    }

    fn fill(&mut self, out: &mut [u8]) {
        for b in out.iter_mut() {
            self.state ^= self.state >> 12;
            self.state ^= self.state << 25;
            self.state ^= self.state >> 27;
            *b = (self.state.wrapping_mul(0x2545_F491_4F6C_DD1D) >> 56) as u8;
        }
    }
}

#[test]
fn test() {
    let mut num: u24 = u24::from(12u32);
    num += 1u32;
    num = num + 1u32;
    num += u24::from(4);
    num = num + u24::from(4);

    assert_eq!(num, 22)
}

struct U24T {
    random_numbers: Vec<u24>,
}

impl U24T {
    fn run() {
        let tdata = Self::make_test_data();
        for nr in &tdata.random_numbers {
            Self::rem(nr);
            Self::shift(nr);
            Self::and_or_xor(nr);
            Self::add_sub(nr);
            Self::mul_div(nr);
        }
    }

    fn make_test_data() -> U24T {
        let mut source = ByteSource::new(0x035EED);
        let mut dta = Vec::new();
        for _ in 0..TEST_SET_SIZE {
            let mut inner = [0u8; 3];
            source.fill(&mut inner);
            dta.push(u24::from_ne_bytes(inner));
        }
        dta.push(u24::max_value());
        dta.push(u24::min_value());

        return U24T {
            random_numbers: dta,
        };
    }

    fn add_sub(num: &u24) {
        let base = num.clone();
        let bnum = num.as_num();
        if bnum == 0 || bnum >= u24::MAX_VALUE - 32 {
            return;
        }

        let u = base + 1;
        let b = base + u24::from(1);
        assert_eq!(u, b);
        assert_ne!(base, b);
        assert_eq!(u24::from(bnum + 1), b);
        let x = base - 1;
        let y = base - u24::from(1);
        assert_eq!(x, y);
        assert_ne!(base, x);
        assert_eq!(u24::from(bnum - 1), x);
        assert_eq!(x + 2, u);
        assert_eq!(y + u24::from(2), b);
        let mut z = base;
        z += u24::from(16);
        assert_eq!(z, u24::from(bnum + 16));
        z += 16;
        assert_eq!(z, u24::from(bnum + 32));
        z -= 16;
        assert_eq!(z, u24::from(bnum + 16));
        z -= u24::from(16);
        assert_eq!(z, base);
    }

    fn mul_div(num: &u24) {
        let mut base = num.clone();
        base -= base % 3;
        if base >= u24::MAX_VALUE / 3 {
            return;
        }
        if base == 0 {
            return;
        }

        let u = base * 3;
        let b = base * u24::from(3);
        assert_eq!(u, b);
        assert_ne!(base, b);
        let x = base / 3;
        let y = base / u24::from(3);
        assert_eq!(x, y);
        assert_ne!(base, x);
        assert_eq!(x * 9, u, "{:?} - {:?} - {:?}", base, x, u);
        assert_eq!(y * u24::from(9), b);
        let mut z = base;
        z *= 3;
        assert_eq!(z, u);
        z /= 3;
        assert_eq!(z, base);
    }

    fn rem(num: &u24) {
        let base = num.clone();
        let bnum = num.as_num();

        let div_base = (u24::MAX_VALUE - u24::MAX_VALUE) + 41;

        for idx in 0..(size_of::<u24>() * 8) {
            let div = div_base << idx;
            if div >= u24::MAX_VALUE {
                return;
            }
            let mut z = base;
            let mut z2 = base;
            z %= div;
            z2 %= div;
            assert_eq!(base % div, bnum % div, "{} - {}", bnum, div);
            assert_eq!(
                base % u24::from(div),
                bnum % div,
                "{} - {}",
                bnum,
                div
            );
            assert_eq!(z, bnum % div, "{} - {}", bnum, div);
            assert_eq!(z2, bnum % div, "{} - {}", bnum, div);
        }
    }

    fn and_or_xor(num: &u24) {
        let base = num.clone();
        let bnum = num.as_num();
        let mask = 0b1010;

        for idx in 0..(size_of::<u24>() * 8) {
            let base_mask = mask << idx;
            if base_mask > u24::MAX_VALUE {
                return;
            }

            let mut z = base;
            let mut z2 = base;
            z &= base_mask;
            z2 &= u24::from(base_mask);
            assert_eq!(base & base_mask, bnum & base_mask, "{} - {}", bnum, base_mask);
            assert_eq!(base & u24::from(base_mask), bnum & base_mask, "{} - {}", bnum, base_mask);
            assert_eq!(z, bnum & base_mask, "{} - {}", bnum, base_mask);
            assert_eq!(z2, bnum & base_mask, "{} - {}", bnum, base_mask);

            let mut z = base;
            let mut z2 = base;
            z |= base_mask;
            z2 |= u24::from(base_mask);
            assert_eq!(base | base_mask, bnum | base_mask, "{} - {}", bnum, base_mask);
            assert_eq!(base | u24::from(base_mask), bnum | base_mask, "{} - {}", bnum, base_mask);
            assert_eq!(z, bnum | base_mask, "{} - {}", bnum, base_mask);
            assert_eq!(z2, bnum | base_mask, "{} - {}", bnum, base_mask);

            let mut z = base;
            let mut z2 = base;
            z ^= base_mask;
            z2 ^= u24::from(base_mask);
            assert_eq!(base ^ base_mask, bnum ^ base_mask, "{} - {}", bnum, base_mask);
            assert_eq!(base ^ u24::from(base_mask), bnum ^ base_mask, "{} - {}", bnum, base_mask);
            assert_eq!(z, bnum ^ base_mask, "{} - {}", bnum, base_mask);
            assert_eq!(z2, bnum ^ base_mask, "{} - {}", bnum, base_mask);
        }
    }

    fn shift(num: &u24) {
        let base = num.clone();
        let bnum = num.as_num();

        for idx in 0..(size_of::<u24>() * 8) {
            assert_eq!(base >> (idx as usize), (bnum >> (idx as usize)) & u24::MAX_VALUE);
            assert_eq!(base >> (idx as u8), (bnum >> (idx as u8)) & u24::MAX_VALUE);
            assert_eq!(base >> (idx as u16), (bnum >> (idx as u16)) & u24::MAX_VALUE);
            assert_eq!(base >> (idx as u32), (bnum >> (idx as u32)) & u24::MAX_VALUE);
            assert_eq!(base >> (idx as u64), (bnum >> (idx as u64)) & u24::MAX_VALUE);
            assert_eq!(base >> (idx as u128), (bnum >> (idx as u128)) & u24::MAX_VALUE);
            if idx <= i8::MAX as usize {
                assert_eq!(base >> (idx as i8), (bnum >> (idx as i8)) & u24::MAX_VALUE);
            }
            assert_eq!(base >> (idx as isize), (bnum >> (idx as isize)) & u24::MAX_VALUE);
            assert_eq!(base >> (idx as i16), (bnum >> (idx as i16)) & u24::MAX_VALUE);
            assert_eq!(base >> (idx as i32), (bnum >> (idx as i32)) & u24::MAX_VALUE);
            assert_eq!(base >> (idx as i64), (bnum >> (idx as i64)) & u24::MAX_VALUE);
            assert_eq!(base >> (idx as i128), (bnum >> (idx as i128)) & u24::MAX_VALUE);
            assert_eq!(base << (idx as usize), (bnum << (idx as usize)) & u24::MAX_VALUE);
            assert_eq!(base << (idx as u8), (bnum << (idx as u8)) & u24::MAX_VALUE);
            assert_eq!(base << (idx as u16), (bnum << (idx as u16)) & u24::MAX_VALUE);
            assert_eq!(base << (idx as u32), (bnum << (idx as u32)) & u24::MAX_VALUE);
            assert_eq!(base << (idx as u64), (bnum << (idx as u64)) & u24::MAX_VALUE);
            assert_eq!(base << (idx as u128), (bnum << (idx as u128)) & u24::MAX_VALUE);
            if idx <= i8::MAX as usize {
                assert_eq!(base << (idx as i8), (bnum << (idx as i8)) & u24::MAX_VALUE);
            }
            assert_eq!(base << (idx as isize), (bnum << (idx as isize)) & u24::MAX_VALUE);
            assert_eq!(base << (idx as i16), (bnum << (idx as i16)) & u24::MAX_VALUE);
            assert_eq!(base << (idx as i32), (bnum << (idx as i32)) & u24::MAX_VALUE);
            assert_eq!(base << (idx as i64), (bnum << (idx as i64)) & u24::MAX_VALUE);
            assert_eq!(base << (idx as i128), (bnum << (idx as i128)) & u24::MAX_VALUE);
            let mut z = base;
            z <<= idx as usize;
            assert_eq!(z, (bnum << idx) & u24::MAX_VALUE);
            let mut z = base;
            z <<= idx as u8;
            assert_eq!(z, (bnum << idx) & u24::MAX_VALUE);
            let mut z = base;
            z <<= idx as u16;
            assert_eq!(z, (bnum << idx) & u24::MAX_VALUE);
            let mut z = base;
            z <<= idx as u32;
            assert_eq!(z, (bnum << idx) & u24::MAX_VALUE);
            let mut z = base;
            z <<= idx as u64;
            assert_eq!(z, (bnum << idx) & u24::MAX_VALUE);
            let mut z = base;
            z <<= idx as u128;
            assert_eq!(z, (bnum << idx) & u24::MAX_VALUE);
            let mut z = base;
            z <<= idx as isize;
            assert_eq!(z, (bnum << idx) & u24::MAX_VALUE);
            if idx <= i8::MAX as usize {
                let mut z = base;
                z <<= idx as i8;
                assert_eq!(z, (bnum << idx) & u24::MAX_VALUE);
            }
            let mut z = base;
            z <<= idx as i16;
            assert_eq!(z, (bnum << idx) & u24::MAX_VALUE);
            let mut z = base;
            z <<= idx as i32;
            assert_eq!(z, (bnum << idx) & u24::MAX_VALUE);
            let mut z = base;
            z <<= idx as i64;
            assert_eq!(z, (bnum << idx) & u24::MAX_VALUE);
            let mut z = base;
            z <<= idx as i128;
            assert_eq!(z, (bnum << idx) & u24::MAX_VALUE);
            let mut z = base;
            z >>= idx as usize;
            assert_eq!(z, (bnum >> idx) & u24::MAX_VALUE);
            let mut z = base;
            z >>= idx as u8;
            assert_eq!(z, (bnum >> idx) & u24::MAX_VALUE);
            let mut z = base;
            z >>= idx as u16;
            assert_eq!(z, (bnum >> idx) & u24::MAX_VALUE);
            let mut z = base;
            z >>= idx as u32;
            assert_eq!(z, (bnum >> idx) & u24::MAX_VALUE);
            let mut z = base;
            z >>= idx as u64;
            assert_eq!(z, (bnum >> idx) & u24::MAX_VALUE);
            let mut z = base;
            z >>= idx as u128;
            assert_eq!(z, (bnum >> idx) & u24::MAX_VALUE);
            let mut z = base;
            z >>= idx as isize;
            assert_eq!(z, (bnum >> idx) & u24::MAX_VALUE);
            if idx <= i8::MAX as usize {
                let mut z = base;
                z >>= idx as i8;
                assert_eq!(z, (bnum >> idx) & u24::MAX_VALUE);
            }
            let mut z = base;
            z >>= idx as i16;
            assert_eq!(z, (bnum >> idx) & u24::MAX_VALUE);
            let mut z = base;
            z >>= idx as i32;
            assert_eq!(z, (bnum >> idx) & u24::MAX_VALUE);
            let mut z = base;
            z >>= idx as i64;
            assert_eq!(z, (bnum >> idx) & u24::MAX_VALUE);
            let mut z = base;
            z >>= idx as i128;
            assert_eq!(z, (bnum >> idx) & u24::MAX_VALUE);
        }
    }
}

#[test]
fn test_u24() {
    U24T::run();
}

struct U40T {
    random_numbers: Vec<u40>,
}

impl U40T {
    fn run() {
        let tdata = Self::make_test_data();
        for nr in &tdata.random_numbers {
            Self::rem(nr);
            Self::shift(nr);
            Self::and_or_xor(nr);
            Self::add_sub(nr);
            Self::mul_div(nr);
        }
    }

    fn make_test_data() -> U40T {
        let mut source = ByteSource::new(0x055EED);
        let mut dta = Vec::new();
        for _ in 0..TEST_SET_SIZE {
            let mut inner = [0u8; 5];
            source.fill(&mut inner);
            dta.push(u40::from_ne_bytes(inner));
        }
        dta.push(u40::max_value());
        dta.push(u40::min_value());

        return U40T {
            random_numbers: dta,
        };
    }

    fn add_sub(num: &u40) {
        let base = num.clone();
        let bnum = num.as_num();
        if bnum == 0 || bnum >= u40::MAX_VALUE - 32 {
            return;
        }

        let u = base + 1;
        let b = base + u40::from(1);
        assert_eq!(u, b);
        assert_ne!(base, b);
        assert_eq!(u40::from(bnum + 1), b);
        let x = base - 1;
        let y = base - u40::from(1);
        assert_eq!(x, y);
        assert_ne!(base, x);
        assert_eq!(u40::from(bnum - 1), x);
        assert_eq!(x + 2, u);
        assert_eq!(y + u40::from(2), b);
        let mut z = base;
        z += u40::from(16);
        assert_eq!(z, u40::from(bnum + 16));
        z += 16;
        assert_eq!(z, u40::from(bnum + 32));
        z -= 16;
        assert_eq!(z, u40::from(bnum + 16));
        z -= u40::from(16);
        assert_eq!(z, base);
    }

    fn mul_div(num: &u40) {
        let mut base = num.clone();
        base -= base % 3;
        if base >= u40::MAX_VALUE / 3 {
            return;
        }
        if base == 0 {
            return;
        }

        let u = base * 3;
        let b = base * u40::from(3);
        assert_eq!(u, b);
        assert_ne!(base, b);
        let x = base / 3;
        let y = base / u40::from(3);
        assert_eq!(x, y);
        assert_ne!(base, x);
        assert_eq!(x * 9, u, "{:?} - {:?} - {:?}", base, x, u);
        assert_eq!(y * u40::from(9), b);
        let mut z = base;
        z *= 3;
        assert_eq!(z, u);
        z /= 3;
        assert_eq!(z, base);
    }

    fn rem(num: &u40) {
        let base = num.clone();
        let bnum = num.as_num();

        let div_base = (u40::MAX_VALUE - u40::MAX_VALUE) + 41;

        for idx in 0..(size_of::<u40>() * 8) {
            let div = div_base << idx;
            if div >= u40::MAX_VALUE {
                return;
            }
            let mut z = base;
            let mut z2 = base;
            z %= div;
            z2 %= div;
            assert_eq!(base % div, bnum % div, "{} - {}", bnum, div);
            assert_eq!(
                base % u40::from(div),
                bnum % div,
                "{} - {}",
                bnum,
                div
            );
            assert_eq!(z, bnum % div, "{} - {}", bnum, div);
            assert_eq!(z2, bnum % div, "{} - {}", bnum, div);
        }
    }

    fn and_or_xor(num: &u40) {
        let base = num.clone();
        let bnum = num.as_num();
        let mask = 0b1010;

        for idx in 0..(size_of::<u40>() * 8) {
            let base_mask = mask << idx;
            if base_mask > u40::MAX_VALUE {
                return;
            }

            let mut z = base;
            let mut z2 = base;
            z &= base_mask;
            z2 &= u40::from(base_mask);
            assert_eq!(base & base_mask, bnum & base_mask, "{} - {}", bnum, base_mask);
            assert_eq!(base & u40::from(base_mask), bnum & base_mask, "{} - {}", bnum, base_mask);
            assert_eq!(z, bnum & base_mask, "{} - {}", bnum, base_mask);
            assert_eq!(z2, bnum & base_mask, "{} - {}", bnum, base_mask);

            let mut z = base;
            let mut z2 = base;
            z |= base_mask;
            z2 |= u40::from(base_mask);
            assert_eq!(base | base_mask, bnum | base_mask, "{} - {}", bnum, base_mask);
            assert_eq!(base | u40::from(base_mask), bnum | base_mask, "{} - {}", bnum, base_mask);
            assert_eq!(z, bnum | base_mask, "{} - {}", bnum, base_mask);
            assert_eq!(z2, bnum | base_mask, "{} - {}", bnum, base_mask);

            let mut z = base;
            let mut z2 = base;
            z ^= base_mask;
            z2 ^= u40::from(base_mask);
            assert_eq!(base ^ base_mask, bnum ^ base_mask, "{} - {}", bnum, base_mask);
            assert_eq!(base ^ u40::from(base_mask), bnum ^ base_mask, "{} - {}", bnum, base_mask);
            assert_eq!(z, bnum ^ base_mask, "{} - {}", bnum, base_mask);
            assert_eq!(z2, bnum ^ base_mask, "{} - {}", bnum, base_mask);
        }
    }

    fn shift(num: &u40) {
        let base = num.clone();
        let bnum = num.as_num();

        for idx in 0..(size_of::<u40>() * 8) {
            assert_eq!(base >> (idx as usize), (bnum >> (idx as usize)) & u40::MAX_VALUE);
            assert_eq!(base >> (idx as u8), (bnum >> (idx as u8)) & u40::MAX_VALUE);
            assert_eq!(base >> (idx as u16), (bnum >> (idx as u16)) & u40::MAX_VALUE);
            assert_eq!(base >> (idx as u32), (bnum >> (idx as u32)) & u40::MAX_VALUE);
            assert_eq!(base >> (idx as u64), (bnum >> (idx as u64)) & u40::MAX_VALUE);
            assert_eq!(base >> (idx as u128), (bnum >> (idx as u128)) & u40::MAX_VALUE);
            if idx <= i8::MAX as usize {
                assert_eq!(base >> (idx as i8), (bnum >> (idx as i8)) & u40::MAX_VALUE);
            }
            assert_eq!(base >> (idx as isize), (bnum >> (idx as isize)) & u40::MAX_VALUE);
            assert_eq!(base >> (idx as i16), (bnum >> (idx as i16)) & u40::MAX_VALUE);
            assert_eq!(base >> (idx as i32), (bnum >> (idx as i32)) & u40::MAX_VALUE);
            assert_eq!(base >> (idx as i64), (bnum >> (idx as i64)) & u40::MAX_VALUE);
            assert_eq!(base >> (idx as i128), (bnum >> (idx as i128)) & u40::MAX_VALUE);
            assert_eq!(base << (idx as usize), (bnum << (idx as usize)) & u40::MAX_VALUE);
            assert_eq!(base << (idx as u8), (bnum << (idx as u8)) & u40::MAX_VALUE);
            assert_eq!(base << (idx as u16), (bnum << (idx as u16)) & u40::MAX_VALUE);
            assert_eq!(base << (idx as u32), (bnum << (idx as u32)) & u40::MAX_VALUE);
            assert_eq!(base << (idx as u64), (bnum << (idx as u64)) & u40::MAX_VALUE);
            assert_eq!(base << (idx as u128), (bnum << (idx as u128)) & u40::MAX_VALUE);
            if idx <= i8::MAX as usize {
                assert_eq!(base << (idx as i8), (bnum << (idx as i8)) & u40::MAX_VALUE);
            }
            assert_eq!(base << (idx as isize), (bnum << (idx as isize)) & u40::MAX_VALUE);
            assert_eq!(base << (idx as i16), (bnum << (idx as i16)) & u40::MAX_VALUE);
            assert_eq!(base << (idx as i32), (bnum << (idx as i32)) & u40::MAX_VALUE);
            assert_eq!(base << (idx as i64), (bnum << (idx as i64)) & u40::MAX_VALUE);
            assert_eq!(base << (idx as i128), (bnum << (idx as i128)) & u40::MAX_VALUE);
            let mut z = base;
            z <<= idx as usize;
            assert_eq!(z, (bnum << idx) & u40::MAX_VALUE);
            let mut z = base;
            z <<= idx as u8;
            assert_eq!(z, (bnum << idx) & u40::MAX_VALUE);
            let mut z = base;
            z <<= idx as u16;
            assert_eq!(z, (bnum << idx) & u40::MAX_VALUE);
            let mut z = base;
            z <<= idx as u32;
            assert_eq!(z, (bnum << idx) & u40::MAX_VALUE);
            let mut z = base;
            z <<= idx as u64;
            assert_eq!(z, (bnum << idx) & u40::MAX_VALUE);
            let mut z = base;
            z <<= idx as u128;
            assert_eq!(z, (bnum << idx) & u40::MAX_VALUE);
            let mut z = base;
            z <<= idx as isize;
            assert_eq!(z, (bnum << idx) & u40::MAX_VALUE);
            if idx <= i8::MAX as usize {
                let mut z = base;
                z <<= idx as i8;
                assert_eq!(z, (bnum << idx) & u40::MAX_VALUE);
            }
            let mut z = base;
            z <<= idx as i16;
            assert_eq!(z, (bnum << idx) & u40::MAX_VALUE);
            let mut z = base;
            z <<= idx as i32;
            assert_eq!(z, (bnum << idx) & u40::MAX_VALUE);
            let mut z = base;
            z <<= idx as i64;
            assert_eq!(z, (bnum << idx) & u40::MAX_VALUE);
            let mut z = base;
            z <<= idx as i128;
            assert_eq!(z, (bnum << idx) & u40::MAX_VALUE);
            let mut z = base;
            z >>= idx as usize;
            assert_eq!(z, (bnum >> idx) & u40::MAX_VALUE);
            let mut z = base;
            z >>= idx as u8;
            assert_eq!(z, (bnum >> idx) & u40::MAX_VALUE);
            let mut z = base;
            z >>= idx as u16;
            assert_eq!(z, (bnum >> idx) & u40::MAX_VALUE);
            let mut z = base;
            z >>= idx as u32;
            assert_eq!(z, (bnum >> idx) & u40::MAX_VALUE);
            let mut z = base;
            z >>= idx as u64;
            assert_eq!(z, (bnum >> idx) & u40::MAX_VALUE);
            let mut z = base;
            z >>= idx as u128;
            assert_eq!(z, (bnum >> idx) & u40::MAX_VALUE);
            let mut z = base;
            z >>= idx as isize;
            assert_eq!(z, (bnum >> idx) & u40::MAX_VALUE);
            if idx <= i8::MAX as usize {
                let mut z = base;
                z >>= idx as i8;
                assert_eq!(z, (bnum >> idx) & u40::MAX_VALUE);
            }
            let mut z = base;
            z >>= idx as i16;
            assert_eq!(z, (bnum >> idx) & u40::MAX_VALUE);
            let mut z = base;
            z >>= idx as i32;
            assert_eq!(z, (bnum >> idx) & u40::MAX_VALUE);
            let mut z = base;
            z >>= idx as i64;
            assert_eq!(z, (bnum >> idx) & u40::MAX_VALUE);
            let mut z = base;
            z >>= idx as i128;
            assert_eq!(z, (bnum >> idx) & u40::MAX_VALUE);
        }
    }
}

#[test]
fn test_u40() {
    U40T::run();
}

struct U48T {
    random_numbers: Vec<u48>,
}

impl U48T {
    fn run() {
        let tdata = Self::make_test_data();
        for nr in &tdata.random_numbers {
            Self::rem(nr);
            Self::shift(nr);
            Self::and_or_xor(nr);
            Self::add_sub(nr);
            Self::mul_div(nr);
        }
    }

    fn make_test_data() -> U48T {
        let mut source = ByteSource::new(0x065EED);
        let mut dta = Vec::new();
        for _ in 0..TEST_SET_SIZE {
            let mut inner = [0u8; 6];
            source.fill(&mut inner);
            dta.push(u48::from_ne_bytes(inner));
        }
        dta.push(u48::max_value());
        dta.push(u48::min_value());

        return U48T {
            random_numbers: dta,
        };
    }

    fn add_sub(num: &u48) {
        let base = num.clone();
        let bnum = num.as_num();
        if bnum == 0 || bnum >= u48::MAX_VALUE - 32 {
            return;
        }

        let u = base + 1;
        let b = base + u48::from(1);
        assert_eq!(u, b);
        assert_ne!(base, b);
        assert_eq!(u48::from(bnum + 1), b);
        let x = base - 1;
        let y = base - u48::from(1);
        assert_eq!(x, y);
        assert_ne!(base, x);
        assert_eq!(u48::from(bnum - 1), x);
        assert_eq!(x + 2, u);
        assert_eq!(y + u48::from(2), b);
        let mut z = base;
        z += u48::from(16);
        assert_eq!(z, u48::from(bnum + 16));
        z += 16;
        assert_eq!(z, u48::from(bnum + 32));
        z -= 16;
        assert_eq!(z, u48::from(bnum + 16));
        z -= u48::from(16);
        assert_eq!(z, base);
    }

    fn mul_div(num: &u48) {
        let mut base = num.clone();
        base -= base % 3;
        if base >= u48::MAX_VALUE / 3 {
            return;
        }
        if base == 0 {
            return;
        }

        let u = base * 3;
        let b = base * u48::from(3);
        assert_eq!(u, b);
        assert_ne!(base, b);
        let x = base / 3;
        let y = base / u48::from(3);
        assert_eq!(x, y);
        assert_ne!(base, x);
        assert_eq!(x * 9, u, "{:?} - {:?} - {:?}", base, x, u);
        assert_eq!(y * u48::from(9), b);
        let mut z = base;
        z *= 3;
        assert_eq!(z, u);
        z /= 3;
        assert_eq!(z, base);
    }

    fn rem(num: &u48) {
        let base = num.clone();
        let bnum = num.as_num();

        let div_base = (u48::MAX_VALUE - u48::MAX_VALUE) + 41;

        for idx in 0..(size_of::<u48>() * 8) {
            let div = div_base << idx;
            if div >= u48::MAX_VALUE {
                return;
            }
            let mut z = base;
            let mut z2 = base;
            z %= div;
            z2 %= div;
            assert_eq!(base % div, bnum % div, "{} - {}", bnum, div);
            assert_eq!(
                base % u48::from(div),
                bnum % div,
                "{} - {}",
                bnum,
                div
            );
            assert_eq!(z, bnum % div, "{} - {}", bnum, div);
            assert_eq!(z2, bnum % div, "{} - {}", bnum, div);
        }
    }

    fn and_or_xor(num: &u48) {
        let base = num.clone();
        let bnum = num.as_num();
        let mask = 0b1010;

        for idx in 0..(size_of::<u48>() * 8) {
            let base_mask = mask << idx;
            if base_mask > u48::MAX_VALUE {
                return;
            }

            let mut z = base;
            let mut z2 = base;
            z &= base_mask;
            z2 &= u48::from(base_mask);
            assert_eq!(base & base_mask, bnum & base_mask, "{} - {}", bnum, base_mask);
            assert_eq!(base & u48::from(base_mask), bnum & base_mask, "{} - {}", bnum, base_mask);
            assert_eq!(z, bnum & base_mask, "{} - {}", bnum, base_mask);
            assert_eq!(z2, bnum & base_mask, "{} - {}", bnum, base_mask);

            let mut z = base;
            let mut z2 = base;
            z |= base_mask;
            z2 |= u48::from(base_mask);
            assert_eq!(base | base_mask, bnum | base_mask, "{} - {}", bnum, base_mask);
            assert_eq!(base | u48::from(base_mask), bnum | base_mask, "{} - {}", bnum, base_mask);
            assert_eq!(z, bnum | base_mask, "{} - {}", bnum, base_mask);
            assert_eq!(z2, bnum | base_mask, "{} - {}", bnum, base_mask);

            let mut z = base;
            let mut z2 = base;
            z ^= base_mask;
            z2 ^= u48::from(base_mask);
            assert_eq!(base ^ base_mask, bnum ^ base_mask, "{} - {}", bnum, base_mask);
            assert_eq!(base ^ u48::from(base_mask), bnum ^ base_mask, "{} - {}", bnum, base_mask);
            assert_eq!(z, bnum ^ base_mask, "{} - {}", bnum, base_mask);
            assert_eq!(z2, bnum ^ base_mask, "{} - {}", bnum, base_mask);
        }
    }

    fn shift(num: &u48) {
        let base = num.clone();
        let bnum = num.as_num();

        for idx in 0..(size_of::<u48>() * 8) {
            assert_eq!(base >> (idx as usize), (bnum >> (idx as usize)) & u48::MAX_VALUE);
            assert_eq!(base >> (idx as u8), (bnum >> (idx as u8)) & u48::MAX_VALUE);
            assert_eq!(base >> (idx as u16), (bnum >> (idx as u16)) & u48::MAX_VALUE);
            assert_eq!(base >> (idx as u32), (bnum >> (idx as u32)) & u48::MAX_VALUE);
            assert_eq!(base >> (idx as u64), (bnum >> (idx as u64)) & u48::MAX_VALUE);
            assert_eq!(base >> (idx as u128), (bnum >> (idx as u128)) & u48::MAX_VALUE);
            if idx <= i8::MAX as usize {
                assert_eq!(base >> (idx as i8), (bnum >> (idx as i8)) & u48::MAX_VALUE);
            }
            assert_eq!(base >> (idx as isize), (bnum >> (idx as isize)) & u48::MAX_VALUE);
            assert_eq!(base >> (idx as i16), (bnum >> (idx as i16)) & u48::MAX_VALUE);
            assert_eq!(base >> (idx as i32), (bnum >> (idx as i32)) & u48::MAX_VALUE);
            assert_eq!(base >> (idx as i64), (bnum >> (idx as i64)) & u48::MAX_VALUE);
            assert_eq!(base >> (idx as i128), (bnum >> (idx as i128)) & u48::MAX_VALUE);
            assert_eq!(base << (idx as usize), (bnum << (idx as usize)) & u48::MAX_VALUE);
            assert_eq!(base << (idx as u8), (bnum << (idx as u8)) & u48::MAX_VALUE);
            assert_eq!(base << (idx as u16), (bnum << (idx as u16)) & u48::MAX_VALUE);
            assert_eq!(base << (idx as u32), (bnum << (idx as u32)) & u48::MAX_VALUE);
            assert_eq!(base << (idx as u64), (bnum << (idx as u64)) & u48::MAX_VALUE);
            assert_eq!(base << (idx as u128), (bnum << (idx as u128)) & u48::MAX_VALUE);
            if idx <= i8::MAX as usize {
                assert_eq!(base << (idx as i8), (bnum << (idx as i8)) & u48::MAX_VALUE);
            }
            assert_eq!(base << (idx as isize), (bnum << (idx as isize)) & u48::MAX_VALUE);
            assert_eq!(base << (idx as i16), (bnum << (idx as i16)) & u48::MAX_VALUE);
            assert_eq!(base << (idx as i32), (bnum << (idx as i32)) & u48::MAX_VALUE);
            assert_eq!(base << (idx as i64), (bnum << (idx as i64)) & u48::MAX_VALUE);
            assert_eq!(base << (idx as i128), (bnum << (idx as i128)) & u48::MAX_VALUE);
            let mut z = base;
            z <<= idx as usize;
            assert_eq!(z, (bnum << idx) & u48::MAX_VALUE);
            let mut z = base;
            z <<= idx as u8;
            assert_eq!(z, (bnum << idx) & u48::MAX_VALUE);
            let mut z = base;
            z <<= idx as u16;
            assert_eq!(z, (bnum << idx) & u48::MAX_VALUE);
            let mut z = base;
            z <<= idx as u32;
            assert_eq!(z, (bnum << idx) & u48::MAX_VALUE);
            let mut z = base;
            z <<= idx as u64;
            assert_eq!(z, (bnum << idx) & u48::MAX_VALUE);
            let mut z = base;
            z <<= idx as u128;
            assert_eq!(z, (bnum << idx) & u48::MAX_VALUE);
            let mut z = base;
            z <<= idx as isize;
            assert_eq!(z, (bnum << idx) & u48::MAX_VALUE);
            if idx <= i8::MAX as usize {
                let mut z = base;
                z <<= idx as i8;
                assert_eq!(z, (bnum << idx) & u48::MAX_VALUE);
            }
            let mut z = base;
            z <<= idx as i16;
            assert_eq!(z, (bnum << idx) & u48::MAX_VALUE);
            let mut z = base;
            z <<= idx as i32;
            assert_eq!(z, (bnum << idx) & u48::MAX_VALUE);
            let mut z = base;
            z <<= idx as i64;
            assert_eq!(z, (bnum << idx) & u48::MAX_VALUE);
            let mut z = base;
            z <<= idx as i128;
            assert_eq!(z, (bnum << idx) & u48::MAX_VALUE);
            let mut z = base;
            z >>= idx as usize;
            assert_eq!(z, (bnum >> idx) & u48::MAX_VALUE);
            let mut z = base;
            z >>= idx as u8;
            assert_eq!(z, (bnum >> idx) & u48::MAX_VALUE);
            let mut z = base;
            z >>= idx as u16;
            assert_eq!(z, (bnum >> idx) & u48::MAX_VALUE);
            let mut z = base;
            z >>= idx as u32;
            assert_eq!(z, (bnum >> idx) & u48::MAX_VALUE);
            let mut z = base;
            z >>= idx as u64;
            assert_eq!(z, (bnum >> idx) & u48::MAX_VALUE);
            let mut z = base;
            z >>= idx as u128;
            assert_eq!(z, (bnum >> idx) & u48::MAX_VALUE);
            let mut z = base;
            z >>= idx as isize;
            assert_eq!(z, (bnum >> idx) & u48::MAX_VALUE);
            if idx <= i8::MAX as usize {
                let mut z = base;
                z >>= idx as i8;
                assert_eq!(z, (bnum >> idx) & u48::MAX_VALUE);
            }
            let mut z = base;
            z >>= idx as i16;
            assert_eq!(z, (bnum >> idx) & u48::MAX_VALUE);
            let mut z = base;
            z >>= idx as i32;
            assert_eq!(z, (bnum >> idx) & u48::MAX_VALUE);
            let mut z = base;
            z >>= idx as i64;
            assert_eq!(z, (bnum >> idx) & u48::MAX_VALUE);
            let mut z = base;
            z >>= idx as i128;
            assert_eq!(z, (bnum >> idx) & u48::MAX_VALUE);
        }
    }
}

#[test]
fn test_u48() {
    U48T::run();
}

struct U56T {
    random_numbers: Vec<u56>,
}

impl U56T {
    fn run() {
        let tdata = Self::make_test_data();
        for nr in &tdata.random_numbers {
            Self::rem(nr);
            Self::shift(nr);
            Self::and_or_xor(nr);
            Self::add_sub(nr);
            Self::mul_div(nr);
        }
    }

    fn make_test_data() -> U56T {
        let mut source = ByteSource::new(0x075EED);
        let mut dta = Vec::new();
        for _ in 0..TEST_SET_SIZE {
            let mut inner = [0u8; 7];
            source.fill(&mut inner);
            dta.push(u56::from_ne_bytes(inner));
        }
        dta.push(u56::max_value());
        dta.push(u56::min_value());

        return U56T {
            random_numbers: dta,
        };
    }

    fn add_sub(num: &u56) {
        let base = num.clone();
        let bnum = num.as_num();
        if bnum == 0 || bnum >= u56::MAX_VALUE - 32 {
            return;
        }

        let u = base + 1;
        let b = base + u56::from(1);
        assert_eq!(u, b);
        assert_ne!(base, b);
        assert_eq!(u56::from(bnum + 1), b);
        let x = base - 1;
        let y = base - u56::from(1);
        assert_eq!(x, y);
        assert_ne!(base, x);
        assert_eq!(u56::from(bnum - 1), x);
        assert_eq!(x + 2, u);
        assert_eq!(y + u56::from(2), b);
        let mut z = base;
        z += u56::from(16);
        assert_eq!(z, u56::from(bnum + 16));
        z += 16;
        assert_eq!(z, u56::from(bnum + 32));
        z -= 16;
        assert_eq!(z, u56::from(bnum + 16));
        z -= u56::from(16);
        assert_eq!(z, base);
    }

    fn mul_div(num: &u56) {
        let mut base = num.clone();
        base -= base % 3;
        if base >= u56::MAX_VALUE / 3 {
            return;
        }
        if base == 0 {
            return;
        }

        let u = base * 3;
        let b = base * u56::from(3);
        assert_eq!(u, b);
        assert_ne!(base, b);
        let x = base / 3;
        let y = base / u56::from(3);
        assert_eq!(x, y);
        assert_ne!(base, x);
        assert_eq!(x * 9, u, "{:?} - {:?} - {:?}", base, x, u);
        assert_eq!(y * u56::from(9), b);
        let mut z = base;
        z *= 3;
        assert_eq!(z, u);
        z /= 3;
        assert_eq!(z, base);
    }

    fn rem(num: &u56) {
        let base = num.clone();
        let bnum = num.as_num();

        let div_base = (u56::MAX_VALUE - u56::MAX_VALUE) + 41;

        for idx in 0..(size_of::<u56>() * 8) {
            let div = div_base << idx;
            if div >= u56::MAX_VALUE {
                return;
            }
            let mut z = base;
            let mut z2 = base;
            z %= div;
            z2 %= div;
            assert_eq!(base % div, bnum % div, "{} - {}", bnum, div);
            assert_eq!(
                base % u56::from(div),
                bnum % div,
                "{} - {}",
                bnum,
                div
            );
            assert_eq!(z, bnum % div, "{} - {}", bnum, div);
            assert_eq!(z2, bnum % div, "{} - {}", bnum, div);
        }
    }

    fn and_or_xor(num: &u56) {
        let base = num.clone();
        let bnum = num.as_num();
        let mask = 0b1010;

        for idx in 0..(size_of::<u56>() * 8) {
            let base_mask = mask << idx;
            if base_mask > u56::MAX_VALUE {
                return;
            }

            let mut z = base;
            let mut z2 = base;
            z &= base_mask;
            z2 &= u56::from(base_mask);
            assert_eq!(base & base_mask, bnum & base_mask, "{} - {}", bnum, base_mask);
            assert_eq!(base & u56::from(base_mask), bnum & base_mask, "{} - {}", bnum, base_mask);
            assert_eq!(z, bnum & base_mask, "{} - {}", bnum, base_mask);
            assert_eq!(z2, bnum & base_mask, "{} - {}", bnum, base_mask);

            let mut z = base;
            let mut z2 = base;
            z |= base_mask;
            z2 |= u56::from(base_mask);
            assert_eq!(base | base_mask, bnum | base_mask, "{} - {}", bnum, base_mask);
            assert_eq!(base | u56::from(base_mask), bnum | base_mask, "{} - {}", bnum, base_mask);
            assert_eq!(z, bnum | base_mask, "{} - {}", bnum, base_mask);
            assert_eq!(z2, bnum | base_mask, "{} - {}", bnum, base_mask);

            let mut z = base;
            let mut z2 = base;
            z ^= base_mask;
            z2 ^= u56::from(base_mask);
            assert_eq!(base ^ base_mask, bnum ^ base_mask, "{} - {}", bnum, base_mask);
            assert_eq!(base ^ u56::from(base_mask), bnum ^ base_mask, "{} - {}", bnum, base_mask);
            assert_eq!(z, bnum ^ base_mask, "{} - {}", bnum, base_mask);
            assert_eq!(z2, bnum ^ base_mask, "{} - {}", bnum, base_mask);
        }
    }

    fn shift(num: &u56) {
        let base = num.clone();
        let bnum = num.as_num();

        for idx in 0..(size_of::<u56>() * 8) {
            assert_eq!(base >> (idx as usize), (bnum >> (idx as usize)) & u56::MAX_VALUE);
            assert_eq!(base >> (idx as u8), (bnum >> (idx as u8)) & u56::MAX_VALUE);
            assert_eq!(base >> (idx as u16), (bnum >> (idx as u16)) & u56::MAX_VALUE);
            assert_eq!(base >> (idx as u32), (bnum >> (idx as u32)) & u56::MAX_VALUE);
            assert_eq!(base >> (idx as u64), (bnum >> (idx as u64)) & u56::MAX_VALUE);
            assert_eq!(base >> (idx as u128), (bnum >> (idx as u128)) & u56::MAX_VALUE);
            if idx <= i8::MAX as usize {
                assert_eq!(base >> (idx as i8), (bnum >> (idx as i8)) & u56::MAX_VALUE);
            }
            assert_eq!(base >> (idx as isize), (bnum >> (idx as isize)) & u56::MAX_VALUE);
            assert_eq!(base >> (idx as i16), (bnum >> (idx as i16)) & u56::MAX_VALUE);
            assert_eq!(base >> (idx as i32), (bnum >> (idx as i32)) & u56::MAX_VALUE);
            assert_eq!(base >> (idx as i64), (bnum >> (idx as i64)) & u56::MAX_VALUE);
            assert_eq!(base >> (idx as i128), (bnum >> (idx as i128)) & u56::MAX_VALUE);
            assert_eq!(base << (idx as usize), (bnum << (idx as usize)) & u56::MAX_VALUE);
            assert_eq!(base << (idx as u8), (bnum << (idx as u8)) & u56::MAX_VALUE);
            assert_eq!(base << (idx as u16), (bnum << (idx as u16)) & u56::MAX_VALUE);
            assert_eq!(base << (idx as u32), (bnum << (idx as u32)) & u56::MAX_VALUE);
            assert_eq!(base << (idx as u64), (bnum << (idx as u64)) & u56::MAX_VALUE);
            assert_eq!(base << (idx as u128), (bnum << (idx as u128)) & u56::MAX_VALUE);
            if idx <= i8::MAX as usize {
                assert_eq!(base << (idx as i8), (bnum << (idx as i8)) & u56::MAX_VALUE);
            }
            assert_eq!(base << (idx as isize), (bnum << (idx as isize)) & u56::MAX_VALUE);
            assert_eq!(base << (idx as i16), (bnum << (idx as i16)) & u56::MAX_VALUE);
            assert_eq!(base << (idx as i32), (bnum << (idx as i32)) & u56::MAX_VALUE);
            assert_eq!(base << (idx as i64), (bnum << (idx as i64)) & u56::MAX_VALUE);
            assert_eq!(base << (idx as i128), (bnum << (idx as i128)) & u56::MAX_VALUE);
            let mut z = base;
            z <<= idx as usize;
            assert_eq!(z, (bnum << idx) & u56::MAX_VALUE);
            let mut z = base;
            z <<= idx as u8;
            assert_eq!(z, (bnum << idx) & u56::MAX_VALUE);
            let mut z = base;
            z <<= idx as u16;
            assert_eq!(z, (bnum << idx) & u56::MAX_VALUE);
            let mut z = base;
            z <<= idx as u32;
            assert_eq!(z, (bnum << idx) & u56::MAX_VALUE);
            let mut z = base;
            z <<= idx as u64;
            assert_eq!(z, (bnum << idx) & u56::MAX_VALUE);
            let mut z = base;
            z <<= idx as u128;
            assert_eq!(z, (bnum << idx) & u56::MAX_VALUE);
            let mut z = base;
            z <<= idx as isize;
            assert_eq!(z, (bnum << idx) & u56::MAX_VALUE);
            if idx <= i8::MAX as usize {
                let mut z = base;
                z <<= idx as i8;
                assert_eq!(z, (bnum << idx) & u56::MAX_VALUE);
            }
            let mut z = base;
            z <<= idx as i16;
            assert_eq!(z, (bnum << idx) & u56::MAX_VALUE);
            let mut z = base;
            z <<= idx as i32;
            assert_eq!(z, (bnum << idx) & u56::MAX_VALUE);
            let mut z = base;
            z <<= idx as i64;
            assert_eq!(z, (bnum << idx) & u56::MAX_VALUE);
            let mut z = base;
            z <<= idx as i128;
            assert_eq!(z, (bnum << idx) & u56::MAX_VALUE);
            let mut z = base;
            z >>= idx as usize;
            assert_eq!(z, (bnum >> idx) & u56::MAX_VALUE);
            let mut z = base;
            z >>= idx as u8;
            assert_eq!(z, (bnum >> idx) & u56::MAX_VALUE);
            let mut z = base;
            z >>= idx as u16;
            assert_eq!(z, (bnum >> idx) & u56::MAX_VALUE);
            let mut z = base;
            z >>= idx as u32;
            assert_eq!(z, (bnum >> idx) & u56::MAX_VALUE);
            let mut z = base;
            z >>= idx as u64;
            assert_eq!(z, (bnum >> idx) & u56::MAX_VALUE);
            let mut z = base;
            z >>= idx as u128;
            assert_eq!(z, (bnum >> idx) & u56::MAX_VALUE);
            let mut z = base;
            z >>= idx as isize;
            assert_eq!(z, (bnum >> idx) & u56::MAX_VALUE);
            if idx <= i8::MAX as usize {
                let mut z = base;
                z >>= idx as i8;
                assert_eq!(z, (bnum >> idx) & u56::MAX_VALUE);
            }
            let mut z = base;
            z >>= idx as i16;
            assert_eq!(z, (bnum >> idx) & u56::MAX_VALUE);
            let mut z = base;
            z >>= idx as i32;
            assert_eq!(z, (bnum >> idx) & u56::MAX_VALUE);
            let mut z = base;
            z >>= idx as i64;
            assert_eq!(z, (bnum >> idx) & u56::MAX_VALUE);
            let mut z = base;
            z >>= idx as i128;
            assert_eq!(z, (bnum >> idx) & u56::MAX_VALUE);
        }
    }
}

#[test]
fn test_u56() {
    U56T::run();
}

struct U72T {
    random_numbers: Vec<u72>,
}

impl U72T {
    fn run() {
        let tdata = Self::make_test_data();
        for nr in &tdata.random_numbers {
            Self::rem(nr);
            Self::shift(nr);
            Self::and_or_xor(nr);
            Self::add_sub(nr);
            Self::mul_div(nr);
        }
    }

    fn make_test_data() -> U72T {
        let mut source = ByteSource::new(0x095EED);
        let mut dta = Vec::new();
        for _ in 0..TEST_SET_SIZE {
            let mut inner = [0u8; 9];
            source.fill(&mut inner);
            dta.push(u72::from_ne_bytes(inner));
        }
        dta.push(u72::max_value());
        dta.push(u72::min_value());

        return U72T {
            random_numbers: dta,
        };
    }

    fn add_sub(num: &u72) {
        let base = num.clone();
        let bnum = num.as_num();
        if bnum == 0 || bnum >= u72::MAX_VALUE - 32 {
            return;
        }

        let u = base + 1;
        let b = base + u72::from(1);
        assert_eq!(u, b);
        assert_ne!(base, b);
        assert_eq!(u72::from(bnum + 1), b);
        let x = base - 1;
        let y = base - u72::from(1);
        assert_eq!(x, y);
        assert_ne!(base, x);
        assert_eq!(u72::from(bnum - 1), x);
        assert_eq!(x + 2, u);
        assert_eq!(y + u72::from(2), b);
        let mut z = base;
        z += u72::from(16);
        assert_eq!(z, u72::from(bnum + 16));
        z += 16;
        assert_eq!(z, u72::from(bnum + 32));
        z -= 16;
        assert_eq!(z, u72::from(bnum + 16));
        z -= u72::from(16);
        assert_eq!(z, base);
    }

    fn mul_div(num: &u72) {
        let mut base = num.clone();
        base -= base % 3;
        if base >= u72::MAX_VALUE / 3 {
            return;
        }
        if base == 0 {
            return;
        }

        let u = base * 3;
        let b = base * u72::from(3);
        assert_eq!(u, b);
        assert_ne!(base, b);
        let x = base / 3;
        let y = base / u72::from(3);
        assert_eq!(x, y);
        assert_ne!(base, x);
        assert_eq!(x * 9, u, "{:?} - {:?} - {:?}", base, x, u);
        assert_eq!(y * u72::from(9), b);
        let mut z = base;
        z *= 3;
        assert_eq!(z, u);
        z /= 3;
        assert_eq!(z, base);
    }

    fn rem(num: &u72) {
        let base = num.clone();
        let bnum = num.as_num();

        let div_base = (u72::MAX_VALUE - u72::MAX_VALUE) + 41;

        for idx in 0..(size_of::<u72>() * 8) {
            let div = div_base << idx;
            if div >= u72::MAX_VALUE {
                return;
            }
            let mut z = base;
            let mut z2 = base;
            z %= div;
            z2 %= div;
            assert_eq!(base % div, bnum % div, "{} - {}", bnum, div);
            assert_eq!(
                base % u72::from(div),
                bnum % div,
                "{} - {}",
                bnum,
                div
            );
            assert_eq!(z, bnum % div, "{} - {}", bnum, div);
            assert_eq!(z2, bnum % div, "{} - {}", bnum, div);
        }
    }

    fn and_or_xor(num: &u72) {
        let base = num.clone();
        let bnum = num.as_num();
        let mask = 0b1010;

        for idx in 0..(size_of::<u72>() * 8) {
            let base_mask = mask << idx;
            if base_mask > u72::MAX_VALUE {
                return;
            }

            let mut z = base;
            let mut z2 = base;
            z &= base_mask;
            z2 &= u72::from(base_mask);
            assert_eq!(base & base_mask, bnum & base_mask, "{} - {}", bnum, base_mask);
            assert_eq!(base & u72::from(base_mask), bnum & base_mask, "{} - {}", bnum, base_mask);
            assert_eq!(z, bnum & base_mask, "{} - {}", bnum, base_mask);
            assert_eq!(z2, bnum & base_mask, "{} - {}", bnum, base_mask);

            let mut z = base;
            let mut z2 = base;
            z |= base_mask;
            z2 |= u72::from(base_mask);
            assert_eq!(base | base_mask, bnum | base_mask, "{} - {}", bnum, base_mask);
            assert_eq!(base | u72::from(base_mask), bnum | base_mask, "{} - {}", bnum, base_mask);
            assert_eq!(z, bnum | base_mask, "{} - {}", bnum, base_mask);
            assert_eq!(z2, bnum | base_mask, "{} - {}", bnum, base_mask);

            let mut z = base;
            let mut z2 = base;
            z ^= base_mask;
            z2 ^= u72::from(base_mask);
            assert_eq!(base ^ base_mask, bnum ^ base_mask, "{} - {}", bnum, base_mask);
            assert_eq!(base ^ u72::from(base_mask), bnum ^ base_mask, "{} - {}", bnum, base_mask);
            assert_eq!(z, bnum ^ base_mask, "{} - {}", bnum, base_mask);
            assert_eq!(z2, bnum ^ base_mask, "{} - {}", bnum, base_mask);
        }
    }

    fn shift(num: &u72) {
        let base = num.clone();
        let bnum = num.as_num();

        for idx in 0..(size_of::<u72>() * 8) {
            assert_eq!(base >> (idx as usize), (bnum >> (idx as usize)) & u72::MAX_VALUE);
            assert_eq!(base >> (idx as u8), (bnum >> (idx as u8)) & u72::MAX_VALUE);
            assert_eq!(base >> (idx as u16), (bnum >> (idx as u16)) & u72::MAX_VALUE);
            assert_eq!(base >> (idx as u32), (bnum >> (idx as u32)) & u72::MAX_VALUE);
            assert_eq!(base >> (idx as u64), (bnum >> (idx as u64)) & u72::MAX_VALUE);
            assert_eq!(base >> (idx as u128), (bnum >> (idx as u128)) & u72::MAX_VALUE);
            if idx <= i8::MAX as usize {
                assert_eq!(base >> (idx as i8), (bnum >> (idx as i8)) & u72::MAX_VALUE);
            }
            assert_eq!(base >> (idx as isize), (bnum >> (idx as isize)) & u72::MAX_VALUE);
            assert_eq!(base >> (idx as i16), (bnum >> (idx as i16)) & u72::MAX_VALUE);
            assert_eq!(base >> (idx as i32), (bnum >> (idx as i32)) & u72::MAX_VALUE);
            assert_eq!(base >> (idx as i64), (bnum >> (idx as i64)) & u72::MAX_VALUE);
            assert_eq!(base >> (idx as i128), (bnum >> (idx as i128)) & u72::MAX_VALUE);
            assert_eq!(base << (idx as usize), (bnum << (idx as usize)) & u72::MAX_VALUE);
            assert_eq!(base << (idx as u8), (bnum << (idx as u8)) & u72::MAX_VALUE);
            assert_eq!(base << (idx as u16), (bnum << (idx as u16)) & u72::MAX_VALUE);
            assert_eq!(base << (idx as u32), (bnum << (idx as u32)) & u72::MAX_VALUE);
            assert_eq!(base << (idx as u64), (bnum << (idx as u64)) & u72::MAX_VALUE);
            assert_eq!(base << (idx as u128), (bnum << (idx as u128)) & u72::MAX_VALUE);
            if idx <= i8::MAX as usize {
                assert_eq!(base << (idx as i8), (bnum << (idx as i8)) & u72::MAX_VALUE);
            }
            assert_eq!(base << (idx as isize), (bnum << (idx as isize)) & u72::MAX_VALUE);
            assert_eq!(base << (idx as i16), (bnum << (idx as i16)) & u72::MAX_VALUE);
            assert_eq!(base << (idx as i32), (bnum << (idx as i32)) & u72::MAX_VALUE);
            assert_eq!(base << (idx as i64), (bnum << (idx as i64)) & u72::MAX_VALUE);
            assert_eq!(base << (idx as i128), (bnum << (idx as i128)) & u72::MAX_VALUE);
            let mut z = base;
            z <<= idx as usize;
            assert_eq!(z, (bnum << idx) & u72::MAX_VALUE);
            let mut z = base;
            z <<= idx as u8;
            assert_eq!(z, (bnum << idx) & u72::MAX_VALUE);
            let mut z = base;
            z <<= idx as u16;
            assert_eq!(z, (bnum << idx) & u72::MAX_VALUE);
            let mut z = base;
            z <<= idx as u32;
            assert_eq!(z, (bnum << idx) & u72::MAX_VALUE);
            let mut z = base;
            z <<= idx as u64;
            assert_eq!(z, (bnum << idx) & u72::MAX_VALUE);
            let mut z = base;
            z <<= idx as u128;
            assert_eq!(z, (bnum << idx) & u72::MAX_VALUE);
            let mut z = base;
            z <<= idx as isize;
            assert_eq!(z, (bnum << idx) & u72::MAX_VALUE);
            if idx <= i8::MAX as usize {
                let mut z = base;
                z <<= idx as i8;
                assert_eq!(z, (bnum << idx) & u72::MAX_VALUE);
            }
            let mut z = base;
            z <<= idx as i16;
            assert_eq!(z, (bnum << idx) & u72::MAX_VALUE);
            let mut z = base;
            z <<= idx as i32;
            assert_eq!(z, (bnum << idx) & u72::MAX_VALUE);
            let mut z = base;
            z <<= idx as i64;
            assert_eq!(z, (bnum << idx) & u72::MAX_VALUE);
            let mut z = base;
            z <<= idx as i128;
            assert_eq!(z, (bnum << idx) & u72::MAX_VALUE);
            let mut z = base;
            z >>= idx as usize;
            assert_eq!(z, (bnum >> idx) & u72::MAX_VALUE);
            let mut z = base;
            z >>= idx as u8;
            assert_eq!(z, (bnum >> idx) & u72::MAX_VALUE);
            let mut z = base;
            z >>= idx as u16;
            assert_eq!(z, (bnum >> idx) & u72::MAX_VALUE);
            let mut z = base;
            z >>= idx as u32;
            assert_eq!(z, (bnum >> idx) & u72::MAX_VALUE);
            let mut z = base;
            z >>= idx as u64;
            assert_eq!(z, (bnum >> idx) & u72::MAX_VALUE);
            let mut z = base;
            z >>= idx as u128;
            assert_eq!(z, (bnum >> idx) & u72::MAX_VALUE);
            let mut z = base;
            z >>= idx as isize;
            assert_eq!(z, (bnum >> idx) & u72::MAX_VALUE);
            if idx <= i8::MAX as usize {
                let mut z = base;
                z >>= idx as i8;
                assert_eq!(z, (bnum >> idx) & u72::MAX_VALUE);
            }
            let mut z = base;
            z >>= idx as i16;
            assert_eq!(z, (bnum >> idx) & u72::MAX_VALUE);
            let mut z = base;
            z >>= idx as i32;
            assert_eq!(z, (bnum >> idx) & u72::MAX_VALUE);
            let mut z = base;
            z >>= idx as i64;
            assert_eq!(z, (bnum >> idx) & u72::MAX_VALUE);
            let mut z = base;
            z >>= idx as i128;
            assert_eq!(z, (bnum >> idx) & u72::MAX_VALUE);
        }
    }
}

#[test]
fn test_u72() {
    U72T::run();
}

struct U80T {
    random_numbers: Vec<u80>,
}

impl U80T {
    fn run() {
        let tdata = Self::make_test_data();
        for nr in &tdata.random_numbers {
            Self::rem(nr);
            Self::shift(nr);
            Self::and_or_xor(nr);
            Self::add_sub(nr);
            Self::mul_div(nr);
        }
    }

    fn make_test_data() -> U80T {
        let mut source = ByteSource::new(0x0A5EED);
        let mut dta = Vec::new();
        for _ in 0..TEST_SET_SIZE {
            let mut inner = [0u8; 10];
            source.fill(&mut inner);
            dta.push(u80::from_ne_bytes(inner));
        }
        dta.push(u80::max_value());
        dta.push(u80::min_value());

        return U80T {
            random_numbers: dta,
        };
    }

    fn add_sub(num: &u80) {
        let base = num.clone();
        let bnum = num.as_num();
        if bnum == 0 || bnum >= u80::MAX_VALUE - 32 {
            return;
        }

        let u = base + 1;
        let b = base + u80::from(1);
        assert_eq!(u, b);
        assert_ne!(base, b);
        assert_eq!(u80::from(bnum + 1), b);
        let x = base - 1;
        let y = base - u80::from(1);
        assert_eq!(x, y);
        assert_ne!(base, x);
        assert_eq!(u80::from(bnum - 1), x);
        assert_eq!(x + 2, u);
        assert_eq!(y + u80::from(2), b);
        let mut z = base;
        z += u80::from(16);
        assert_eq!(z, u80::from(bnum + 16));
        z += 16;
        assert_eq!(z, u80::from(bnum + 32));
        z -= 16;
        assert_eq!(z, u80::from(bnum + 16));
        z -= u80::from(16);
        assert_eq!(z, base);
    }

    fn mul_div(num: &u80) {
        let mut base = num.clone();
        base -= base % 3;
        if base >= u80::MAX_VALUE / 3 {
            return;
        }
        if base == 0 {
            return;
        }

        let u = base * 3;
        let b = base * u80::from(3);
        assert_eq!(u, b);
        assert_ne!(base, b);
        let x = base / 3;
        let y = base / u80::from(3);
        assert_eq!(x, y);
        assert_ne!(base, x);
        assert_eq!(x * 9, u, "{:?} - {:?} - {:?}", base, x, u);
        assert_eq!(y * u80::from(9), b);
        let mut z = base;
        z *= 3;
        assert_eq!(z, u);
        z /= 3;
        assert_eq!(z, base);
    }

    fn rem(num: &u80) {
        let base = num.clone();
        let bnum = num.as_num();

        let div_base = (u80::MAX_VALUE - u80::MAX_VALUE) + 41;

        for idx in 0..(size_of::<u80>() * 8) {
            let div = div_base << idx;
            if div >= u80::MAX_VALUE {
                return;
            }
            let mut z = base;
            let mut z2 = base;
            z %= div;
            z2 %= div;
            assert_eq!(base % div, bnum % div, "{} - {}", bnum, div);
            assert_eq!(
                base % u80::from(div),
                bnum % div,
                "{} - {}",
                bnum,
                div
            );
            assert_eq!(z, bnum % div, "{} - {}", bnum, div);
            assert_eq!(z2, bnum % div, "{} - {}", bnum, div);
        }
    }

    fn and_or_xor(num: &u80) {
        let base = num.clone();
        let bnum = num.as_num();
        let mask = 0b1010;

        for idx in 0..(size_of::<u80>() * 8) {
            let base_mask = mask << idx;
            if base_mask > u80::MAX_VALUE {
                return;
            }

            let mut z = base;
            let mut z2 = base;
            z &= base_mask;
            z2 &= u80::from(base_mask);
            assert_eq!(base & base_mask, bnum & base_mask, "{} - {}", bnum, base_mask);
            assert_eq!(base & u80::from(base_mask), bnum & base_mask, "{} - {}", bnum, base_mask);
            assert_eq!(z, bnum & base_mask, "{} - {}", bnum, base_mask);
            assert_eq!(z2, bnum & base_mask, "{} - {}", bnum, base_mask);

            let mut z = base;
            let mut z2 = base;
            z |= base_mask;
            z2 |= u80::from(base_mask);
            assert_eq!(base | base_mask, bnum | base_mask, "{} - {}", bnum, base_mask);
            assert_eq!(base | u80::from(base_mask), bnum | base_mask, "{} - {}", bnum, base_mask);
            assert_eq!(z, bnum | base_mask, "{} - {}", bnum, base_mask);
            assert_eq!(z2, bnum | base_mask, "{} - {}", bnum, base_mask);

            let mut z = base;
            let mut z2 = base;
            z ^= base_mask;
            z2 ^= u80::from(base_mask);
            assert_eq!(base ^ base_mask, bnum ^ base_mask, "{} - {}", bnum, base_mask);
            assert_eq!(base ^ u80::from(base_mask), bnum ^ base_mask, "{} - {}", bnum, base_mask);
            assert_eq!(z, bnum ^ base_mask, "{} - {}", bnum, base_mask);
            assert_eq!(z2, bnum ^ base_mask, "{} - {}", bnum, base_mask);
        }
    }

    fn shift(num: &u80) {
        let base = num.clone();
        let bnum = num.as_num();

        for idx in 0..(size_of::<u80>() * 8) {
            assert_eq!(base >> (idx as usize), (bnum >> (idx as usize)) & u80::MAX_VALUE);
            assert_eq!(base >> (idx as u8), (bnum >> (idx as u8)) & u80::MAX_VALUE);
            assert_eq!(base >> (idx as u16), (bnum >> (idx as u16)) & u80::MAX_VALUE);
            assert_eq!(base >> (idx as u32), (bnum >> (idx as u32)) & u80::MAX_VALUE);
            assert_eq!(base >> (idx as u64), (bnum >> (idx as u64)) & u80::MAX_VALUE);
            assert_eq!(base >> (idx as u128), (bnum >> (idx as u128)) & u80::MAX_VALUE);
            if idx <= i8::MAX as usize {
                assert_eq!(base >> (idx as i8), (bnum >> (idx as i8)) & u80::MAX_VALUE);
            }
            assert_eq!(base >> (idx as isize), (bnum >> (idx as isize)) & u80::MAX_VALUE);
            assert_eq!(base >> (idx as i16), (bnum >> (idx as i16)) & u80::MAX_VALUE);
            assert_eq!(base >> (idx as i32), (bnum >> (idx as i32)) & u80::MAX_VALUE);
            assert_eq!(base >> (idx as i64), (bnum >> (idx as i64)) & u80::MAX_VALUE);
            assert_eq!(base >> (idx as i128), (bnum >> (idx as i128)) & u80::MAX_VALUE);
            assert_eq!(base << (idx as usize), (bnum << (idx as usize)) & u80::MAX_VALUE);
            assert_eq!(base << (idx as u8), (bnum << (idx as u8)) & u80::MAX_VALUE);
            assert_eq!(base << (idx as u16), (bnum << (idx as u16)) & u80::MAX_VALUE);
            assert_eq!(base << (idx as u32), (bnum << (idx as u32)) & u80::MAX_VALUE);
            assert_eq!(base << (idx as u64), (bnum << (idx as u64)) & u80::MAX_VALUE);
            assert_eq!(base << (idx as u128), (bnum << (idx as u128)) & u80::MAX_VALUE);
            if idx <= i8::MAX as usize {
                assert_eq!(base << (idx as i8), (bnum << (idx as i8)) & u80::MAX_VALUE);
            }
            assert_eq!(base << (idx as isize), (bnum << (idx as isize)) & u80::MAX_VALUE);
            assert_eq!(base << (idx as i16), (bnum << (idx as i16)) & u80::MAX_VALUE);
            assert_eq!(base << (idx as i32), (bnum << (idx as i32)) & u80::MAX_VALUE);
            assert_eq!(base << (idx as i64), (bnum << (idx as i64)) & u80::MAX_VALUE);
            assert_eq!(base << (idx as i128), (bnum << (idx as i128)) & u80::MAX_VALUE);
            let mut z = base;
            z <<= idx as usize;
            assert_eq!(z, (bnum << idx) & u80::MAX_VALUE);
            let mut z = base;
            z <<= idx as u8;
            assert_eq!(z, (bnum << idx) & u80::MAX_VALUE);
            let mut z = base;
            z <<= idx as u16;
            assert_eq!(z, (bnum << idx) & u80::MAX_VALUE);
            let mut z = base;
            z <<= idx as u32;
            assert_eq!(z, (bnum << idx) & u80::MAX_VALUE);
            let mut z = base;
            z <<= idx as u64;
            assert_eq!(z, (bnum << idx) & u80::MAX_VALUE);
            let mut z = base;
            z <<= idx as u128;
            assert_eq!(z, (bnum << idx) & u80::MAX_VALUE);
            let mut z = base;
            z <<= idx as isize;
            assert_eq!(z, (bnum << idx) & u80::MAX_VALUE);
            if idx <= i8::MAX as usize {
                let mut z = base;
                z <<= idx as i8;
                assert_eq!(z, (bnum << idx) & u80::MAX_VALUE);
            }
            let mut z = base;
            z <<= idx as i16;
            assert_eq!(z, (bnum << idx) & u80::MAX_VALUE);
            let mut z = base;
            z <<= idx as i32;
            assert_eq!(z, (bnum << idx) & u80::MAX_VALUE);
            let mut z = base;
            z <<= idx as i64;
            assert_eq!(z, (bnum << idx) & u80::MAX_VALUE);
            let mut z = base;
            z <<= idx as i128;
            assert_eq!(z, (bnum << idx) & u80::MAX_VALUE);
            let mut z = base;
            z >>= idx as usize;
            assert_eq!(z, (bnum >> idx) & u80::MAX_VALUE);
            let mut z = base;
            z >>= idx as u8;
            assert_eq!(z, (bnum >> idx) & u80::MAX_VALUE);
            let mut z = base;
            z >>= idx as u16;
            assert_eq!(z, (bnum >> idx) & u80::MAX_VALUE);
            let mut z = base;
            z >>= idx as u32;
            assert_eq!(z, (bnum >> idx) & u80::MAX_VALUE);
            let mut z = base;
            z >>= idx as u64;
            assert_eq!(z, (bnum >> idx) & u80::MAX_VALUE);
            let mut z = base;
            z >>= idx as u128;
            assert_eq!(z, (bnum >> idx) & u80::MAX_VALUE);
            let mut z = base;
            z >>= idx as isize;
            assert_eq!(z, (bnum >> idx) & u80::MAX_VALUE);
            if idx <= i8::MAX as usize {
                let mut z = base;
                z >>= idx as i8;
                assert_eq!(z, (bnum >> idx) & u80::MAX_VALUE);
            }
            let mut z = base;
            z >>= idx as i16;
            assert_eq!(z, (bnum >> idx) & u80::MAX_VALUE);
            let mut z = base;
            z >>= idx as i32;
            assert_eq!(z, (bnum >> idx) & u80::MAX_VALUE);
            let mut z = base;
            z >>= idx as i64;
            assert_eq!(z, (bnum >> idx) & u80::MAX_VALUE);
            let mut z = base;
            z >>= idx as i128;
            assert_eq!(z, (bnum >> idx) & u80::MAX_VALUE);
        }
    }
}

#[test]
fn test_u80() {
    U80T::run();
}

struct U88T {
    random_numbers: Vec<u88>,
}

impl U88T {
    fn run() {
        let tdata = Self::make_test_data();
        for nr in &tdata.random_numbers {
            Self::rem(nr);
            Self::shift(nr);
            Self::and_or_xor(nr);
            Self::add_sub(nr);
            Self::mul_div(nr);
        }
    }

    fn make_test_data() -> U88T {
        let mut source = ByteSource::new(0x0B5EED);
        let mut dta = Vec::new();
        for _ in 0..TEST_SET_SIZE {
            let mut inner = [0u8; 11];
            source.fill(&mut inner);
            dta.push(u88::from_ne_bytes(inner));
        }
        dta.push(u88::max_value());
        dta.push(u88::min_value());

        return U88T {
            random_numbers: dta,
        };
    }

    fn add_sub(num: &u88) {
        let base = num.clone();
        let bnum = num.as_num();
        if bnum == 0 || bnum >= u88::MAX_VALUE - 32 {
            return;
        }

        let u = base + 1;
        let b = base + u88::from(1);
        assert_eq!(u, b);
        assert_ne!(base, b);
        assert_eq!(u88::from(bnum + 1), b);
        let x = base - 1;
        let y = base - u88::from(1);
        assert_eq!(x, y);
        assert_ne!(base, x);
        assert_eq!(u88::from(bnum - 1), x);
        assert_eq!(x + 2, u);
        assert_eq!(y + u88::from(2), b);
        let mut z = base;
        z += u88::from(16);
        assert_eq!(z, u88::from(bnum + 16));
        z += 16;
        assert_eq!(z, u88::from(bnum + 32));
        z -= 16;
        assert_eq!(z, u88::from(bnum + 16));
        z -= u88::from(16);
        assert_eq!(z, base);
    }

    fn mul_div(num: &u88) {
        let mut base = num.clone();
        base -= base % 3;
        if base >= u88::MAX_VALUE / 3 {
            return;
        }
        if base == 0 {
            return;
        }

        let u = base * 3;
        let b = base * u88::from(3);
        assert_eq!(u, b);
        assert_ne!(base, b);
        let x = base / 3;
        let y = base / u88::from(3);
        assert_eq!(x, y);
        assert_ne!(base, x);
        assert_eq!(x * 9, u, "{:?} - {:?} - {:?}", base, x, u);
        assert_eq!(y * u88::from(9), b);
        let mut z = base;
        z *= 3;
        assert_eq!(z, u);
        z /= 3;
        assert_eq!(z, base);
    }

    fn rem(num: &u88) {
        let base = num.clone();
        let bnum = num.as_num();

        let div_base = (u88::MAX_VALUE - u88::MAX_VALUE) + 41;

        for idx in 0..(size_of::<u88>() * 8) {
            let div = div_base << idx;
            if div >= u88::MAX_VALUE {
                return;
            }
            let mut z = base;
            let mut z2 = base;
            z %= div;
            z2 %= div;
            assert_eq!(base % div, bnum % div, "{} - {}", bnum, div);
            assert_eq!(
                base % u88::from(div),
                bnum % div,
                "{} - {}",
                bnum,
                div
            );
            assert_eq!(z, bnum % div, "{} - {}", bnum, div);
            assert_eq!(z2, bnum % div, "{} - {}", bnum, div);
        }
    }

    fn and_or_xor(num: &u88) {
        let base = num.clone();
        let bnum = num.as_num();
        let mask = 0b1010;

        for idx in 0..(size_of::<u88>() * 8) {
            let base_mask = mask << idx;
            if base_mask > u88::MAX_VALUE {
                return;
            }

            let mut z = base;
            let mut z2 = base;
            z &= base_mask;
            z2 &= u88::from(base_mask);
            assert_eq!(base & base_mask, bnum & base_mask, "{} - {}", bnum, base_mask);
            assert_eq!(base & u88::from(base_mask), bnum & base_mask, "{} - {}", bnum, base_mask);
            assert_eq!(z, bnum & base_mask, "{} - {}", bnum, base_mask);
            assert_eq!(z2, bnum & base_mask, "{} - {}", bnum, base_mask);

            let mut z = base;
            let mut z2 = base;
            z |= base_mask;
            z2 |= u88::from(base_mask);
            assert_eq!(base | base_mask, bnum | base_mask, "{} - {}", bnum, base_mask);
            assert_eq!(base | u88::from(base_mask), bnum | base_mask, "{} - {}", bnum, base_mask);
            assert_eq!(z, bnum | base_mask, "{} - {}", bnum, base_mask);
            assert_eq!(z2, bnum | base_mask, "{} - {}", bnum, base_mask);

            let mut z = base;
            let mut z2 = base;
            z ^= base_mask;
            z2 ^= u88::from(base_mask);
            assert_eq!(base ^ base_mask, bnum ^ base_mask, "{} - {}", bnum, base_mask);
            assert_eq!(base ^ u88::from(base_mask), bnum ^ base_mask, "{} - {}", bnum, base_mask);
            assert_eq!(z, bnum ^ base_mask, "{} - {}", bnum, base_mask);
            assert_eq!(z2, bnum ^ base_mask, "{} - {}", bnum, base_mask);
        }
    }

    fn shift(num: &u88) {
        let base = num.clone();
        let bnum = num.as_num();

        for idx in 0..(size_of::<u88>() * 8) {
            assert_eq!(base >> (idx as usize), (bnum >> (idx as usize)) & u88::MAX_VALUE);
            assert_eq!(base >> (idx as u8), (bnum >> (idx as u8)) & u88::MAX_VALUE);
            assert_eq!(base >> (idx as u16), (bnum >> (idx as u16)) & u88::MAX_VALUE);
            assert_eq!(base >> (idx as u32), (bnum >> (idx as u32)) & u88::MAX_VALUE);
            assert_eq!(base >> (idx as u64), (bnum >> (idx as u64)) & u88::MAX_VALUE);
            assert_eq!(base >> (idx as u128), (bnum >> (idx as u128)) & u88::MAX_VALUE);
            if idx <= i8::MAX as usize {
                assert_eq!(base >> (idx as i8), (bnum >> (idx as i8)) & u88::MAX_VALUE);
            }
            assert_eq!(base >> (idx as isize), (bnum >> (idx as isize)) & u88::MAX_VALUE);
            assert_eq!(base >> (idx as i16), (bnum >> (idx as i16)) & u88::MAX_VALUE);
            assert_eq!(base >> (idx as i32), (bnum >> (idx as i32)) & u88::MAX_VALUE);
            assert_eq!(base >> (idx as i64), (bnum >> (idx as i64)) & u88::MAX_VALUE);
            assert_eq!(base >> (idx as i128), (bnum >> (idx as i128)) & u88::MAX_VALUE);
            assert_eq!(base << (idx as usize), (bnum << (idx as usize)) & u88::MAX_VALUE);
            assert_eq!(base << (idx as u8), (bnum << (idx as u8)) & u88::MAX_VALUE);
            assert_eq!(base << (idx as u16), (bnum << (idx as u16)) & u88::MAX_VALUE);
            assert_eq!(base << (idx as u32), (bnum << (idx as u32)) & u88::MAX_VALUE);
            assert_eq!(base << (idx as u64), (bnum << (idx as u64)) & u88::MAX_VALUE);
            assert_eq!(base << (idx as u128), (bnum << (idx as u128)) & u88::MAX_VALUE);
            if idx <= i8::MAX as usize {
                assert_eq!(base << (idx as i8), (bnum << (idx as i8)) & u88::MAX_VALUE);
            }
            assert_eq!(base << (idx as isize), (bnum << (idx as isize)) & u88::MAX_VALUE);
            assert_eq!(base << (idx as i16), (bnum << (idx as i16)) & u88::MAX_VALUE);
            assert_eq!(base << (idx as i32), (bnum << (idx as i32)) & u88::MAX_VALUE);
            assert_eq!(base << (idx as i64), (bnum << (idx as i64)) & u88::MAX_VALUE);
            assert_eq!(base << (idx as i128), (bnum << (idx as i128)) & u88::MAX_VALUE);
            let mut z = base;
            z <<= idx as usize;
            assert_eq!(z, (bnum << idx) & u88::MAX_VALUE);
            let mut z = base;
            z <<= idx as u8;
            assert_eq!(z, (bnum << idx) & u88::MAX_VALUE);
            let mut z = base;
            z <<= idx as u16;
            assert_eq!(z, (bnum << idx) & u88::MAX_VALUE);
            let mut z = base;
            z <<= idx as u32;
            assert_eq!(z, (bnum << idx) & u88::MAX_VALUE);
            let mut z = base;
            z <<= idx as u64;
            assert_eq!(z, (bnum << idx) & u88::MAX_VALUE);
            let mut z = base;
            z <<= idx as u128;
            assert_eq!(z, (bnum << idx) & u88::MAX_VALUE);
            let mut z = base;
            z <<= idx as isize;
            assert_eq!(z, (bnum << idx) & u88::MAX_VALUE);
            if idx <= i8::MAX as usize {
                let mut z = base;
                z <<= idx as i8;
                assert_eq!(z, (bnum << idx) & u88::MAX_VALUE);
            }
            let mut z = base;
            z <<= idx as i16;
            assert_eq!(z, (bnum << idx) & u88::MAX_VALUE);
            let mut z = base;
            z <<= idx as i32;
            assert_eq!(z, (bnum << idx) & u88::MAX_VALUE);
            let mut z = base;
            z <<= idx as i64;
            assert_eq!(z, (bnum << idx) & u88::MAX_VALUE);
            let mut z = base;
            z <<= idx as i128;
            assert_eq!(z, (bnum << idx) & u88::MAX_VALUE);
            let mut z = base;
            z >>= idx as usize;
            assert_eq!(z, (bnum >> idx) & u88::MAX_VALUE);
            let mut z = base;
            z >>= idx as u8;
            assert_eq!(z, (bnum >> idx) & u88::MAX_VALUE);
            let mut z = base;
            z >>= idx as u16;
            assert_eq!(z, (bnum >> idx) & u88::MAX_VALUE);
            let mut z = base;
            z >>= idx as u32;
            assert_eq!(z, (bnum >> idx) & u88::MAX_VALUE);
            let mut z = base;
            z >>= idx as u64;
            assert_eq!(z, (bnum >> idx) & u88::MAX_VALUE);
            let mut z = base;
            z >>= idx as u128;
            assert_eq!(z, (bnum >> idx) & u88::MAX_VALUE);
            let mut z = base;
            z >>= idx as isize;
            assert_eq!(z, (bnum >> idx) & u88::MAX_VALUE);
            if idx <= i8::MAX as usize {
                let mut z = base;
                z >>= idx as i8;
                assert_eq!(z, (bnum >> idx) & u88::MAX_VALUE);
            }
            let mut z = base;
            z >>= idx as i16;
            assert_eq!(z, (bnum >> idx) & u88::MAX_VALUE);
            let mut z = base;
            z >>= idx as i32;
            assert_eq!(z, (bnum >> idx) & u88::MAX_VALUE);
            let mut z = base;
            z >>= idx as i64;
            assert_eq!(z, (bnum >> idx) & u88::MAX_VALUE);
            let mut z = base;
            z >>= idx as i128;
            assert_eq!(z, (bnum >> idx) & u88::MAX_VALUE);
        }
    }
}

#[test]
fn test_u88() {
    U88T::run();
}

struct U96T {
    random_numbers: Vec<u96>,
}

impl U96T {
    fn run() {
        let tdata = Self::make_test_data();
        for nr in &tdata.random_numbers {
            Self::rem(nr);
            Self::shift(nr);
            Self::and_or_xor(nr);
            Self::add_sub(nr);
            Self::mul_div(nr);
        }
    }

    fn make_test_data() -> U96T {
        let mut source = ByteSource::new(0x0C5EED);
        let mut dta = Vec::new();
        for _ in 0..TEST_SET_SIZE {
            let mut inner = [0u8; 12];
            source.fill(&mut inner);
            dta.push(u96::from_ne_bytes(inner));
        }
        dta.push(u96::max_value());
        dta.push(u96::min_value());

        return U96T {
            random_numbers: dta,
        };
    }

    fn add_sub(num: &u96) {
        let base = num.clone();
        let bnum = num.as_num();
        if bnum == 0 || bnum >= u96::MAX_VALUE - 32 {
            return;
        }

        let u = base + 1;
        let b = base + u96::from(1);
        assert_eq!(u, b);
        assert_ne!(base, b);
        assert_eq!(u96::from(bnum + 1), b);
        let x = base - 1;
        let y = base - u96::from(1);
        assert_eq!(x, y);
        assert_ne!(base, x);
        assert_eq!(u96::from(bnum - 1), x);
        assert_eq!(x + 2, u);
        assert_eq!(y + u96::from(2), b);
        let mut z = base;
        z += u96::from(16);
        assert_eq!(z, u96::from(bnum + 16));
        z += 16;
        assert_eq!(z, u96::from(bnum + 32));
        z -= 16;
        assert_eq!(z, u96::from(bnum + 16));
        z -= u96::from(16);
        assert_eq!(z, base);
    }

    fn mul_div(num: &u96) {
        let mut base = num.clone();
        base -= base % 3;
        if base >= u96::MAX_VALUE / 3 {
            return;
        }
        if base == 0 {
            return;
        }

        let u = base * 3;
        let b = base * u96::from(3);
        assert_eq!(u, b);
        assert_ne!(base, b);
        let x = base / 3;
        let y = base / u96::from(3);
        assert_eq!(x, y);
        assert_ne!(base, x);
        assert_eq!(x * 9, u, "{:?} - {:?} - {:?}", base, x, u);
        assert_eq!(y * u96::from(9), b);
        let mut z = base;
        z *= 3;
        assert_eq!(z, u);
        z /= 3;
        assert_eq!(z, base);
    }

    fn rem(num: &u96) {
        let base = num.clone();
        let bnum = num.as_num();

        let div_base = (u96::MAX_VALUE - u96::MAX_VALUE) + 41;

        for idx in 0..(size_of::<u96>() * 8) {
            let div = div_base << idx;
            if div >= u96::MAX_VALUE {
                return;
            }
            let mut z = base;
            let mut z2 = base;
            z %= div;
            z2 %= div;
            assert_eq!(base % div, bnum % div, "{} - {}", bnum, div);
            assert_eq!(
                base % u96::from(div),
                bnum % div,
                "{} - {}",
                bnum,
                div
            );
            assert_eq!(z, bnum % div, "{} - {}", bnum, div);
            assert_eq!(z2, bnum % div, "{} - {}", bnum, div);
        }
    }

    fn and_or_xor(num: &u96) {
        let base = num.clone();
        let bnum = num.as_num();
        let mask = 0b1010;

        for idx in 0..(size_of::<u96>() * 8) {
            let base_mask = mask << idx;
            if base_mask > u96::MAX_VALUE {
                return;
            }

            let mut z = base;
            let mut z2 = base;
            z &= base_mask;
            z2 &= u96::from(base_mask);
            assert_eq!(base & base_mask, bnum & base_mask, "{} - {}", bnum, base_mask);
            assert_eq!(base & u96::from(base_mask), bnum & base_mask, "{} - {}", bnum, base_mask);
            assert_eq!(z, bnum & base_mask, "{} - {}", bnum, base_mask);
            assert_eq!(z2, bnum & base_mask, "{} - {}", bnum, base_mask);

            let mut z = base;
            let mut z2 = base;
            z |= base_mask;
            z2 |= u96::from(base_mask);
            assert_eq!(base | base_mask, bnum | base_mask, "{} - {}", bnum, base_mask);
            assert_eq!(base | u96::from(base_mask), bnum | base_mask, "{} - {}", bnum, base_mask);
            assert_eq!(z, bnum | base_mask, "{} - {}", bnum, base_mask);
            assert_eq!(z2, bnum | base_mask, "{} - {}", bnum, base_mask);

            let mut z = base;
            let mut z2 = base;
            z ^= base_mask;
            z2 ^= u96::from(base_mask);
            assert_eq!(base ^ base_mask, bnum ^ base_mask, "{} - {}", bnum, base_mask);
            assert_eq!(base ^ u96::from(base_mask), bnum ^ base_mask, "{} - {}", bnum, base_mask);
            assert_eq!(z, bnum ^ base_mask, "{} - {}", bnum, base_mask);
            assert_eq!(z2, bnum ^ base_mask, "{} - {}", bnum, base_mask);
        }
    }

    fn shift(num: &u96) {
        let base = num.clone();
        let bnum = num.as_num();

        for idx in 0..(size_of::<u96>() * 8) {
            assert_eq!(base >> (idx as usize), (bnum >> (idx as usize)) & u96::MAX_VALUE);
            assert_eq!(base >> (idx as u8), (bnum >> (idx as u8)) & u96::MAX_VALUE);
            assert_eq!(base >> (idx as u16), (bnum >> (idx as u16)) & u96::MAX_VALUE);
            assert_eq!(base >> (idx as u32), (bnum >> (idx as u32)) & u96::MAX_VALUE);
            assert_eq!(base >> (idx as u64), (bnum >> (idx as u64)) & u96::MAX_VALUE);
            assert_eq!(base >> (idx as u128), (bnum >> (idx as u128)) & u96::MAX_VALUE);
            if idx <= i8::MAX as usize {
                assert_eq!(base >> (idx as i8), (bnum >> (idx as i8)) & u96::MAX_VALUE);
            }
            assert_eq!(base >> (idx as isize), (bnum >> (idx as isize)) & u96::MAX_VALUE);
            assert_eq!(base >> (idx as i16), (bnum >> (idx as i16)) & u96::MAX_VALUE);
            assert_eq!(base >> (idx as i32), (bnum >> (idx as i32)) & u96::MAX_VALUE);
            assert_eq!(base >> (idx as i64), (bnum >> (idx as i64)) & u96::MAX_VALUE);
            assert_eq!(base >> (idx as i128), (bnum >> (idx as i128)) & u96::MAX_VALUE);
            assert_eq!(base << (idx as usize), (bnum << (idx as usize)) & u96::MAX_VALUE);
            assert_eq!(base << (idx as u8), (bnum << (idx as u8)) & u96::MAX_VALUE);
            assert_eq!(base << (idx as u16), (bnum << (idx as u16)) & u96::MAX_VALUE);
            assert_eq!(base << (idx as u32), (bnum << (idx as u32)) & u96::MAX_VALUE);
            assert_eq!(base << (idx as u64), (bnum << (idx as u64)) & u96::MAX_VALUE);
            assert_eq!(base << (idx as u128), (bnum << (idx as u128)) & u96::MAX_VALUE);
            if idx <= i8::MAX as usize {
                assert_eq!(base << (idx as i8), (bnum << (idx as i8)) & u96::MAX_VALUE);
            }
            assert_eq!(base << (idx as isize), (bnum << (idx as isize)) & u96::MAX_VALUE);
            assert_eq!(base << (idx as i16), (bnum << (idx as i16)) & u96::MAX_VALUE);
            assert_eq!(base << (idx as i32), (bnum << (idx as i32)) & u96::MAX_VALUE);
            assert_eq!(base << (idx as i64), (bnum << (idx as i64)) & u96::MAX_VALUE);
            assert_eq!(base << (idx as i128), (bnum << (idx as i128)) & u96::MAX_VALUE);
            let mut z = base;
            z <<= idx as usize;
            assert_eq!(z, (bnum << idx) & u96::MAX_VALUE);
            let mut z = base;
            z <<= idx as u8;
            assert_eq!(z, (bnum << idx) & u96::MAX_VALUE);
            let mut z = base;
            z <<= idx as u16;
            assert_eq!(z, (bnum << idx) & u96::MAX_VALUE);
            let mut z = base;
            z <<= idx as u32;
            assert_eq!(z, (bnum << idx) & u96::MAX_VALUE);
            let mut z = base;
            z <<= idx as u64;
            assert_eq!(z, (bnum << idx) & u96::MAX_VALUE);
            let mut z = base;
            z <<= idx as u128;
            assert_eq!(z, (bnum << idx) & u96::MAX_VALUE);
            let mut z = base;
            z <<= idx as isize;
            assert_eq!(z, (bnum << idx) & u96::MAX_VALUE);
            if idx <= i8::MAX as usize {
                let mut z = base;
                z <<= idx as i8;
                assert_eq!(z, (bnum << idx) & u96::MAX_VALUE);
            }
            let mut z = base;
            z <<= idx as i16;
            assert_eq!(z, (bnum << idx) & u96::MAX_VALUE);
            let mut z = base;
            z <<= idx as i32;
            assert_eq!(z, (bnum << idx) & u96::MAX_VALUE);
            let mut z = base;
            z <<= idx as i64;
            assert_eq!(z, (bnum << idx) & u96::MAX_VALUE);
            let mut z = base;
            z <<= idx as i128;
            assert_eq!(z, (bnum << idx) & u96::MAX_VALUE);
            let mut z = base;
            z >>= idx as usize;
            assert_eq!(z, (bnum >> idx) & u96::MAX_VALUE);
            let mut z = base;
            z >>= idx as u8;
            assert_eq!(z, (bnum >> idx) & u96::MAX_VALUE);
            let mut z = base;
            z >>= idx as u16;
            assert_eq!(z, (bnum >> idx) & u96::MAX_VALUE);
            let mut z = base;
            z >>= idx as u32;
            assert_eq!(z, (bnum >> idx) & u96::MAX_VALUE);
            let mut z = base;
            z >>= idx as u64;
            assert_eq!(z, (bnum >> idx) & u96::MAX_VALUE);
            let mut z = base;
            z >>= idx as u128;
            assert_eq!(z, (bnum >> idx) & u96::MAX_VALUE);
            let mut z = base;
            z >>= idx as isize;
            assert_eq!(z, (bnum >> idx) & u96::MAX_VALUE);
            if idx <= i8::MAX as usize {
                let mut z = base;
                z >>= idx as i8;
                assert_eq!(z, (bnum >> idx) & u96::MAX_VALUE);
            }
            let mut z = base;
            z >>= idx as i16;
            assert_eq!(z, (bnum >> idx) & u96::MAX_VALUE);
            let mut z = base;
            z >>= idx as i32;
            assert_eq!(z, (bnum >> idx) & u96::MAX_VALUE);
            let mut z = base;
            z >>= idx as i64;
            assert_eq!(z, (bnum >> idx) & u96::MAX_VALUE);
            let mut z = base;
            z >>= idx as i128;
            assert_eq!(z, (bnum >> idx) & u96::MAX_VALUE);
        }
    }
}

#[test]
fn test_u96() {
    U96T::run();
}

struct U104T {
    random_numbers: Vec<u104>,
}

impl U104T {
    fn run() {
        let tdata = Self::make_test_data();
        for nr in &tdata.random_numbers {
            Self::rem(nr);
            Self::shift(nr);
            Self::and_or_xor(nr);
            Self::add_sub(nr);
            Self::mul_div(nr);
        }
    }

    fn make_test_data() -> U104T {
        let mut source = ByteSource::new(0x0D5EED);
        let mut dta = Vec::new();
        for _ in 0..TEST_SET_SIZE {
            let mut inner = [0u8; 13];
            source.fill(&mut inner);
            dta.push(u104::from_ne_bytes(inner));
        }
        dta.push(u104::max_value());
        dta.push(u104::min_value());

        return U104T {
            random_numbers: dta,
        };
    }

    fn add_sub(num: &u104) {
        let base = num.clone();
        let bnum = num.as_num();
        if bnum == 0 || bnum >= u104::MAX_VALUE - 32 {
            return;
        }

        let u = base + 1;
        let b = base + u104::from(1);
        assert_eq!(u, b);
        assert_ne!(base, b);
        assert_eq!(u104::from(bnum + 1), b);
        let x = base - 1;
        let y = base - u104::from(1);
        assert_eq!(x, y);
        assert_ne!(base, x);
        assert_eq!(u104::from(bnum - 1), x);
        assert_eq!(x + 2, u);
        assert_eq!(y + u104::from(2), b);
        let mut z = base;
        z += u104::from(16);
        assert_eq!(z, u104::from(bnum + 16));
        z += 16;
        assert_eq!(z, u104::from(bnum + 32));
        z -= 16;
        assert_eq!(z, u104::from(bnum + 16));
        z -= u104::from(16);
        assert_eq!(z, base);
    }

    fn mul_div(num: &u104) {
        let mut base = num.clone();
        base -= base % 3;
        if base >= u104::MAX_VALUE / 3 {
            return;
        }
        if base == 0 {
            return;
        }

        let u = base * 3;
        let b = base * u104::from(3);
        assert_eq!(u, b);
        assert_ne!(base, b);
        let x = base / 3;
        let y = base / u104::from(3);
        assert_eq!(x, y);
        assert_ne!(base, x);
        assert_eq!(x * 9, u, "{:?} - {:?} - {:?}", base, x, u);
        assert_eq!(y * u104::from(9), b);
        let mut z = base;
        z *= 3;
        assert_eq!(z, u);
        z /= 3;
        assert_eq!(z, base);
    }

    fn rem(num: &u104) {
        let base = num.clone();
        let bnum = num.as_num();

        let div_base = (u104::MAX_VALUE - u104::MAX_VALUE) + 41;

        for idx in 0..(size_of::<u104>() * 8) {
            let div = div_base << idx;
            if div >= u104::MAX_VALUE {
                return;
            }
            let mut z = base;
            let mut z2 = base;
            z %= div;
            z2 %= div;
            assert_eq!(base % div, bnum % div, "{} - {}", bnum, div);
            assert_eq!(
                base % u104::from(div),
                bnum % div,
                "{} - {}",
                bnum,
                div
            );
            assert_eq!(z, bnum % div, "{} - {}", bnum, div);
            assert_eq!(z2, bnum % div, "{} - {}", bnum, div);
        }
    }

    fn and_or_xor(num: &u104) {
        let base = num.clone();
        let bnum = num.as_num();
        let mask = 0b1010;

        for idx in 0..(size_of::<u104>() * 8) {
            let base_mask = mask << idx;
            if base_mask > u104::MAX_VALUE {
                return;
            }

            let mut z = base;
            let mut z2 = base;
            z &= base_mask;
            z2 &= u104::from(base_mask);
            assert_eq!(base & base_mask, bnum & base_mask, "{} - {}", bnum, base_mask);
            assert_eq!(base & u104::from(base_mask), bnum & base_mask, "{} - {}", bnum, base_mask);
            assert_eq!(z, bnum & base_mask, "{} - {}", bnum, base_mask);
            assert_eq!(z2, bnum & base_mask, "{} - {}", bnum, base_mask);

            let mut z = base;
            let mut z2 = base;
            z |= base_mask;
            z2 |= u104::from(base_mask);
            assert_eq!(base | base_mask, bnum | base_mask, "{} - {}", bnum, base_mask);
            assert_eq!(base | u104::from(base_mask), bnum | base_mask, "{} - {}", bnum, base_mask);
            assert_eq!(z, bnum | base_mask, "{} - {}", bnum, base_mask);
            assert_eq!(z2, bnum | base_mask, "{} - {}", bnum, base_mask);

            let mut z = base;
            let mut z2 = base;
            z ^= base_mask;
            z2 ^= u104::from(base_mask);
            assert_eq!(base ^ base_mask, bnum ^ base_mask, "{} - {}", bnum, base_mask);
            assert_eq!(base ^ u104::from(base_mask), bnum ^ base_mask, "{} - {}", bnum, base_mask);
            assert_eq!(z, bnum ^ base_mask, "{} - {}", bnum, base_mask);
            assert_eq!(z2, bnum ^ base_mask, "{} - {}", bnum, base_mask);
        }
    }

    fn shift(num: &u104) {
        let base = num.clone();
        let bnum = num.as_num();

        for idx in 0..(size_of::<u104>() * 8) {
            assert_eq!(base >> (idx as usize), (bnum >> (idx as usize)) & u104::MAX_VALUE);
            assert_eq!(base >> (idx as u8), (bnum >> (idx as u8)) & u104::MAX_VALUE);
            assert_eq!(base >> (idx as u16), (bnum >> (idx as u16)) & u104::MAX_VALUE);
            assert_eq!(base >> (idx as u32), (bnum >> (idx as u32)) & u104::MAX_VALUE);
            assert_eq!(base >> (idx as u64), (bnum >> (idx as u64)) & u104::MAX_VALUE);
            assert_eq!(base >> (idx as u128), (bnum >> (idx as u128)) & u104::MAX_VALUE);
            if idx <= i8::MAX as usize {
                assert_eq!(base >> (idx as i8), (bnum >> (idx as i8)) & u104::MAX_VALUE);
            }
            assert_eq!(base >> (idx as isize), (bnum >> (idx as isize)) & u104::MAX_VALUE);
            assert_eq!(base >> (idx as i16), (bnum >> (idx as i16)) & u104::MAX_VALUE);
            assert_eq!(base >> (idx as i32), (bnum >> (idx as i32)) & u104::MAX_VALUE);
            assert_eq!(base >> (idx as i64), (bnum >> (idx as i64)) & u104::MAX_VALUE);
            assert_eq!(base >> (idx as i128), (bnum >> (idx as i128)) & u104::MAX_VALUE);
            assert_eq!(base << (idx as usize), (bnum << (idx as usize)) & u104::MAX_VALUE);
            assert_eq!(base << (idx as u8), (bnum << (idx as u8)) & u104::MAX_VALUE);
            assert_eq!(base << (idx as u16), (bnum << (idx as u16)) & u104::MAX_VALUE);
            assert_eq!(base << (idx as u32), (bnum << (idx as u32)) & u104::MAX_VALUE);
            assert_eq!(base << (idx as u64), (bnum << (idx as u64)) & u104::MAX_VALUE);
            assert_eq!(base << (idx as u128), (bnum << (idx as u128)) & u104::MAX_VALUE);
            if idx <= i8::MAX as usize {
                assert_eq!(base << (idx as i8), (bnum << (idx as i8)) & u104::MAX_VALUE);
            }
            assert_eq!(base << (idx as isize), (bnum << (idx as isize)) & u104::MAX_VALUE);
            assert_eq!(base << (idx as i16), (bnum << (idx as i16)) & u104::MAX_VALUE);
            assert_eq!(base << (idx as i32), (bnum << (idx as i32)) & u104::MAX_VALUE);
            assert_eq!(base << (idx as i64), (bnum << (idx as i64)) & u104::MAX_VALUE);
            assert_eq!(base << (idx as i128), (bnum << (idx as i128)) & u104::MAX_VALUE);
            let mut z = base;
            z <<= idx as usize;
            assert_eq!(z, (bnum << idx) & u104::MAX_VALUE);
            let mut z = base;
            z <<= idx as u8;
            assert_eq!(z, (bnum << idx) & u104::MAX_VALUE);
            let mut z = base;
            z <<= idx as u16;
            assert_eq!(z, (bnum << idx) & u104::MAX_VALUE);
            let mut z = base;
            z <<= idx as u32;
            assert_eq!(z, (bnum << idx) & u104::MAX_VALUE);
            let mut z = base;
            z <<= idx as u64;
            assert_eq!(z, (bnum << idx) & u104::MAX_VALUE);
            let mut z = base;
            z <<= idx as u128;
            assert_eq!(z, (bnum << idx) & u104::MAX_VALUE);
            let mut z = base;
            z <<= idx as isize;
            assert_eq!(z, (bnum << idx) & u104::MAX_VALUE);
            if idx <= i8::MAX as usize {
                let mut z = base;
                z <<= idx as i8;
                assert_eq!(z, (bnum << idx) & u104::MAX_VALUE);
            }
            let mut z = base;
            z <<= idx as i16;
            assert_eq!(z, (bnum << idx) & u104::MAX_VALUE);
            let mut z = base;
            z <<= idx as i32;
            assert_eq!(z, (bnum << idx) & u104::MAX_VALUE);
            let mut z = base;
            z <<= idx as i64;
            assert_eq!(z, (bnum << idx) & u104::MAX_VALUE);
            let mut z = base;
            z <<= idx as i128;
            assert_eq!(z, (bnum << idx) & u104::MAX_VALUE);
            let mut z = base;
            z >>= idx as usize;
            assert_eq!(z, (bnum >> idx) & u104::MAX_VALUE);
            let mut z = base;
            z >>= idx as u8;
            assert_eq!(z, (bnum >> idx) & u104::MAX_VALUE);
            let mut z = base;
            z >>= idx as u16;
            assert_eq!(z, (bnum >> idx) & u104::MAX_VALUE);
            let mut z = base;
            z >>= idx as u32;
            assert_eq!(z, (bnum >> idx) & u104::MAX_VALUE);
            let mut z = base;
            z >>= idx as u64;
            assert_eq!(z, (bnum >> idx) & u104::MAX_VALUE);
            let mut z = base;
            z >>= idx as u128;
            assert_eq!(z, (bnum >> idx) & u104::MAX_VALUE);
            let mut z = base;
            z >>= idx as isize;
            assert_eq!(z, (bnum >> idx) & u104::MAX_VALUE);
            if idx <= i8::MAX as usize {
                let mut z = base;
                z >>= idx as i8;
                assert_eq!(z, (bnum >> idx) & u104::MAX_VALUE);
            }
            let mut z = base;
            z >>= idx as i16;
            assert_eq!(z, (bnum >> idx) & u104::MAX_VALUE);
            let mut z = base;
            z >>= idx as i32;
            assert_eq!(z, (bnum >> idx) & u104::MAX_VALUE);
            let mut z = base;
            z >>= idx as i64;
            assert_eq!(z, (bnum >> idx) & u104::MAX_VALUE);
            let mut z = base;
            z >>= idx as i128;
            assert_eq!(z, (bnum >> idx) & u104::MAX_VALUE);
        }
    }
}

#[test]
fn test_u104() {
    U104T::run();
}

struct U112T {
    random_numbers: Vec<u112>,
}

impl U112T {
    fn run() {
        let tdata = Self::make_test_data();
        for nr in &tdata.random_numbers {
            Self::rem(nr);
            Self::shift(nr);
            Self::and_or_xor(nr);
            Self::add_sub(nr);
            Self::mul_div(nr);
        }
    }

    fn make_test_data() -> U112T {
        let mut source = ByteSource::new(0x0E5EED);
        let mut dta = Vec::new();
        for _ in 0..TEST_SET_SIZE {
            let mut inner = [0u8; 14];
            source.fill(&mut inner);
            dta.push(u112::from_ne_bytes(inner));
        }
        dta.push(u112::max_value());
        dta.push(u112::min_value());

        return U112T {
            random_numbers: dta,
        };
    }

    fn add_sub(num: &u112) {
        let base = num.clone();
        let bnum = num.as_num();
        if bnum == 0 || bnum >= u112::MAX_VALUE - 32 {
            return;
        }

        let u = base + 1;
        let b = base + u112::from(1);
        assert_eq!(u, b);
        assert_ne!(base, b);
        assert_eq!(u112::from(bnum + 1), b);
        let x = base - 1;
        let y = base - u112::from(1);
        assert_eq!(x, y);
        assert_ne!(base, x);
        assert_eq!(u112::from(bnum - 1), x);
        assert_eq!(x + 2, u);
        assert_eq!(y + u112::from(2), b);
        let mut z = base;
        z += u112::from(16);
        assert_eq!(z, u112::from(bnum + 16));
        z += 16;
        assert_eq!(z, u112::from(bnum + 32));
        z -= 16;
        assert_eq!(z, u112::from(bnum + 16));
        z -= u112::from(16);
        assert_eq!(z, base);
    }

    fn mul_div(num: &u112) {
        let mut base = num.clone();
        base -= base % 3;
        if base >= u112::MAX_VALUE / 3 {
            return;
        }
        if base == 0 {
            return;
        }

        let u = base * 3;
        let b = base * u112::from(3);
        assert_eq!(u, b);
        assert_ne!(base, b);
        let x = base / 3;
        let y = base / u112::from(3);
        assert_eq!(x, y);
        assert_ne!(base, x);
        assert_eq!(x * 9, u, "{:?} - {:?} - {:?}", base, x, u);
        assert_eq!(y * u112::from(9), b);
        let mut z = base;
        z *= 3;
        assert_eq!(z, u);
        z /= 3;
        assert_eq!(z, base);
    }

    fn rem(num: &u112) {
        let base = num.clone();
        let bnum = num.as_num();

        let div_base = (u112::MAX_VALUE - u112::MAX_VALUE) + 41;

        for idx in 0..(size_of::<u112>() * 8) {
            let div = div_base << idx;
            if div >= u112::MAX_VALUE {
                return;
            }
            let mut z = base;
            let mut z2 = base;
            z %= div;
            z2 %= div;
            assert_eq!(base % div, bnum % div, "{} - {}", bnum, div);
            assert_eq!(
                base % u112::from(div),
                bnum % div,
                "{} - {}",
                bnum,
                div
            );
            assert_eq!(z, bnum % div, "{} - {}", bnum, div);
            assert_eq!(z2, bnum % div, "{} - {}", bnum, div);
        }
    }

    fn and_or_xor(num: &u112) {
        let base = num.clone();
        let bnum = num.as_num();
        let mask = 0b1010;

        for idx in 0..(size_of::<u112>() * 8) {
            let base_mask = mask << idx;
            if base_mask > u112::MAX_VALUE {
                return;
            }

            let mut z = base;
            let mut z2 = base;
            z &= base_mask;
            z2 &= u112::from(base_mask);
            assert_eq!(base & base_mask, bnum & base_mask, "{} - {}", bnum, base_mask);
            assert_eq!(base & u112::from(base_mask), bnum & base_mask, "{} - {}", bnum, base_mask);
            assert_eq!(z, bnum & base_mask, "{} - {}", bnum, base_mask);
            assert_eq!(z2, bnum & base_mask, "{} - {}", bnum, base_mask);

            let mut z = base;
            let mut z2 = base;
            z |= base_mask;
            z2 |= u112::from(base_mask);
            assert_eq!(base | base_mask, bnum | base_mask, "{} - {}", bnum, base_mask);
            assert_eq!(base | u112::from(base_mask), bnum | base_mask, "{} - {}", bnum, base_mask);
            assert_eq!(z, bnum | base_mask, "{} - {}", bnum, base_mask);
            assert_eq!(z2, bnum | base_mask, "{} - {}", bnum, base_mask);

            let mut z = base;
            let mut z2 = base;
            z ^= base_mask;
            z2 ^= u112::from(base_mask);
            assert_eq!(base ^ base_mask, bnum ^ base_mask, "{} - {}", bnum, base_mask);
            assert_eq!(base ^ u112::from(base_mask), bnum ^ base_mask, "{} - {}", bnum, base_mask);
            assert_eq!(z, bnum ^ base_mask, "{} - {}", bnum, base_mask);
            assert_eq!(z2, bnum ^ base_mask, "{} - {}", bnum, base_mask);
        }
    }

    fn shift(num: &u112) {
        let base = num.clone();
        let bnum = num.as_num();

        for idx in 0..(size_of::<u112>() * 8) {
            assert_eq!(base >> (idx as usize), (bnum >> (idx as usize)) & u112::MAX_VALUE);
            assert_eq!(base >> (idx as u8), (bnum >> (idx as u8)) & u112::MAX_VALUE);
            assert_eq!(base >> (idx as u16), (bnum >> (idx as u16)) & u112::MAX_VALUE);
            assert_eq!(base >> (idx as u32), (bnum >> (idx as u32)) & u112::MAX_VALUE);
            assert_eq!(base >> (idx as u64), (bnum >> (idx as u64)) & u112::MAX_VALUE);
            assert_eq!(base >> (idx as u128), (bnum >> (idx as u128)) & u112::MAX_VALUE);
            if idx <= i8::MAX as usize {
                assert_eq!(base >> (idx as i8), (bnum >> (idx as i8)) & u112::MAX_VALUE);
            }
            assert_eq!(base >> (idx as isize), (bnum >> (idx as isize)) & u112::MAX_VALUE);
            assert_eq!(base >> (idx as i16), (bnum >> (idx as i16)) & u112::MAX_VALUE);
            assert_eq!(base >> (idx as i32), (bnum >> (idx as i32)) & u112::MAX_VALUE);
            assert_eq!(base >> (idx as i64), (bnum >> (idx as i64)) & u112::MAX_VALUE);
            assert_eq!(base >> (idx as i128), (bnum >> (idx as i128)) & u112::MAX_VALUE);
            assert_eq!(base << (idx as usize), (bnum << (idx as usize)) & u112::MAX_VALUE);
            assert_eq!(base << (idx as u8), (bnum << (idx as u8)) & u112::MAX_VALUE);
            assert_eq!(base << (idx as u16), (bnum << (idx as u16)) & u112::MAX_VALUE);
            assert_eq!(base << (idx as u32), (bnum << (idx as u32)) & u112::MAX_VALUE);
            assert_eq!(base << (idx as u64), (bnum << (idx as u64)) & u112::MAX_VALUE);
            assert_eq!(base << (idx as u128), (bnum << (idx as u128)) & u112::MAX_VALUE);
            if idx <= i8::MAX as usize {
                assert_eq!(base << (idx as i8), (bnum << (idx as i8)) & u112::MAX_VALUE);
            }
            assert_eq!(base << (idx as isize), (bnum << (idx as isize)) & u112::MAX_VALUE);
            assert_eq!(base << (idx as i16), (bnum << (idx as i16)) & u112::MAX_VALUE);
            assert_eq!(base << (idx as i32), (bnum << (idx as i32)) & u112::MAX_VALUE);
            assert_eq!(base << (idx as i64), (bnum << (idx as i64)) & u112::MAX_VALUE);
            assert_eq!(base << (idx as i128), (bnum << (idx as i128)) & u112::MAX_VALUE);
            let mut z = base;
            z <<= idx as usize;
            assert_eq!(z, (bnum << idx) & u112::MAX_VALUE);
            let mut z = base;
            z <<= idx as u8;
            assert_eq!(z, (bnum << idx) & u112::MAX_VALUE);
            let mut z = base;
            z <<= idx as u16;
            assert_eq!(z, (bnum << idx) & u112::MAX_VALUE);
            let mut z = base;
            z <<= idx as u32;
            assert_eq!(z, (bnum << idx) & u112::MAX_VALUE);
            let mut z = base;
            z <<= idx as u64;
            assert_eq!(z, (bnum << idx) & u112::MAX_VALUE);
            let mut z = base;
            z <<= idx as u128;
            assert_eq!(z, (bnum << idx) & u112::MAX_VALUE);
            let mut z = base;
            z <<= idx as isize;
            assert_eq!(z, (bnum << idx) & u112::MAX_VALUE);
            if idx <= i8::MAX as usize {
                let mut z = base;
                z <<= idx as i8;
                assert_eq!(z, (bnum << idx) & u112::MAX_VALUE);
            }
            let mut z = base;
            z <<= idx as i16;
            assert_eq!(z, (bnum << idx) & u112::MAX_VALUE);
            let mut z = base;
            z <<= idx as i32;
            assert_eq!(z, (bnum << idx) & u112::MAX_VALUE);
            let mut z = base;
            z <<= idx as i64;
            assert_eq!(z, (bnum << idx) & u112::MAX_VALUE);
            let mut z = base;
            z <<= idx as i128;
            assert_eq!(z, (bnum << idx) & u112::MAX_VALUE);
            let mut z = base;
            z >>= idx as usize;
            assert_eq!(z, (bnum >> idx) & u112::MAX_VALUE);
            let mut z = base;
            z >>= idx as u8;
            assert_eq!(z, (bnum >> idx) & u112::MAX_VALUE);
            let mut z = base;
            z >>= idx as u16;
            assert_eq!(z, (bnum >> idx) & u112::MAX_VALUE);
            let mut z = base;
            z >>= idx as u32;
            assert_eq!(z, (bnum >> idx) & u112::MAX_VALUE);
            let mut z = base;
            z >>= idx as u64;
            assert_eq!(z, (bnum >> idx) & u112::MAX_VALUE);
            let mut z = base;
            z >>= idx as u128;
            assert_eq!(z, (bnum >> idx) & u112::MAX_VALUE);
            let mut z = base;
            z >>= idx as isize;
            assert_eq!(z, (bnum >> idx) & u112::MAX_VALUE);
            if idx <= i8::MAX as usize {
                let mut z = base;
                z >>= idx as i8;
                assert_eq!(z, (bnum >> idx) & u112::MAX_VALUE);
            }
            let mut z = base;
            z >>= idx as i16;
            assert_eq!(z, (bnum >> idx) & u112::MAX_VALUE);
            let mut z = base;
            z >>= idx as i32;
            assert_eq!(z, (bnum >> idx) & u112::MAX_VALUE);
            let mut z = base;
            z >>= idx as i64;
            assert_eq!(z, (bnum >> idx) & u112::MAX_VALUE);
            let mut z = base;
            z >>= idx as i128;
            assert_eq!(z, (bnum >> idx) & u112::MAX_VALUE);
        }
    }
}

#[test]
fn test_u112() {
    U112T::run();
}

struct U120T {
    random_numbers: Vec<u120>,
}

impl U120T {
    fn run() {
        let tdata = Self::make_test_data();
        for nr in &tdata.random_numbers {
            Self::rem(nr);
            Self::shift(nr);
            Self::and_or_xor(nr);
            Self::add_sub(nr);
            Self::mul_div(nr);
        }
    }

    fn make_test_data() -> U120T {
        let mut source = ByteSource::new(0x0F5EED);
        let mut dta = Vec::new();
        for _ in 0..TEST_SET_SIZE {
            let mut inner = [0u8; 15];
            source.fill(&mut inner);
            dta.push(u120::from_ne_bytes(inner));
        }
        dta.push(u120::max_value());
        dta.push(u120::min_value());

        return U120T {
            random_numbers: dta,
        };
    }

    fn add_sub(num: &u120) {
        let base = num.clone();
        let bnum = num.as_num();
        if bnum == 0 || bnum >= u120::MAX_VALUE - 32 {
            return;
        }

        let u = base + 1;
        let b = base + u120::from(1);
        assert_eq!(u, b);
        assert_ne!(base, b);
        assert_eq!(u120::from(bnum + 1), b);
        let x = base - 1;
        let y = base - u120::from(1);
        assert_eq!(x, y);
        assert_ne!(base, x);
        assert_eq!(u120::from(bnum - 1), x);
        assert_eq!(x + 2, u);
        assert_eq!(y + u120::from(2), b);
        let mut z = base;
        z += u120::from(16);
        assert_eq!(z, u120::from(bnum + 16));
        z += 16;
        assert_eq!(z, u120::from(bnum + 32));
        z -= 16;
        assert_eq!(z, u120::from(bnum + 16));
        z -= u120::from(16);
        assert_eq!(z, base);
    }

    fn mul_div(num: &u120) {
        let mut base = num.clone();
        base -= base % 3;
        if base >= u120::MAX_VALUE / 3 {
            return;
        }
        if base == 0 {
            return;
        }

        let u = base * 3;
        let b = base * u120::from(3);
        assert_eq!(u, b);
        assert_ne!(base, b);
        let x = base / 3;
        let y = base / u120::from(3);
        assert_eq!(x, y);
        assert_ne!(base, x);
        assert_eq!(x * 9, u, "{:?} - {:?} - {:?}", base, x, u);
        assert_eq!(y * u120::from(9), b);
        let mut z = base;
        z *= 3;
        assert_eq!(z, u);
        z /= 3;
        assert_eq!(z, base);
    }

    fn rem(num: &u120) {
        let base = num.clone();
        let bnum = num.as_num();

        let div_base = (u120::MAX_VALUE - u120::MAX_VALUE) + 41;

        for idx in 0..(size_of::<u120>() * 8) {
            let div = div_base << idx;
            if div >= u120::MAX_VALUE {
                return;
            }
            let mut z = base;
            let mut z2 = base;
            z %= div;
            z2 %= div;
            assert_eq!(base % div, bnum % div, "{} - {}", bnum, div);
            assert_eq!(
                base % u120::from(div),
                bnum % div,
                "{} - {}",
                bnum,
                div
            );
            assert_eq!(z, bnum % div, "{} - {}", bnum, div);
            assert_eq!(z2, bnum % div, "{} - {}", bnum, div);
        }
    }

    fn and_or_xor(num: &u120) {
        let base = num.clone();
        let bnum = num.as_num();
        let mask = 0b1010;

        for idx in 0..(size_of::<u120>() * 8) {
            let base_mask = mask << idx;
            if base_mask > u120::MAX_VALUE {
                return;
            }

            let mut z = base;
            let mut z2 = base;
            z &= base_mask;
            z2 &= u120::from(base_mask);
            assert_eq!(base & base_mask, bnum & base_mask, "{} - {}", bnum, base_mask);
            assert_eq!(base & u120::from(base_mask), bnum & base_mask, "{} - {}", bnum, base_mask);
            assert_eq!(z, bnum & base_mask, "{} - {}", bnum, base_mask);
            assert_eq!(z2, bnum & base_mask, "{} - {}", bnum, base_mask);

            let mut z = base;
            let mut z2 = base;
            z |= base_mask;
            z2 |= u120::from(base_mask);
            assert_eq!(base | base_mask, bnum | base_mask, "{} - {}", bnum, base_mask);
            assert_eq!(base | u120::from(base_mask), bnum | base_mask, "{} - {}", bnum, base_mask);
            assert_eq!(z, bnum | base_mask, "{} - {}", bnum, base_mask);
            assert_eq!(z2, bnum | base_mask, "{} - {}", bnum, base_mask);

            let mut z = base;
            let mut z2 = base;
            z ^= base_mask;
            z2 ^= u120::from(base_mask);
            assert_eq!(base ^ base_mask, bnum ^ base_mask, "{} - {}", bnum, base_mask);
            assert_eq!(base ^ u120::from(base_mask), bnum ^ base_mask, "{} - {}", bnum, base_mask);
            assert_eq!(z, bnum ^ base_mask, "{} - {}", bnum, base_mask);
            assert_eq!(z2, bnum ^ base_mask, "{} - {}", bnum, base_mask);
        }
    }

    fn shift(num: &u120) {
        let base = num.clone();
        let bnum = num.as_num();

        for idx in 0..(size_of::<u120>() * 8) {
            assert_eq!(base >> (idx as usize), (bnum >> (idx as usize)) & u120::MAX_VALUE);
            assert_eq!(base >> (idx as u8), (bnum >> (idx as u8)) & u120::MAX_VALUE);
            assert_eq!(base >> (idx as u16), (bnum >> (idx as u16)) & u120::MAX_VALUE);
            assert_eq!(base >> (idx as u32), (bnum >> (idx as u32)) & u120::MAX_VALUE);
            assert_eq!(base >> (idx as u64), (bnum >> (idx as u64)) & u120::MAX_VALUE);
            assert_eq!(base >> (idx as u128), (bnum >> (idx as u128)) & u120::MAX_VALUE);
            if idx <= i8::MAX as usize {
                assert_eq!(base >> (idx as i8), (bnum >> (idx as i8)) & u120::MAX_VALUE);
            }
            assert_eq!(base >> (idx as isize), (bnum >> (idx as isize)) & u120::MAX_VALUE);
            assert_eq!(base >> (idx as i16), (bnum >> (idx as i16)) & u120::MAX_VALUE);
            assert_eq!(base >> (idx as i32), (bnum >> (idx as i32)) & u120::MAX_VALUE);
            assert_eq!(base >> (idx as i64), (bnum >> (idx as i64)) & u120::MAX_VALUE);
            assert_eq!(base >> (idx as i128), (bnum >> (idx as i128)) & u120::MAX_VALUE);
            assert_eq!(base << (idx as usize), (bnum << (idx as usize)) & u120::MAX_VALUE);
            assert_eq!(base << (idx as u8), (bnum << (idx as u8)) & u120::MAX_VALUE);
            assert_eq!(base << (idx as u16), (bnum << (idx as u16)) & u120::MAX_VALUE);
            assert_eq!(base << (idx as u32), (bnum << (idx as u32)) & u120::MAX_VALUE);
            assert_eq!(base << (idx as u64), (bnum << (idx as u64)) & u120::MAX_VALUE);
            assert_eq!(base << (idx as u128), (bnum << (idx as u128)) & u120::MAX_VALUE);
            if idx <= i8::MAX as usize {
                assert_eq!(base << (idx as i8), (bnum << (idx as i8)) & u120::MAX_VALUE);
            }
            assert_eq!(base << (idx as isize), (bnum << (idx as isize)) & u120::MAX_VALUE);
            assert_eq!(base << (idx as i16), (bnum << (idx as i16)) & u120::MAX_VALUE);
            assert_eq!(base << (idx as i32), (bnum << (idx as i32)) & u120::MAX_VALUE);
            assert_eq!(base << (idx as i64), (bnum << (idx as i64)) & u120::MAX_VALUE);
            assert_eq!(base << (idx as i128), (bnum << (idx as i128)) & u120::MAX_VALUE);
            let mut z = base;
            z <<= idx as usize;
            assert_eq!(z, (bnum << idx) & u120::MAX_VALUE);
            let mut z = base;
            z <<= idx as u8;
            assert_eq!(z, (bnum << idx) & u120::MAX_VALUE);
            let mut z = base;
            z <<= idx as u16;
            assert_eq!(z, (bnum << idx) & u120::MAX_VALUE);
            let mut z = base;
            z <<= idx as u32;
            assert_eq!(z, (bnum << idx) & u120::MAX_VALUE);
            let mut z = base;
            z <<= idx as u64;
            assert_eq!(z, (bnum << idx) & u120::MAX_VALUE);
            let mut z = base;
            z <<= idx as u128;
            assert_eq!(z, (bnum << idx) & u120::MAX_VALUE);
            let mut z = base;
            z <<= idx as isize;
            assert_eq!(z, (bnum << idx) & u120::MAX_VALUE);
            if idx <= i8::MAX as usize {
                let mut z = base;
                z <<= idx as i8;
                assert_eq!(z, (bnum << idx) & u120::MAX_VALUE);
            }
            let mut z = base;
            z <<= idx as i16;
            assert_eq!(z, (bnum << idx) & u120::MAX_VALUE);
            let mut z = base;
            z <<= idx as i32;
            assert_eq!(z, (bnum << idx) & u120::MAX_VALUE);
            let mut z = base;
            z <<= idx as i64;
            assert_eq!(z, (bnum << idx) & u120::MAX_VALUE);
            let mut z = base;
            z <<= idx as i128;
            assert_eq!(z, (bnum << idx) & u120::MAX_VALUE);
            let mut z = base;
            z >>= idx as usize;
            assert_eq!(z, (bnum >> idx) & u120::MAX_VALUE);
            let mut z = base;
            z >>= idx as u8;
            assert_eq!(z, (bnum >> idx) & u120::MAX_VALUE);
            let mut z = base;
            z >>= idx as u16;
            assert_eq!(z, (bnum >> idx) & u120::MAX_VALUE);
            let mut z = base;
            z >>= idx as u32;
            assert_eq!(z, (bnum >> idx) & u120::MAX_VALUE);
            let mut z = base;
            z >>= idx as u64;
            assert_eq!(z, (bnum >> idx) & u120::MAX_VALUE);
            let mut z = base;
            z >>= idx as u128;
            assert_eq!(z, (bnum >> idx) & u120::MAX_VALUE);
            let mut z = base;
            z >>= idx as isize;
            assert_eq!(z, (bnum >> idx) & u120::MAX_VALUE);
            if idx <= i8::MAX as usize {
                let mut z = base;
                z >>= idx as i8;
                assert_eq!(z, (bnum >> idx) & u120::MAX_VALUE);
            }
            let mut z = base;
            z >>= idx as i16;
            assert_eq!(z, (bnum >> idx) & u120::MAX_VALUE);
            let mut z = base;
            z >>= idx as i32;
            assert_eq!(z, (bnum >> idx) & u120::MAX_VALUE);
            let mut z = base;
            z >>= idx as i64;
            assert_eq!(z, (bnum >> idx) & u120::MAX_VALUE);
            let mut z = base;
            z >>= idx as i128;
            assert_eq!(z, (bnum >> idx) & u120::MAX_VALUE);
        }
    }
}

#[test]
fn test_u120() {
    U120T::run();
}
