use uintx::{u24, u48, u56, u80, u88, u112, u120};

#[test]
fn u112_it_works() {
    let mut my_vec: Vec<u112> = Vec::with_capacity(512);
    my_vec.push(u112::from(u112::MAX_VALUE - 10));
    my_vec.push(u112::from(4u32));
    my_vec.push(u112::from(4u32));
    println!("{:?}", my_vec[0]);
    println!("{:?}", my_vec[1]);
    let _z2 = my_vec[0].as_num();

    let n = my_vec[0].as_num() + 6u128;
    println!("{:?}", n);
    println!("{:?}", u112::MAX_VALUE - n);
}

#[test]
fn u120_it_works() {
    let mut my_vec: Vec<u120> = Vec::with_capacity(512);
    my_vec.push(u120::from(u120::MAX_VALUE - 10));
    my_vec.push(u120::from(4u32));
    my_vec.push(u120::from(4u32));
    println!("{:?}", my_vec[0]);
    println!("{:?}", my_vec[1]);
    let _z2 = my_vec[0].as_num();

    let n = my_vec[0].as_num() + 6u128;
    println!("{:?}", n);
    println!("{:?}", u120::MAX_VALUE - n);
}

#[test]
fn u24_it_works() {
    let mut my_vec: Vec<u24> = Vec::with_capacity(512);
    my_vec.push(u24::from(u24::MAX_VALUE - 10));
    my_vec.push(u24::from(4u32));
    my_vec.push(u24::from(4u32));
    println!("{:?}", my_vec[0]);
    println!("{:?}", my_vec[1]);
    let _z2 = my_vec[0].as_num();

    let n = my_vec[1].as_num() + 6u32;
    println!("{:?}", n);
    println!("{:?}", u24::MAX_VALUE - n);
}

#[test]
fn u48_it_works() {
    let mut my_vec: Vec<u48> = Vec::with_capacity(512);
    my_vec.push(u48::from(u48::MAX_VALUE - 10));
    my_vec.push(u48::from(4u32));
    my_vec.push(u48::from(4u32));
    println!("{:?}", my_vec[0]);
    println!("{:?}", my_vec[1]);
    let _z2 = my_vec[0].as_num();

    let n = my_vec[0].as_num() + 6u64;
    println!("{:?}", n);
    println!("{:?}", u48::MAX_VALUE - n);
}

#[test]
fn u56_it_works() {
    let mut my_vec: Vec<u56> = Vec::with_capacity(512);
    my_vec.push(u56::from(u56::MAX_VALUE - 10));
    my_vec.push(u56::from(4u32));
    my_vec.push(u56::from(4u32));
    println!("{:?}", my_vec[0]);
    println!("{:?}", my_vec[1]);
    let _z2 = my_vec[0].as_num();

    let n = my_vec[0].as_num() + 6u64;
    println!("{:?}", n);
    println!("{:?}", u56::MAX_VALUE - n);
}

#[test]
fn u80_it_works() {
    let mut my_vec: Vec<u80> = Vec::with_capacity(512);
    my_vec.push(u80::from(u80::MAX_VALUE - 10));
    my_vec.push(u80::from(4u32));
    my_vec.push(u80::from(4u32));
    println!("{:?}", my_vec[0]);
    println!("{:?}", my_vec[1]);
    let _z2 = my_vec[0].as_num();

    let n = my_vec[0].as_num() + 6u128;
    println!("{:?}", n);
    println!("{:?}", u80::MAX_VALUE - n);
}

#[test]
fn u88_it_works() {
    let mut my_vec: Vec<u88> = Vec::with_capacity(512);
    my_vec.push(u88::from(u88::MAX_VALUE - 10));
    my_vec.push(u88::from(4u32));
    my_vec.push(u88::from(4u32));
    println!("{:?}", my_vec[0]);
    println!("{:?}", my_vec[1]);
    let _z2 = my_vec[0].as_num();

    let n = my_vec[0].as_num() + 6u128;
    println!("{:?}", n);
    println!("{:?}", u88::MAX_VALUE - n);
}
