//! Floating-point values as bits, against the machine's arithmetic, and the encoding of constants.

use p2o::arith::{
    add_double, add_single, divide_single, multiply_double, multiply_single, root_single,
    subtract_single,
};
use p2o::bytes::{encode_words, read_words};
use p2o::converter::emit::encode_scalar;
use p2o::dtype::{
    onnx_dtype_name, BFLOAT16, BOOL, DOUBLE, FLOAT, FLOAT16, INT16, INT32, INT64, INT8, UINT8,
};
use p2o::error::{ConstantFault, Error};
use p2o::float::{as_i64, from_half, from_i64, from_single, is_integral, to_half, to_single};

fn doubles() -> Vec<f64> {
    vec![
        0.0,
        -0.0,
        1.0,
        -1.0,
        0.1,
        -0.3,
        1.5,
        65504.0,
        65520.0,
        1e-8,
        5e-324,
        2.2250738585072014e-308,
        1.1754943508222875e-38,
        1e-45,
        3.4028234663852886e38,
        3.4028235677973366e38,
        1e300,
        -1e300,
        f64::MAX,
        9007199254740993.0,
        9223372036854775807.0,
        -9223372036854775808.0,
        123456.789,
        f64::INFINITY,
        f64::NEG_INFINITY,
        f64::NAN,
    ]
}

fn singles() -> Vec<f32> {
    vec![
        0.0,
        -0.0,
        1.0,
        -1.0,
        0.1,
        -0.3,
        3.0,
        1e-45,
        1.1754944e-38,
        1.7e-39,
        3.4028235e38,
        -3.4028235e38,
        1e20,
        16777217.0,
        2.0,
        0.5,
        f32::INFINITY,
        f32::NEG_INFINITY,
        f32::NAN,
    ]
}

fn same64(bits: u64, value: f64) -> bool {
    if value.is_nan() {
        f64::from_bits(bits).is_nan()
    } else {
        bits == value.to_bits()
    }
}

fn same32(bits: u32, value: f32) -> bool {
    if value.is_nan() {
        f32::from_bits(bits).is_nan()
    } else {
        bits == value.to_bits()
    }
}

#[test]
fn double_arithmetic_is_the_machines() {
    for &x in &doubles() {
        for &y in &doubles() {
            assert!(same64(add_double(x.to_bits(), y.to_bits()), x + y), "{:?} + {:?}", x, y);
            assert!(same64(multiply_double(x.to_bits(), y.to_bits()), x * y), "{:?} * {:?}", x, y);
        }
    }
    let mut seed: u64 = 0x9E37_79B9_7F4A_7C15;
    for _ in 0..20000 {
        seed = seed.wrapping_mul(6364136223846793005).wrapping_add(1442695040888963407);
        let x = f64::from_bits(seed);
        seed = seed.wrapping_mul(6364136223846793005).wrapping_add(1442695040888963407);
        let y = f64::from_bits((seed & 0x800F_FFFF_FFFF_FFFF) | (x.to_bits() & 0x7FF0_0000_0000_0000));
        assert!(same64(add_double(x.to_bits(), y.to_bits()), x + y), "{:?} + {:?}", x, y);
        assert!(same64(multiply_double(x.to_bits(), seed), x * f64::from_bits(seed)));
    }
}

#[test]
fn single_arithmetic_is_the_machines() {
    let mut list = singles();
    let mut seed: u32 = 0x1234_5678;
    for _ in 0..120 {
        seed = seed.wrapping_mul(1664525).wrapping_add(1013904223);
        list.push(f32::from_bits(seed));
    }
    for &x in &list {
        for &y in &list {
            let (a, b) = (x.to_bits(), y.to_bits());
            assert!(same32(add_single(a, b), x + y), "{:?} + {:?}", x, y);
            assert!(same32(subtract_single(a, b), x - y), "{:?} - {:?}", x, y);
            assert!(same32(multiply_single(a, b), x * y), "{:?} * {:?}", x, y);
            assert!(same32(divide_single(a, b), x / y), "{:?} / {:?}", x, y);
        }
        assert!(same32(root_single(x.to_bits()), x.sqrt()), "root of {:?}", x);
    }
}

#[test]
fn conversions_are_the_machines() {
    for &x in &doubles() {
        assert!(same32(to_single(x.to_bits()), x as f32), "{:?}", x);
        assert_eq!(as_i64(x.to_bits()), x as i64, "{:?}", x);
        assert_eq!(is_integral(x.to_bits()), x.fract() == 0.0, "{:?}", x);
    }
    for &x in &singles() {
        assert!(same64(from_single(x.to_bits()), x as f64), "{:?}", x);
        let half = half::f16::from_f32(x);
        if half.is_nan() {
            assert!(half::f16::from_bits(to_half(x.to_bits())).is_nan());
        } else {
            assert_eq!(to_half(x.to_bits()), half.to_bits(), "{:?}", x);
        }
    }
    for bits in 0..=u16::MAX {
        let half = half::f16::from_bits(bits);
        assert!(same64(from_half(bits), half.to_f64()), "{:x}", bits);
        if !half.is_nan() {
            assert_eq!(to_half(half.to_f32().to_bits()), bits);
            let between = f32::from_bits(half.to_f32().to_bits() + 0x1000);
            assert_eq!(to_half(between.to_bits()), half::f16::from_f32(between).to_bits());
        }
    }
    for i in [0, 1, -1, i64::MAX, i64::MIN, 9007199254740993, -9007199254740993] {
        assert_eq!(from_i64(i), (i as f64).to_bits());
    }
}

#[test]
fn words_are_read_back() {
    let list = vec![0, 1, 0xFFFF_FFFF, 0x0102_0304];
    let raw = encode_words(&list, 4);
    assert_eq!(raw[12..], [4, 3, 2, 1]);
    assert_eq!(read_words(&raw, 4), list);
}

fn fault(value: f64, dtype: i32) -> ConstantFault {
    match encode_scalar(value.to_bits(), dtype).unwrap_err() {
        Error::Constant { fault, bits, .. } => {
            assert_eq!(bits, value.to_bits());
            fault
        },
        Error::Message(text) => panic!("{}", text),
    }
}

#[test]
fn elements_take_their_type() {
    let bytes = |v: f64, dtype: i32| encode_scalar(v.to_bits(), dtype).unwrap();
    assert_eq!(bytes(0.1, FLOAT), 0.1f32.to_le_bytes());
    assert_eq!(bytes(0.1, DOUBLE), 0.1f64.to_le_bytes());
    assert_eq!(bytes(0.1, FLOAT16), half::f16::from_f32(0.1).to_le_bytes());
    assert_eq!(bytes(-0.0, BOOL), [0]);
    assert_eq!(bytes(f64::INFINITY, BOOL), [1]);
    assert_eq!(bytes(-128.0, INT8), [0x80]);
    assert_eq!(bytes(255.0, UINT8), [0xFF]);
    assert_eq!(bytes(-2.0, INT16), (-2i16).to_le_bytes());
    assert_eq!(bytes(-2.0, INT32), (-2i32).to_le_bytes());
    assert_eq!(bytes(-9223372036854775808.0, INT64), i64::MIN.to_le_bytes());
    assert_eq!(bytes(f64::INFINITY, FLOAT), f32::INFINITY.to_le_bytes());
}

#[test]
fn elements_that_do_not_fit() {
    assert_eq!(fault(1e39, FLOAT), ConstantFault::EncodeOverflow);
    assert_eq!(fault(1e39, FLOAT16), ConstantFault::EncodeOverflow);
    assert_eq!(fault(65520.0, FLOAT16), ConstantFault::EncodeOutOfRange);
    assert_eq!(fault(128.0, INT8), ConstantFault::EncodeOutOfRange);
    assert_eq!(fault(-1.0, UINT8), ConstantFault::EncodeOutOfRange);
    assert_eq!(fault(1.5, INT32), ConstantFault::EncodeNonInteger);
    assert_eq!(fault(0.5, INT64), ConstantFault::EncodeNonInteger);
    assert_eq!(fault(f64::INFINITY, INT64), ConstantFault::EncodeNonFinite);
    assert_eq!(fault(f64::NEG_INFINITY, INT16), ConstantFault::EncodeNonFinite);
    assert_eq!(fault(1e19, INT64), ConstantFault::EncodeOutOfRange);
    assert_eq!(
        encode_scalar(f64::NAN.to_bits(), BOOL),
        Err(Error::Message("cannot encode NaN as bool".to_string()))
    );
    assert_eq!(
        encode_scalar(1.0f64.to_bits(), BFLOAT16),
        Err(Error::Message(format!("unsupported initializer dtype {}", onnx_dtype_name(BFLOAT16))))
    );
}
