use ryzenmaster_monitor::rounding::{round_double, round_float, round_single, Precision};

fn reference_double(value: f64) -> i32 {
    value.round() as i32
}

fn reference_single(value: f32) -> i32 {
    value.round() as i32
}

const DOUBLES: [f64; 46] = [
    0.0,
    -0.0,
    0.25,
    0.49999999999999994,
    0.5,
    0.5000000000000001,
    -0.49999999999999994,
    -0.5,
    1.0,
    1.4999999999999998,
    1.5,
    2.5,
    -1.5,
    -2.5,
    44.5,
    45.49,
    45.5,
    99.99,
    100.0,
    119.50000000000001,
    65534.5,
    65535.5,
    1e9,
    2147483646.5,
    2147483647.0,
    2147483647.4999998,
    2147483647.5,
    2147483648.0,
    -2147483647.5,
    -2147483648.0,
    -2147483648.5,
    -2147483649.0,
    4294967296.0,
    4503599627370496.0,
    9007199254740993.0,
    1e300,
    -1e300,
    f64::MAX,
    f64::MIN,
    f64::MIN_POSITIVE,
    5e-324,
    -5e-324,
    f64::EPSILON,
    f64::INFINITY,
    f64::NEG_INFINITY,
    f64::NAN,
];

#[test]
fn doubles_round_as_the_hardware_rounds_them() {
    for value in DOUBLES {
        assert_eq!(round_double(value.to_bits()), reference_double(value), "value {value:e}");
    }
}

#[test]
fn singles_round_as_the_hardware_rounds_them() {
    for wide in DOUBLES {
        let value = wide as f32;
        assert_eq!(round_single(value.to_bits()), reference_single(value), "value {value:e}");
    }
    for value in [0.49999997f32, 8388607.5, 8388608.0, 16777216.0, 2147483520.0, 2147483648.0] {
        assert_eq!(round_single(value.to_bits()), reference_single(value), "value {value:e}");
        let negative = -value;
        assert_eq!(round_single(negative.to_bits()), reference_single(negative));
    }
}

#[test]
fn every_kind_of_nan_rounds_to_zero() {
    for bits in [
        0x7FF8_0000_0000_0000u64,
        0x7FF0_0000_0000_0001,
        0xFFF8_0000_0000_0000,
        0xFFFF_FFFF_FFFF_FFFF,
        0x7FFF_FFFF_FFFF_FFFF,
    ] {
        assert!(f64::from_bits(bits).is_nan());
        assert_eq!(round_double(bits), 0);
    }
    for bits in [0x7FC0_0000u32, 0x7F80_0001, 0xFFFF_FFFF] {
        assert!(f32::from_bits(bits).is_nan());
        assert_eq!(round_single(bits), 0);
    }
}

#[test]
fn a_half_goes_away_from_zero() {
    assert_eq!(round_double(0.5f64.to_bits()), 1);
    assert_eq!(round_double((-0.5f64).to_bits()), -1);
    assert_eq!(round_double(2.5f64.to_bits()), 3);
    assert_eq!(round_double((-2.5f64).to_bits()), -3);
    assert_eq!(round_double(45.5f64.to_bits()), 46);
    assert_eq!(round_single(0.5f32.to_bits()), 1);
    assert_eq!(round_single((-1.5f32).to_bits()), -2);
}

#[test]
fn rounding_is_limited_to_32_bits() {
    assert_eq!(round_double(1e12f64.to_bits()), i32::MAX);
    assert_eq!(round_double((-1e12f64).to_bits()), i32::MIN);
    assert_eq!(round_double(f64::INFINITY.to_bits()), i32::MAX);
    assert_eq!(round_double(f64::NEG_INFINITY.to_bits()), i32::MIN);
    assert_eq!(round_double(2147483647.5f64.to_bits()), i32::MAX);
    assert_eq!(round_double((-2147483648.5f64).to_bits()), i32::MIN);
    assert_eq!(round_double((-2147483648.0f64).to_bits()), i32::MIN);
    assert_eq!(round_double((-2147483647.0f64).to_bits()), -2147483647);
}

#[test]
fn a_sweep_of_doubles() {
    // A simple generator over all exponents and many fractions.
    let mut state: u64 = 0x9E37_79B9_7F4A_7C15;
    for _ in 0..200_000 {
        state ^= state << 13;
        state ^= state >> 7;
        state ^= state << 17;
        let value = f64::from_bits(state);
        assert_eq!(round_double(state), reference_double(value), "bits {state:#x}");
        // Numbers near the range that matters.
        let near = (state % 8_000_000_000) as f64 / 2.0 - 2_000_000_000.0;
        assert_eq!(round_double(near.to_bits()), reference_double(near), "value {near}");
        let small = (state % 400_001) as f64 / 1000.0 - 200.0;
        assert_eq!(round_double(small.to_bits()), reference_double(small), "value {small}");
    }
}

#[test]
fn a_sweep_of_singles() {
    let mut state: u32 = 0x2545_F491;
    for _ in 0..200_000 {
        state ^= state << 13;
        state ^= state >> 17;
        state ^= state << 5;
        let value = f32::from_bits(state);
        assert_eq!(round_single(state), reference_single(value), "bits {state:#x}");
        let small = (state % 400_001) as f32 / 1000.0 - 200.0;
        assert_eq!(round_single(small.to_bits()), reference_single(small), "value {small}");
    }
}

#[test]
fn bits_above_the_format_are_ignored() {
    let bits = 45.5f32.to_bits() as u64;
    assert_eq!(round_float(bits, Precision::Single), 46);
    assert_eq!(round_float(bits | 0xFFFF_FFFF_0000_0000, Precision::Single), 46);
    assert_eq!(round_float((-45.5f32).to_bits() as u64 | 0x1_0000_0000, Precision::Single), -46);
}

#[test]
fn formats() {
    assert_eq!(Precision::Single.fraction_bits(), 23);
    assert_eq!(Precision::Single.exponent_bits(), 8);
    assert_eq!(Precision::Single.bias(), 127);
    assert_eq!(Precision::Double.fraction_bits(), 52);
    assert_eq!(Precision::Double.exponent_bits(), 11);
    assert_eq!(Precision::Double.bias(), 1023);
}
