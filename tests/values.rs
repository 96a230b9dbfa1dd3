use starfish::value::Value;

fn v(x: f64) -> Value {
    Value { bits: x.to_bits() }
}

#[test]
fn from_u64_matches_double_conversion() {
    for n in [0u64, 1, 2, 3, 7, 10, 15, 72, 255, 1000, 123456789, (1u64 << 53) - 1] {
        assert_eq!(Value::from_u64(n).bits, (n as f64).to_bits(), "n = {}", n);
    }
}

#[test]
fn minus_one_is_minus_one() {
    assert_eq!(f64::from_bits(Value::minus_one().bits), -1.0);
}

#[test]
fn truncation_matches_as_casts() {
    let samples = [
        0.0, -0.0, 0.5, 1.0, 1.9, 2.5, 72.0, 255.0, 255.9, 256.0, 300.7, -1.0, -0.5, -300.0,
        65535.5, 4294967295.0, 4294967296.0, 1e19, 1.8e19, 1e30, f64::INFINITY,
        f64::NEG_INFINITY, f64::NAN, 1e-300,
    ];
    for x in samples {
        let val = v(x);
        assert_eq!(val.to_u8(), x as u8, "u8 of {}", x);
        assert_eq!(val.to_u32(), x as u32, "u32 of {}", x);
        assert_eq!(val.to_u64(), x as u64, "u64 of {}", x);
        assert_eq!(val.to_usize(), x as usize, "usize of {}", x);
    }
}

#[test]
fn comparisons_match_doubles() {
    let samples = [0.0, -0.0, 1.0, -1.0, 2.5, -2.5, 1e300, -1e300, f64::INFINITY, f64::NEG_INFINITY, f64::NAN];
    for a in samples {
        for b in samples {
            assert_eq!(v(a).num_eq(&v(b)), a == b, "{} == {}", a, b);
            assert_eq!(v(a).num_lt(&v(b)), a < b, "{} < {}", a, b);
        }
    }
}

#[test]
fn zero_test_covers_both_zeros() {
    assert!(v(0.0).is_zero());
    assert!(v(-0.0).is_zero());
    assert!(!v(1e-300).is_zero());
    assert!(!v(f64::NAN).is_zero());
}
