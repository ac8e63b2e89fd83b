use dbperf::float_bits::truncate_to_u64;

fn check(v: f64) {
    assert_eq!(truncate_to_u64(v.to_bits()), v as u64, "value {:e}", v);
}

#[test]
fn truncation_matches_cast_on_edge_values() {
    let values = vec![
        0.0,
        -0.0,
        0.5,
        0.9999999999,
        1.0,
        1.5,
        -1.5,
        -1.0e300,
        1669918678.0,
        1669918678.75,
        1234.0,
        4.0,
        4503599627370495.5,
        4503599627370496.0,
        9007199254740993.0,
        9223372036854775808.0,
        18446744073709549568.0,
        18446744073709551616.0,
        1.0e20,
        f64::MAX,
        f64::MIN_POSITIVE,
        5e-324,
        f64::INFINITY,
        f64::NEG_INFINITY,
        f64::NAN,
    ];
    for v in values {
        check(v);
    }
}

#[test]
fn truncation_of_nan_payloads_is_zero() {
    assert_eq!(truncate_to_u64(0x7ff8_0000_0000_0001), 0);
    assert_eq!(truncate_to_u64(0xfff0_0000_0000_0001), 0);
}

#[test]
fn truncation_saturates() {
    assert_eq!(truncate_to_u64(f64::INFINITY.to_bits()), u64::MAX);
    assert_eq!(truncate_to_u64(1.0e19f64.to_bits()), 10000000000000000000);
    assert_eq!(truncate_to_u64(1.0e30f64.to_bits()), u64::MAX);
    assert_eq!(truncate_to_u64((-7.9f64).to_bits()), 0);
}

#[test]
fn truncation_drops_the_fraction() {
    assert_eq!(truncate_to_u64(1669918678.9f64.to_bits()), 1669918678);
    assert_eq!(truncate_to_u64(2.5f64.to_bits()), 2);
    assert_eq!(truncate_to_u64(0.25f64.to_bits()), 0);
}

#[test]
fn truncation_matches_cast_on_many_bit_patterns() {
    let mut state: u64 = 0x9e37_79b9_7f4a_7c15;
    for _ in 0..200_000 {
        state = state.wrapping_mul(6364136223846793005).wrapping_add(1442695040888963407);
        let bits = state ^ (state >> 29);
        assert_eq!(truncate_to_u64(bits), f64::from_bits(bits) as u64, "bits {:#x}", bits);
        // values near the integer range
        let exp = 1023 + (bits % 70);
        let near = (exp << 52) | (bits & 0x000f_ffff_ffff_ffff);
        assert_eq!(truncate_to_u64(near), f64::from_bits(near) as u64, "bits {:#x}", near);
    }
}
