use tiny_fields::draw::to_pill_number;
use tiny_fields::game::pretty_number;
use tiny_fields::number_text::f64_at_least;

#[test]
fn test_to_pill_number() {
    assert_eq!(to_pill_number(1234567890), "1.2B");
    assert_eq!(to_pill_number(123456789), "123M");
    assert_eq!(to_pill_number(12345678), "12M");
    assert_eq!(to_pill_number(1234567), "1.2M");
    assert_eq!(to_pill_number(123456), "123K");
    assert_eq!(to_pill_number(12345), "12K");
    assert_eq!(to_pill_number(1234), "1234");
    assert_eq!(to_pill_number(123), "123");
    assert_eq!(to_pill_number(12), "12");
    assert_eq!(to_pill_number(0), "0");
}

/// A pill number written with `f32` arithmetic and `format!`.
fn pill_with_floats(x: i64) -> String {
    if x > 1_000_000_000 {
        format!("{:.1}B", x as f32 / 1_000_000_000.0)
    } else if x > 100_000_000 {
        format!("{:.0}M", x as f32 / 1_000_000.0)
    } else if x > 10_000_000 {
        format!("{:.0}M", x as f32 / 1_000_000.0)
    } else if x > 1_000_000 {
        format!("{:.1}M", x as f32 / 1_000_000.0)
    } else if x > 100_000 {
        format!("{:.0}K", x as f32 / 1_000.0)
    } else if x > 10_000 {
        format!("{:.0}K", x as f32 / 1_000.0)
    } else {
        x.to_string()
    }
}

/// A large number written with `f64` arithmetic and `format!`.
fn pretty_with_floats(num: i64) -> String {
    if num >= 1_000_000_000 {
        format!("{:.2}b", num as f64 / 1_000_000_000.0)
    } else if num >= 1_000_000 {
        format!("{:.2}m", num as f64 / 1_000_000.0)
    } else if num >= 10_000 {
        format!("{:.2}k", num as f64 / 1_000.0)
    } else {
        num.to_string()
    }
}

fn sample_values() -> Vec<i64> {
    let mut values = vec![
        i64::MIN,
        i64::MIN + 1,
        -1_000_000_000_000,
        -12345,
        -1,
        0,
        1,
        9_999,
        10_000,
        10_001,
        10_499,
        10_500,
        10_501,
        11_500,
        12_500,
        99_999,
        100_000,
        100_001,
        999_999,
        1_000_000,
        1_000_001,
        1_050_000,
        1_150_000,
        1_250_000,
        9_999_999,
        10_000_000,
        10_000_001,
        99_999_999,
        100_000_000,
        100_000_001,
        999_999_999,
        1_000_000_000,
        1_000_000_001,
        1_005_000_000,
        1_015_000_000,
        1_025_000_000,
        1_050_000_000,
        1_150_000_000,
        16_777_216,
        16_777_217,
        16_777_219,
        9_007_199_254_740_993,
        i64::MAX - 1,
        i64::MAX,
    ];
    // a deterministic spread over all magnitudes
    let mut state: u64 = 0x9E37_79B9_7F4A_7C15;
    for i in 0..200_000u64 {
        state = state.wrapping_mul(6364136223846793005).wrapping_add(1442695040888963407);
        let magnitude = (i % 64) as u32;
        let v = (state >> 1) >> (63 - magnitude.min(62));
        values.push(v as i64);
    }
    // every ten-thousand-boundary neighbourhood of small numbers
    for v in 9_000..200_000i64 {
        values.push(v);
    }
    values
}

#[test]
fn pill_number_agrees_with_f32_arithmetic() {
    for x in sample_values() {
        assert_eq!(to_pill_number(x), pill_with_floats(x), "value {}", x);
    }
}

#[test]
fn pretty_number_agrees_with_f64_arithmetic() {
    for x in sample_values() {
        assert_eq!(pretty_number(x), pretty_with_floats(x), "value {}", x);
    }
}

#[test]
fn pretty_number_examples() {
    assert_eq!(pretty_number(0), "0");
    assert_eq!(pretty_number(-5), "-5");
    assert_eq!(pretty_number(9_999), "9999");
    assert_eq!(pretty_number(10_000), "10.00k");
    assert_eq!(pretty_number(12_345), "12.35k");
    assert_eq!(pretty_number(1_234_567), "1.23m");
    assert_eq!(pretty_number(1_005_000_000), "1.00b");
    assert_eq!(pretty_number(1_015_000_000), "1.01b");
    assert_eq!(pretty_number(i64::MAX), "9223372036.85b");
}

#[test]
fn pill_number_examples() {
    assert_eq!(to_pill_number(10_000), "10000");
    assert_eq!(to_pill_number(10_001), "10K");
    assert_eq!(to_pill_number(-123_456_789), "-123456789");
    assert_eq!(to_pill_number(i64::MAX), "9223371776.0B");
}

#[test]
fn f64_comparison_agrees_with_floats() {
    let mut values: Vec<i64> = vec![0, 1, -1, 2, 3, i64::MAX, i64::MIN, i64::MAX - 1, i64::MIN + 1];
    for shift in 50..63 {
        let p = 1i64 << shift;
        for d in -6i64..=6 {
            values.push(p + d);
            values.push(-(p + d));
        }
    }
    for &a in &values {
        for &b in &values {
            assert_eq!(f64_at_least(a, b), a as f64 >= b as f64, "{} {}", a, b);
        }
    }
}
