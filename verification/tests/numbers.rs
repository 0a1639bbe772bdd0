use oxybox::http_probe::probe::convert_http_version;
use oxybox::http_probe::result::HttpVersion;
use oxybox::ieee754::flag_double;
use oxybox::ieee754::nearest_double;
use oxybox::ieee754::nearest_double_signed;

fn next(seed: &mut u64) -> u64 {
    *seed = seed.wrapping_mul(6364136223846793005).wrapping_add(1442695040888963407);
    *seed ^ (*seed >> 29)
}

#[test]
fn one_second_is_one() {
    assert_eq!(nearest_double(1_000_000_000, 1_000_000_000), 1.0f64.to_bits());
    assert_eq!(nearest_double(1, 1), 0x3FF0_0000_0000_0000);
    assert_eq!(nearest_double(1_500_000_000, 1_000_000_000), 1.5f64.to_bits());
    assert_eq!(nearest_double(250_000_000, 1_000_000_000), 0.25f64.to_bits());
}

#[test]
fn zero_is_all_zero_bits() {
    assert_eq!(nearest_double(0, 1_000_000_000), 0);
    assert_eq!(nearest_double(0, 1), 0);
    assert_eq!(nearest_double_signed(0), 0);
}

#[test]
fn one_nanosecond_is_the_nearest_double_to_a_billionth() {
    assert_eq!(nearest_double(1, 1_000_000_000), 1e-9f64.to_bits());
    assert_eq!(nearest_double(123_456_789, 1_000_000_000), 0.123456789f64.to_bits());
    assert_eq!(nearest_double(8_000_000_000, 1_000_000_000), 8.0f64.to_bits());
}

#[test]
fn durations_agree_with_correctly_rounded_division() {
    let mut seed: u64 = 0x5eed;
    for round in 0..200_000u32 {
        let nanos = next(&mut seed) >> (11 + round % 53);
        let expected = ((nanos as f64) / 1e9).to_bits();
        assert_eq!(nearest_double(nanos, 1_000_000_000), expected, "nanos {}", nanos);
    }
}

#[test]
fn ratios_agree_with_correctly_rounded_division() {
    let mut seed: u64 = 7;
    for round in 0..200_000u32 {
        let num = next(&mut seed) >> (11 + round % 53);
        let den = ((next(&mut seed) >> 32) as u32) >> (round % 32);
        if den == 0 {
            continue;
        }
        let expected = ((num as f64) / (den as f64)).to_bits();
        assert_eq!(nearest_double(num, den), expected, "{} / {}", num, den);
    }
}

#[test]
fn every_status_code_is_exact() {
    for code in 0..=u16::MAX {
        assert_eq!(nearest_double(code as u64, 1), (code as f64).to_bits());
    }
    assert_eq!(nearest_double(200, 1), 200.0f64.to_bits());
    assert_eq!(nearest_double(404, 1), 404.0f64.to_bits());
}

#[test]
fn large_integers_round_to_nearest_ties_to_even() {
    let values = [
        (1u64 << 53) - 1,
        1u64 << 53,
        (1u64 << 53) + 1,
        (1u64 << 53) + 2,
        (1u64 << 53) + 3,
        (1u64 << 54) + 2,
        (1u64 << 54) + 6,
        u64::MAX,
        u64::MAX - 1023,
        u64::MAX - 1024,
        (1u64 << 63) + 1024,
        (1u64 << 63) + 3072,
    ];
    for value in values {
        assert_eq!(nearest_double(value, 1), (value as f64).to_bits(), "value {}", value);
    }
    let mut seed: u64 = 99;
    for round in 0..100_000u32 {
        let value = next(&mut seed) >> (round % 12);
        assert_eq!(nearest_double(value, 1), (value as f64).to_bits(), "value {}", value);
    }
}

#[test]
fn signed_integers_carry_their_sign() {
    let values = [
        0i64,
        1,
        -1,
        1_824_690_129,
        -1_824_690_129,
        253_402_300_799,
        i64::MAX,
        i64::MIN,
        i64::MIN + 1,
        -(1i64 << 53) - 1,
    ];
    for value in values {
        assert_eq!(nearest_double_signed(value), (value as f64).to_bits(), "value {}", value);
    }
    assert!(nearest_double_signed(-5) >= 0x8000_0000_0000_0000);
    assert!(nearest_double_signed(5) < 0x8000_0000_0000_0000);
}

#[test]
fn durations_are_never_negative() {
    let mut seed: u64 = 3;
    for _ in 0..10_000 {
        let nanos = next(&mut seed);
        let value = f64::from_bits(nearest_double(nanos, 1_000_000_000));
        assert!(value >= 0.0);
        assert!(value.is_finite());
    }
    assert!(f64::from_bits(nearest_double(u64::MAX, 1_000_000_000)) > 1.8e10);
}

#[test]
fn flags_are_one_and_zero() {
    assert_eq!(flag_double(true), 1.0f64.to_bits());
    assert_eq!(flag_double(false), 0.0f64.to_bits());
}

#[test]
fn http_versions_map_to_their_numbers() {
    assert_eq!(convert_http_version(HttpVersion::Http09), 0.9f64.to_bits());
    assert_eq!(convert_http_version(HttpVersion::Http10), 1.0f64.to_bits());
    assert_eq!(convert_http_version(HttpVersion::Http11), 1.1f64.to_bits());
    assert_eq!(convert_http_version(HttpVersion::H2), 2.0f64.to_bits());
    assert_eq!(convert_http_version(HttpVersion::H3), 3.0f64.to_bits());
    assert_eq!(convert_http_version(HttpVersion::Unknown), 0.0f64.to_bits());
}
