use guildmaster_server::fixed::{ceil_sqrt, floor_sqrt, limit_length, with_length, SCALE};

#[test]
fn one_unit_is_a_thousand_steps() {
    assert_eq!(SCALE, 1000);
}

#[test]
fn ceil_sqrt_of_perfect_squares_is_exact() {
    assert_eq!(ceil_sqrt(0), 0);
    assert_eq!(ceil_sqrt(1), 1);
    assert_eq!(ceil_sqrt(144), 12);
    assert_eq!(ceil_sqrt(250_000u128 * 250_000u128), 250_000);
}

#[test]
fn ceil_sqrt_rounds_up() {
    assert_eq!(ceil_sqrt(2), 2);
    assert_eq!(ceil_sqrt(145), 13);
    assert_eq!(ceil_sqrt(20_000_000_000), 141_422);
}

#[test]
fn ceil_sqrt_reaches_the_end_of_its_domain() {
    assert_eq!(ceil_sqrt(1u128 << 126), 1u64 << 63);
    assert_eq!(ceil_sqrt((1u128 << 126) - 1), 1u64 << 63);
}

#[test]
fn floor_sqrt_rounds_down() {
    assert_eq!(floor_sqrt(0), 0);
    assert_eq!(floor_sqrt(1), 1);
    assert_eq!(floor_sqrt(2), 1);
    assert_eq!(floor_sqrt(143), 11);
    assert_eq!(floor_sqrt(144), 12);
    assert_eq!(floor_sqrt(80_000_000_000), 282_842);
}

#[test]
fn short_vector_is_not_limited() {
    assert_eq!(limit_length(3, 4, 5), (3, 4));
    assert_eq!(limit_length(-3, 4, 5), (-3, 4));
    assert_eq!(limit_length(0, 0, 0), (0, 0));
}

#[test]
fn long_vector_is_cut_to_the_limit() {
    assert_eq!(limit_length(6, 8, 5), (3, 4));
    assert_eq!(limit_length(-6, -8, 5), (-3, -4));
    assert_eq!(limit_length(300_000, 400_000, 250_000), (150_000, 200_000));
}

#[test]
fn cut_vector_rounds_toward_zero() {
    assert_eq!(limit_length(100_000, 100_000, 50_000), (35_355, 35_355));
    assert_eq!(limit_length(-100_000, 100_000, 50_000), (-35_355, 35_355));
}

#[test]
fn limited_vector_is_never_longer_than_the_limit() {
    let limit: i64 = 50_000;
    for &(x, y) in [(1i64, 60_000i64), (77_777, -12_345), (-50_001, 3), (4_000_000_000, -4_000_000_000)].iter() {
        let (a, b) = limit_length(x, y, limit);
        assert!(a * a + b * b <= limit * limit);
        assert!(a.abs() <= x.abs() && b.abs() <= y.abs());
    }
}

#[test]
fn with_length_scales_up_and_down() {
    assert_eq!(with_length(3, 4, 400_000), (240_000, 320_000));
    assert_eq!(with_length(1, 0, 400_000), (400_000, 0));
    assert_eq!(with_length(0, -7, 400_000), (0, -400_000));
    assert_eq!(with_length(1, 1, 400_000), (282_842, 282_842));
    assert_eq!(with_length(-1_000_000, 1_000_000, 400_000), (-282_842, 282_842));
}

#[test]
fn with_length_takes_the_largest_components() {
    let (a, b) = with_length(i32::MIN, i32::MAX, 0x7FFF_FFFF);
    assert!(a < 0 && b > 0);
    let (a, b) = (a as i128, b as i128);
    assert!(a * a + b * b <= 0x7FFF_FFFFi128 * 0x7FFF_FFFFi128);
}
