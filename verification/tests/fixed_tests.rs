use ray_kernel::fixed::{
    isqrt, narrow, quotient, rounded_quotient, scaled_product, scaled_quotient, wide_product, ONE,
};

#[test]
fn one_is_a_million_steps() {
    assert_eq!(ONE, 1_000_000);
}

#[test]
fn quotient_rounds_toward_zero() {
    assert_eq!(quotient(7, 2), 3);
    assert_eq!(quotient(-7, 2), -3);
    assert_eq!(quotient(7, -2), -3);
    assert_eq!(quotient(-7, -2), 3);
    assert_eq!(quotient(0, 5), 0);
    assert_eq!(quotient(6, 3), 2);
    assert_eq!(quotient(-1, 1_000_000), 0);
}

#[test]
fn isqrt_of_small_numbers() {
    assert_eq!(isqrt(0), 0);
    assert_eq!(isqrt(1), 1);
    assert_eq!(isqrt(2), 1);
    assert_eq!(isqrt(3), 1);
    assert_eq!(isqrt(4), 2);
    assert_eq!(isqrt(15), 3);
    assert_eq!(isqrt(16), 4);
    assert_eq!(isqrt(17), 4);
    assert_eq!(isqrt(99), 9);
    assert_eq!(isqrt(100), 10);
}

#[test]
fn isqrt_of_large_numbers() {
    assert_eq!(isqrt(1_000_000_000_000), 1_000_000);
    assert_eq!(isqrt(999_999_999_999), 999_999);
    assert_eq!(isqrt(u128::MAX), 0xffff_ffff_ffff_ffff);
    assert_eq!(isqrt(1u128 << 126), 1u128 << 63);
    assert_eq!(isqrt((1u128 << 126) - 1), (1u128 << 63) - 1);
}

#[test]
fn isqrt_brackets_its_argument() {
    let samples: [u128; 6] = [5, 1_234_567, 987_654_321_012, 1 << 70, (1 << 100) + 12_345, u128::MAX - 7];
    for n in samples {
        let r = isqrt(n);
        assert!(r * r <= n);
        assert!(r == 0xffff_ffff_ffff_ffff || (r + 1) * (r + 1) > n);
    }
}

#[test]
fn wide_product_is_exact() {
    assert_eq!(wide_product(3, 4), 12);
    assert_eq!(wide_product(i64::MAX, i64::MAX), (i64::MAX as i128) * (i64::MAX as i128));
    assert_eq!(wide_product(i64::MIN, i64::MIN), 1i128 << 126);
    assert_eq!(wide_product(i64::MIN, i64::MAX), (i64::MIN as i128) * (i64::MAX as i128));
}

#[test]
fn scaled_product_of_scalars() {
    // 1.5 * 2.0 = 3.0
    assert_eq!(scaled_product(1_500_000, 2_000_000), 3_000_000);
    // 0.5 * 0.5 = 0.25
    assert_eq!(scaled_product(500_000, 500_000), 250_000);
    // One step times a half rounds to zero, from either side.
    assert_eq!(scaled_product(1, 500_000), 0);
    assert_eq!(scaled_product(-1, 500_000), 0);
    // -2.5 * 3 = -7.5
    assert_eq!(scaled_product(-2_500_000, 3_000_000), -7_500_000);
}

#[test]
fn scaled_quotient_of_scalars() {
    // 3.0 / 2.0 = 1.5
    assert_eq!(scaled_quotient(3_000_000, 2_000_000), 1_500_000);
    // 1 / 3 = 0.333333
    assert_eq!(scaled_quotient(1_000_000, 3_000_000), 333_333);
    assert_eq!(scaled_quotient(-1_000_000, 3_000_000), -333_333);
    assert_eq!(scaled_quotient(1_000_000, -3_000_000), -333_333);
    // 2 / 0.000001 = 2_000_000
    assert_eq!(scaled_quotient(2_000_000, 1), 2_000_000_000_000);
}

#[test]
fn narrow_keeps_the_value() {
    assert_eq!(narrow(0), 0);
    assert_eq!(narrow(-42), -42);
    assert_eq!(narrow(i64::MAX as i128), i64::MAX);
    assert_eq!(narrow(i64::MIN as i128), i64::MIN);
}

#[test]
fn rounded_quotient_rounds_to_the_nearest() {
    assert_eq!(rounded_quotient(7, 3), 2);
    assert_eq!(rounded_quotient(8, 3), 3);
    assert_eq!(rounded_quotient(-7, 3), -2);
    assert_eq!(rounded_quotient(-8, 3), -3);
    assert_eq!(rounded_quotient(0, 5), 0);
    assert_eq!(rounded_quotient(2, 5), 0);
    assert_eq!(rounded_quotient(3, 5), 1);
    assert_eq!(rounded_quotient(-2, 5), 0);
    assert_eq!(rounded_quotient(-3, 5), -1);
    assert_eq!(rounded_quotient(6_000_000_000_000, 19), 315_789_473_684);
}

#[test]
fn rounded_quotient_rounds_halves_away_from_zero() {
    assert_eq!(rounded_quotient(1, 2), 1);
    assert_eq!(rounded_quotient(-1, 2), -1);
    assert_eq!(rounded_quotient(5, 2), 3);
    assert_eq!(rounded_quotient(-5, 2), -3);
    assert_eq!(rounded_quotient(15, 10), 2);
}
