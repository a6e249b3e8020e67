use dem_engine::fixed::{fx_add, fx_div, fx_mul, mul_div, sqrt_mul, wide_isqrt, SCALE};

#[test]
fn sums_are_range_checked() {
    assert_eq!(fx_add(1, 2), Some(3));
    assert_eq!(fx_add(i64::MAX, 1), None);
    assert_eq!(fx_add(i64::MIN, -1), None);
}

#[test]
fn products_round_toward_zero() {
    assert_eq!(fx_mul(1_500_000, 2_000_000), Some(3_000_000));
    assert_eq!(fx_mul(1, 1), Some(0));
    assert_eq!(fx_mul(-1, 1), Some(0));
    assert_eq!(mul_div(7, 1, 2), Some(3));
    assert_eq!(mul_div(-7, 1, 2), Some(-3));
    assert_eq!(mul_div(7, 1, -2), Some(-3));
    assert_eq!(mul_div(-7, -1, 2), Some(3));
    assert_eq!(mul_div(1, 1, 0), None);
    assert_eq!(mul_div(i64::MAX, i64::MAX, 1), None);
    assert_eq!(mul_div(i64::MAX, i64::MAX, i64::MAX), Some(i64::MAX));
    assert_eq!(mul_div(i64::MIN, 1, 1), Some(i64::MIN));
    assert_eq!(mul_div(i64::MIN, -1, 1), None);
}

#[test]
fn quotients_are_scaled() {
    assert_eq!(fx_div(3 * SCALE, 2 * SCALE), Some(1_500_000));
    assert_eq!(fx_div(SCALE, 0), None);
}

#[test]
fn square_roots_round_down() {
    assert_eq!(wide_isqrt(0), 0);
    assert_eq!(wide_isqrt(1), 1);
    assert_eq!(wide_isqrt(15), 3);
    assert_eq!(wide_isqrt(16), 4);
    assert_eq!(wide_isqrt(u128::MAX), u64::MAX as u128);
    assert_eq!(sqrt_mul(4 * SCALE, SCALE), Some(2 * SCALE));
    assert_eq!(sqrt_mul(-4, 1), None);
    assert_eq!(sqrt_mul(-4, -1), Some(2));
}
