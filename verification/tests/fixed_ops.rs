//! The fixed-point scalar operations on exact values.

use tracerlib::fixed::{
    fx_add, fx_clamp, fx_div, fx_max, fx_min, fx_mod, fx_mul, fx_pow, fx_sqrt, fx_sub, FX_MAX,
    FX_MIN, SCALE,
};

const ONE: i64 = SCALE;

#[test]
fn mul_exact() {
    // 3.0 * 0.5 == 1.5
    assert_eq!(fx_mul(3 * ONE, ONE / 2), 3 * ONE / 2);
    // 2.0 * 2.0 == 4.0
    assert_eq!(fx_mul(2 * ONE, 2 * ONE), 4 * ONE);
}

#[test]
fn mul_truncates_toward_zero() {
    // the product -1/2 scale-units rounds to 0, not to -1
    assert_eq!(fx_mul(-1, ONE / 2), 0);
    assert_eq!(fx_mul(1, ONE / 2), 0);
}

#[test]
fn mul_saturates() {
    assert_eq!(fx_mul(FX_MAX, FX_MAX), FX_MAX);
    assert_eq!(fx_mul(FX_MAX, FX_MIN), FX_MIN);
}

#[test]
fn add_sub_saturate() {
    assert_eq!(fx_add(FX_MAX, FX_MAX), FX_MAX);
    assert_eq!(fx_sub(FX_MIN, ONE), FX_MIN);
    assert_eq!(fx_add(ONE, ONE), 2 * ONE);
}

#[test]
fn div_exact_and_truncating() {
    assert_eq!(fx_div(3 * ONE, 2 * ONE), 3 * ONE / 2);
    assert_eq!(fx_div(-3 * ONE, 2 * ONE), -(3 * ONE / 2));
    // -1/2 in scale units over 1.0 truncates toward zero
    assert_eq!(fx_div(-1, 2 * ONE), 0);
}

#[test]
fn sqrt_exact_and_floor() {
    assert_eq!(fx_sqrt(4 * ONE), 2 * ONE);
    assert_eq!(fx_sqrt(0), 0);
    // sqrt(2) * 65536 == 92681.9..., floored
    assert_eq!(fx_sqrt(2 * ONE), 92681);
}

#[test]
fn rem_has_dividend_sign() {
    assert_eq!(fx_mod(3 * ONE / 2, ONE), ONE / 2);
    assert_eq!(fx_mod(-3 * ONE / 4, ONE), -3 * ONE / 4);
    assert_eq!(fx_mod(-3 * ONE / 2, ONE), -ONE / 2);
}

#[test]
fn pow_is_iterated_product() {
    assert_eq!(fx_pow(2 * ONE, 0), ONE);
    assert_eq!(fx_pow(2 * ONE, 3), 8 * ONE);
    assert_eq!(fx_pow(ONE / 2, 2), ONE / 4);
}

#[test]
fn clamp_min_max() {
    assert_eq!(fx_clamp(3 * ONE, 0, 2 * ONE), 2 * ONE);
    assert_eq!(fx_clamp(-ONE, 0, 2 * ONE), 0);
    assert_eq!(fx_clamp(ONE, 0, 2 * ONE), ONE);
    assert_eq!(fx_max(-ONE, ONE), ONE);
    assert_eq!(fx_min(-ONE, ONE), -ONE);
}
