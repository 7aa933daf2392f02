//! Vector arithmetic on exact values.

use tracerlib::fixed::SCALE;
use tracerlib::vec3::Vec3;

const ONE: i64 = SCALE;

#[test]
fn add_sub_scale() {
    let a = Vec3::new(ONE, 2 * ONE, 3 * ONE);
    let b = Vec3::new(4 * ONE, 5 * ONE, 6 * ONE);
    assert_eq!(a.add(&b), Vec3::new(5 * ONE, 7 * ONE, 9 * ONE));
    assert_eq!(b.sub(&a), Vec3::new(3 * ONE, 3 * ONE, 3 * ONE));
    assert_eq!(a.scale(2 * ONE), Vec3::new(2 * ONE, 4 * ONE, 6 * ONE));
}

#[test]
fn dot_and_norm() {
    let a = Vec3::new(0, 3 * ONE, 4 * ONE);
    assert_eq!(a.dot(&a), 25 * ONE);
    assert_eq!(a.norm_squared(), 25 * ONE);
    assert_eq!(a.norm(), 5 * ONE);
    let b = Vec3::new(ONE, 0, 0);
    assert_eq!(a.dot(&b), 0);
}

#[test]
fn cross_basis() {
    let x = Vec3::new(ONE, 0, 0);
    let y = Vec3::new(0, ONE, 0);
    let z = Vec3::new(0, 0, ONE);
    assert_eq!(x.cross(&y), z);
    assert_eq!(y.cross(&z), x);
    assert_eq!(y.cross(&x), Vec3::new(0, 0, -ONE));
}

#[test]
fn component_mul() {
    let a = Vec3::new(2 * ONE, 3 * ONE, 4 * ONE);
    let b = Vec3::new(ONE / 2, ONE, 2 * ONE);
    assert_eq!(a.component_mul(&b), Vec3::new(ONE, 3 * ONE, 8 * ONE));
}

#[test]
fn normalize_three_four_five() {
    let a = Vec3::new(3 * ONE, 4 * ONE, 0);
    // 3/5 and 4/5, truncated
    assert_eq!(a.normalize(), Vec3::new(39321, 52428, 0));
}

#[test]
fn normalize_zero_vector_is_zero() {
    assert_eq!(Vec3::new(0, 0, 0).normalize(), Vec3::new(0, 0, 0));
}

#[test]
fn sdiv_componentwise() {
    let a = Vec3::new(2 * ONE, -3 * ONE, ONE);
    assert_eq!(a.sdiv(2 * ONE), Vec3::new(ONE, -(3 * ONE / 2), ONE / 2));
}
