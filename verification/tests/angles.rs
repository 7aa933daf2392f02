//! The fixed-point arctangent, and the run configuration record.

use tracerlib::config::Config;
use tracerlib::fixed::SCALE;
use tracerlib::trig::{atan2_fx, atan_fx, HALF_PI_FX, QUARTER_PI_FX};

const ONE: i64 = SCALE;

#[test]
fn atan_of_zero_and_one() {
    assert_eq!(atan_fx(0), 0);
    // At one the correction term vanishes: exactly pi/4.
    assert_eq!(atan_fx(ONE), QUARTER_PI_FX);
    assert_eq!(atan_fx(-ONE), -QUARTER_PI_FX);
}

#[test]
fn atan_is_odd_and_bounded() {
    for v in [ONE / 7, ONE / 2, 3 * ONE, 100 * ONE] {
        assert_eq!(atan_fx(-v), -atan_fx(v));
        assert!(atan_fx(v).abs() <= HALF_PI_FX);
    }
}

#[test]
fn atan_large_argument_approaches_half_pi() {
    let a = atan_fx(1000 * ONE);
    assert!(a > HALF_PI_FX - ONE / 100);
    assert!(a <= HALF_PI_FX);
}

#[test]
fn atan2_axes() {
    assert_eq!(atan2_fx(ONE, 0), HALF_PI_FX);
    assert_eq!(atan2_fx(-ONE, 0), -HALF_PI_FX);
    assert_eq!(atan2_fx(0, 0), 0);
    assert_eq!(atan2_fx(0, ONE), 0);
}

#[test]
fn atan2_quadrants() {
    // First quadrant at 45 degrees.
    assert_eq!(atan2_fx(ONE, ONE), QUARTER_PI_FX);
    let q2 = atan2_fx(ONE, -ONE);
    let q3 = atan2_fx(-ONE, -ONE);
    let q4 = atan2_fx(-ONE, ONE);
    // 3 pi / 4, -3 pi / 4, -pi / 4, to the constants' precision.
    assert!((q2 - 154415).abs() <= 2);
    assert!((q3 + 154415).abs() <= 2);
    assert_eq!(q4, -QUARTER_PI_FX);
}

#[test]
fn config_carries_run_parameters() {
    let c = Config {
        scene_config_path: String::from("scene.json"),
        output_file: String::from("out.png"),
        width: 640,
        height: 480,
        supersampling: 2,
        reflection_depth: 4,
    };
    assert_eq!(c.width, 640);
    assert_eq!(c.height, 480);
    assert_eq!(c.supersampling, 2);
    assert_eq!(c.reflection_depth, 4);
    assert_eq!(c.scene_config_path, "scene.json");
    assert_eq!(c.output_file, "out.png");
}
