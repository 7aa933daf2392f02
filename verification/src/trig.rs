//! Fixed-point arctangent, used by the sphere's surface parameterization.
//!
//! The executable functions compute a rational approximation of `atan` (a
//! quarter-turn polynomial on `[-1, 1]`, folded by the reciprocal identity
//! outside it, and by quadrant for `atan2`).  The contracts give the exact
//! value of that approximation; on the axes (`atan2` of `(y, 0)`, `atan` of
//! `0`) it agrees with the mathematical function to the constants' precision.

use vstd::prelude::*;

use crate::fixed::{
    abs_i, fadd, fdiv, fmul, fsub, fx_add, fx_div, fx_mul, fx_sub, SCALE,
};

verus! {

/// The circle constants, times `SCALE`.
pub const PI_FX: i64 = 205887;

pub const TWO_PI_FX: i64 = 411775;

pub const HALF_PI_FX: i64 = 102944;

pub const QUARTER_PI_FX: i64 = 51472;

/// The polynomial's correction coefficient, 0.273 times `SCALE`.
pub const ATAN_K_FX: i64 = 17891;

/// The polynomial `pi/4 * y + 0.273 * y * (1 - |y|)`, a close approximation
/// of `atan` on `[-1, 1]`.
pub open spec fn atan_core_spec(y: int) -> int
    recommends
        abs_i(y) <= SCALE as int,
{
    fadd(fmul(QUARTER_PI_FX as int, y), fmul(fmul(ATAN_K_FX as int, y), fsub(SCALE as int, abs_i(y))))
}

/// The approximation extended to the whole axis by
/// `atan(y) == +-pi/2 - atan(1 / y)` for `|y| > 1`.
pub open spec fn atan_spec(y: int) -> int {
    if y > SCALE as int {
        fsub(HALF_PI_FX as int, atan_core_spec(fdiv(SCALE as int, y)))
    } else if y < -(SCALE as int) {
        fsub(-(HALF_PI_FX as int), atan_core_spec(fdiv(SCALE as int, y)))
    } else {
        atan_core_spec(y)
    }
}

/// The two-argument arctangent over the approximation, by quadrant.
pub open spec fn atan2_spec(y: int, x: int) -> int {
    if x > 0 {
        atan_spec(fdiv(y, x))
    } else if x < 0 && y >= 0 {
        fadd(atan_spec(fdiv(y, x)), PI_FX as int)
    } else if x < 0 {
        fsub(atan_spec(fdiv(y, x)), PI_FX as int)
    } else if y > 0 {
        HALF_PI_FX as int
    } else if y < 0 {
        -(HALF_PI_FX as int)
    } else {
        0
    }
}

fn atan_core(y: i64) -> (r: i64)
    ensures
        r as int == atan_core_spec(y as int),
{
    let a = if y >= 0 {
        fx_sub(SCALE, y)
    } else {
        fx_add(SCALE, y)
    };
    proof {
        assert(a as int == fsub(SCALE as int, abs_i(y as int)));
    }
    fx_add(fx_mul(QUARTER_PI_FX, y), fx_mul(fx_mul(ATAN_K_FX, y), a))
}

pub fn atan_fx(y: i64) -> (r: i64)
    ensures
        r as int == atan_spec(y as int),
{
    if y > SCALE {
        fx_sub(HALF_PI_FX, atan_core(fx_div(SCALE, y)))
    } else if y < -SCALE {
        fx_sub(-HALF_PI_FX, atan_core(fx_div(SCALE, y)))
    } else {
        atan_core(y)
    }
}

pub fn atan2_fx(y: i64, x: i64) -> (r: i64)
    ensures
        r as int == atan2_spec(y as int, x as int),
{
    if x > 0 {
        atan_fx(fx_div(y, x))
    } else if x < 0 && y >= 0 {
        fx_add(atan_fx(fx_div(y, x)), PI_FX)
    } else if x < 0 {
        fx_sub(atan_fx(fx_div(y, x)), PI_FX)
    } else if y > 0 {
        HALF_PI_FX
    } else if y < 0 {
        -HALF_PI_FX
    } else {
        0
    }
}

} // verus!
