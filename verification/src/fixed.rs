//! Saturating fixed-point scalars.
//!
//! Every scalar quantity of the tracer (coordinates, distances, colors on the
//! 0-255 scale, shading coefficients) is an `i64` holding the quantity times
//! `SCALE`.  The arithmetic truncates toward zero, as Rust's integer division
//! does, and saturates at the ends of the `i64` range instead of overflowing,
//! so every operation is total.  The spec functions below give the exact value
//! of each operation.

use vstd::prelude::*;

verus! {

/// One whole unit: a value `v` stands for the real quantity `v / SCALE`.
pub const SCALE: i64 = 65536;

/// One half.
pub const FX_HALF: i64 = 32768;

/// Two.
pub const FX_TWO: i64 = 131072;

/// 255, the top of the color scale.
pub const FX_255: i64 = 16711680;

/// The saturation bounds: the whole `i64` range.
pub const FX_MAX: i64 = 0x7fff_ffff_ffff_ffff;
pub const FX_MIN: i64 = -0x7fff_ffff_ffff_ffff - 1;

/// Magnitude of an integer.
pub open spec fn abs_i(x: int) -> int {
    if x >= 0 {
        x
    } else {
        -x
    }
}

/// Saturation to the representable range.
pub open spec fn clip(x: int) -> int {
    if x > FX_MAX as int {
        FX_MAX as int
    } else if x < FX_MIN as int {
        FX_MIN as int
    } else {
        x
    }
}

/// Division truncated toward zero (the rounding of Rust's integer `/`).
pub open spec fn tdiv(a: int, b: int) -> int
    recommends
        b != 0,
{
    if (a >= 0) == (b >= 0) {
        abs_i(a) / abs_i(b)
    } else {
        -(abs_i(a) / abs_i(b))
    }
}

/// Remainder with the sign of the dividend (Rust's `%`).
pub open spec fn tmod(a: int, b: int) -> int
    recommends
        b > 0,
{
    if a >= 0 {
        a % b
    } else {
        -((-a) % b)
    }
}

/// Fixed-point addition.
pub open spec fn fadd(a: int, b: int) -> int {
    clip(a + b)
}

/// Fixed-point subtraction.
pub open spec fn fsub(a: int, b: int) -> int {
    clip(a - b)
}

/// Doubling, as the sum `a + a`.
pub open spec fn fdbl(a: int) -> int {
    fadd(a, a)
}

/// Fixed-point multiplication: the product rescaled by `SCALE`.
pub open spec fn fmul(a: int, b: int) -> int {
    clip(tdiv(a * b, SCALE as int))
}

/// Fixed-point division: the quotient rescaled by `SCALE`.
pub open spec fn fdiv(a: int, b: int) -> int
    recommends
        b != 0,
{
    clip(tdiv(a * (SCALE as int), b))
}

/// The integer square root: the `r` with `r * r <= n < (r + 1) * (r + 1)`.
pub open spec fn is_isqrt(n: int, r: int) -> bool {
    0 <= r && r * r <= n && n < (r + 1) * (r + 1)
}

pub open spec fn isqrt(n: int) -> int {
    choose|r: int| is_isqrt(n, r)
}

/// Fixed-point square root: `sqrt(v / SCALE) * SCALE == sqrt(v * SCALE)`.
pub open spec fn fsqrt(x: int) -> int
    recommends
        x >= 0,
{
    isqrt(x * (SCALE as int))
}

pub open spec fn fmax(a: int, b: int) -> int {
    if a >= b {
        a
    } else {
        b
    }
}

pub open spec fn fmin(a: int, b: int) -> int {
    if a <= b {
        a
    } else {
        b
    }
}

pub open spec fn fclamp(x: int, lo: int, hi: int) -> int {
    if x < lo {
        lo
    } else if x > hi {
        hi
    } else {
        x
    }
}

/// Fixed-point power with a whole exponent: `fpow(b, 0) == SCALE` (one).
pub open spec fn fpow(b: int, e: nat) -> int
    decreases e,
{
    if e == 0 {
        SCALE as int
    } else {
        fmul(b, fpow(b, (e - 1) as nat))
    }
}

/// Rescaling by `SCALE` loses less than one scale unit.
pub proof fn lemma_tdiv_scale_error(x: int)
    ensures
        abs_i(x - (SCALE as int) * tdiv(x, SCALE as int)) < SCALE as int,
{
    if x >= 0 {
        vstd::arithmetic::div_mod::lemma_fundamental_div_mod(x, SCALE as int);
    } else {
        vstd::arithmetic::div_mod::lemma_fundamental_div_mod(-x, SCALE as int);
    }
}

/// Truncating division leaves a remainder smaller than the divisor.
pub proof fn lemma_tdiv_remainder(a: int, b: int)
    requires
        b != 0,
    ensures
        abs_i(a - b * tdiv(a, b)) < abs_i(b),
{
    let q = abs_i(a) / abs_i(b);
    vstd::arithmetic::div_mod::lemma_fundamental_div_mod(abs_i(a), abs_i(b));
    let rem = abs_i(a) - abs_i(b) * q;
    if a >= 0 && b > 0 {
        assert(a - b * q == rem);
    } else if a >= 0 && b < 0 {
        assert(b * -q == -(b * q) && -(b * q) == abs_i(b) * q) by (nonlinear_arith)
            requires
                b < 0,
        ;
        assert(a - b * tdiv(a, b) == rem);
    } else if a < 0 && b > 0 {
        assert(a - b * -q == -(abs_i(a) - b * q)) by (nonlinear_arith)
            requires
                a < 0 && b > 0 && abs_i(a) == -a,
        ;
        assert(a - b * tdiv(a, b) == -rem);
    } else {
        assert(a - b * q == -(abs_i(a) - abs_i(b) * q)) by (nonlinear_arith)
            requires
                a < 0 && b < 0 && abs_i(a) == -a && abs_i(b) == -b,
        ;
        assert(a - b * tdiv(a, b) == -rem);
    }
}

/// Multiplying by the fixed-point one half divides by two.
pub proof fn lemma_fmul_half(x: int)
    requires
        abs_i(x) <= 0x4000_0000_0000_0000,  // 2^62: nothing saturates
    ensures
        fmul(x, FX_HALF as int) == tdiv(x, 2),
{
    lemma_abs_mul(x, FX_HALF as int);
    vstd::arithmetic::div_mod::lemma_div_denominator(abs_i(x) * 32768, 32768, 2);
    vstd::arithmetic::div_mod::lemma_div_multiples_vanish(abs_i(x), 32768);
    assert((abs_i(x) * 32768) / 65536 == abs_i(x) / 2);
}

/// Every nonnegative integer has an integer square root.
pub proof fn lemma_isqrt_exists(n: int)
    requires
        n >= 0,
    ensures
        is_isqrt(n, isqrt(n)),
    decreases n,
{
    if n == 0 {
        assert(is_isqrt(0, 0));
    } else {
        lemma_isqrt_exists(n - 1);
        let r = isqrt(n - 1);
        if (r + 1) * (r + 1) <= n {
            // n - 1 < (r + 1)^2 <= n pins n down to (r + 1)^2 exactly.
            assert(n == (r + 1) * (r + 1));
            assert((r + 1 + 1) * (r + 1 + 1) > n) by (nonlinear_arith)
                requires
                    r >= 0 && n == (r + 1) * (r + 1),
            ;
            assert(is_isqrt(n, r + 1));
        } else {
            assert(is_isqrt(n, r));
        }
    }
}

/// There is exactly one integer square root.
pub proof fn lemma_isqrt_unique(n: int, r: int)
    requires
        is_isqrt(n, r),
    ensures
        isqrt(n) == r,
{
    let c = choose|q: int| is_isqrt(n, q);
    assert(is_isqrt(n, c));
    if c < r {
        assert((c + 1) * (c + 1) <= r * r) by (nonlinear_arith)
            requires
                0 <= c < r,
        ;
    }
    if r < c {
        assert((r + 1) * (r + 1) <= c * c) by (nonlinear_arith)
            requires
                0 <= r < c,
        ;
    }
}

/// The magnitude of a product is the product of the magnitudes.
pub proof fn lemma_abs_mul(a: int, b: int)
    ensures
        abs_i(a * b) == abs_i(a) * abs_i(b),
{
    if a >= 0 && b >= 0 {
        assert(a * b >= 0) by (nonlinear_arith)
            requires
                a >= 0 && b >= 0,
        ;
    } else if a >= 0 && b < 0 {
        assert(a * b <= 0 && a * b == -(a * (-b)) && a * (-b) >= 0) by (nonlinear_arith)
            requires
                a >= 0 && b < 0,
        ;
    } else if a < 0 && b >= 0 {
        assert(a * b <= 0 && a * b == -((-a) * b) && (-a) * b >= 0) by (nonlinear_arith)
            requires
                a < 0 && b >= 0,
        ;
    } else {
        assert(a * b >= 0 && a * b == (-a) * (-b)) by (nonlinear_arith)
            requires
                a < 0 && b < 0,
        ;
    }
}

/// If the factors' signs agree the product is nonnegative; if they disagree
/// it is nonpositive.
pub proof fn lemma_mul_sign(a: int, b: int)
    ensures
        ((a < 0) == (b < 0)) ==> a * b >= 0,
        ((a < 0) != (b < 0)) ==> a * b <= 0,
{
    if a >= 0 && b >= 0 {
        assert(a * b >= 0) by (nonlinear_arith)
            requires
                a >= 0 && b >= 0,
        ;
    } else if a < 0 && b < 0 {
        assert(a * b >= 0) by (nonlinear_arith)
            requires
                a < 0 && b < 0,
        ;
    } else if a >= 0 {
        assert(a * b <= 0) by (nonlinear_arith)
            requires
                a >= 0 && b < 0,
        ;
    } else {
        assert(a * b <= 0) by (nonlinear_arith)
            requires
                a < 0 && b >= 0,
        ;
    }
}

/// The magnitude of an integer, as an unsigned value.
fn abs_u(a: i64) -> (r: u64)
    ensures
        r == abs_i(a as int),
{
    if a >= 0 {
        a as u64
    } else {
        ((-(a + 1)) as u64) + 1
    }
}

/// Saturate a wide intermediate back into the scalar range.
fn clip128(x: i128) -> (r: i64)
    ensures
        r as int == clip(x as int),
{
    if x > FX_MAX as i128 {
        FX_MAX
    } else if x < FX_MIN as i128 {
        FX_MIN
    } else {
        x as i64
    }
}

/// Reattach a sign to an unsigned magnitude and saturate.
fn from_mag(neg: bool, q: u128) -> (r: i64)
    ensures
        neg ==> r as int == clip(-(q as int)),
        !neg ==> r as int == clip(q as int),
{
    if neg {
        if q >= 0x8000_0000_0000_0000u128 {
            FX_MIN
        } else {
            -(q as i64)
        }
    } else {
        if q >= 0x8000_0000_0000_0000u128 {
            FX_MAX
        } else {
            q as i64
        }
    }
}

pub fn fx_add(a: i64, b: i64) -> (r: i64)
    ensures
        r as int == fadd(a as int, b as int),
{
    clip128((a as i128) + (b as i128))
}

pub fn fx_sub(a: i64, b: i64) -> (r: i64)
    ensures
        r as int == fsub(a as int, b as int),
{
    clip128((a as i128) - (b as i128))
}

pub fn fx_dbl(a: i64) -> (r: i64)
    ensures
        r as int == fdbl(a as int),
{
    fx_add(a, a)
}

pub fn fx_neg(a: i64) -> (r: i64)
    ensures
        r as int == fsub(0, a as int),
{
    fx_sub(0, a)
}

pub fn fx_mul(a: i64, b: i64) -> (r: i64)
    ensures
        r as int == fmul(a as int, b as int),
{
    let neg = (a < 0) != (b < 0);
    let am = abs_u(a);
    let bm = abs_u(b);
    proof {
        assert((am as int) * (bm as int) <= 0xffff_ffff_ffff_ffff * 0xffff_ffff_ffff_ffff)
            by (nonlinear_arith)
            requires
                am <= 0xffff_ffff_ffff_ffffu64 && bm <= 0xffff_ffff_ffff_ffffu64,
        ;
        lemma_abs_mul(a as int, b as int);
        lemma_mul_sign(a as int, b as int);
    }
    let p: u128 = (am as u128) * (bm as u128);
    let q: u128 = p / 65536u128;
    from_mag(neg, q)
}

pub fn fx_div(a: i64, b: i64) -> (r: i64)
    requires
        b != 0,
    ensures
        r as int == fdiv(a as int, b as int),
{
    let neg = (a < 0) != (b < 0);
    let p: u128 = (abs_u(a) as u128) * 65536u128;
    let q: u128 = p / (abs_u(b) as u128);
    proof {
        lemma_abs_mul(a as int, SCALE as int);
    }
    from_mag(neg, q)
}

pub fn fx_mod(a: i64, b: i64) -> (r: i64)
    requires
        b > 0,
    ensures
        r as int == tmod(a as int, b as int),
{
    let m = abs_u(a) % (b as u64);
    if a >= 0 {
        m as i64
    } else {
        -(m as i64)
    }
}

/// The integer square root, by bisection.
fn isqrt_u(n: u128) -> (r: u64)
    requires
        n < 0x1_0000_0000_0000_0000_0000,  // 2^80
    ensures
        is_isqrt(n as int, r as int),
        r < 0x100_0000_0000u64,
{
    let mut lo: u64 = 0;
    let mut hi: u64 = 0x100_0000_0000;  // 2^40
    while hi - lo > 1
        invariant
            lo < hi <= 0x100_0000_0000u64,
            (lo as int) * (lo as int) <= n as int,
            (n as int) < (hi as int) * (hi as int),
        decreases hi - lo,
    {
        let mid = lo + (hi - lo) / 2;
        proof {
            assert((mid as int) * (mid as int) <= 0x100_0000_0000 * 0x100_0000_0000)
                by (nonlinear_arith)
                requires
                    mid <= 0x100_0000_0000u64,
            ;
        }
        if (mid as u128) * (mid as u128) <= n {
            lo = mid;
        } else {
            hi = mid;
        }
    }
    lo
}

pub fn fx_sqrt(x: i64) -> (r: i64)
    requires
        x >= 0,
    ensures
        r as int == fsqrt(x as int),
        0 <= r,
{
    let n: u128 = (x as u128) * 65536u128;
    let s = isqrt_u(n);
    proof {
        lemma_isqrt_unique(n as int, s as int);
    }
    s as i64
}

pub fn fx_max(a: i64, b: i64) -> (r: i64)
    ensures
        r as int == fmax(a as int, b as int),
{
    if a >= b {
        a
    } else {
        b
    }
}

pub fn fx_min(a: i64, b: i64) -> (r: i64)
    ensures
        r as int == fmin(a as int, b as int),
{
    if a <= b {
        a
    } else {
        b
    }
}

pub fn fx_clamp(x: i64, lo: i64, hi: i64) -> (r: i64)
    ensures
        r as int == fclamp(x as int, lo as int, hi as int),
{
    if x < lo {
        lo
    } else if x > hi {
        hi
    } else {
        x
    }
}

pub fn fx_pow(b: i64, e: u32) -> (r: i64)
    ensures
        r as int == fpow(b as int, e as nat),
{
    let mut acc: i64 = SCALE;
    let mut i: u32 = 0;
    while i < e
        invariant
            i <= e,
            acc as int == fpow(b as int, i as nat),
        decreases e - i,
    {
        acc = fx_mul(b, acc);
        i = i + 1;
    }
    acc
}

} // verus!
