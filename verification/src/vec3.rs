//! Three-component fixed-point vectors.
//!
//! `Vec3` carries both geometry and colors (colors on the 0-255 scale, as the
//! shading pipeline expects).  The mathematical model of a vector is `V3`, a
//! ghost triple of unbounded integers; every operation states its exact result
//! over that model.

use vstd::prelude::*;

use crate::fixed::{
    abs_i, clip, fadd, fdiv, fmul, fsqrt, fsub, fx_add, fx_div, fx_mul, fx_sqrt, fx_sub,
    is_isqrt, lemma_abs_mul, lemma_isqrt_exists, lemma_tdiv_remainder, lemma_tdiv_scale_error,
    tdiv, SCALE,
};
use vstd::arithmetic::div_mod::{
    lemma_div_is_ordered, lemma_div_multiples_vanish, lemma_fundamental_div_mod,
};

verus! {

/// The model of a vector: the three scalars, as unbounded integers.
pub ghost struct V3 {
    pub x: int,
    pub y: int,
    pub z: int,
}

#[derive(Clone, Copy, PartialEq, Eq, Structural, Debug)]
pub struct Vec3 {
    pub x: i64,
    pub y: i64,
    pub z: i64,
}

impl View for Vec3 {
    type V = V3;

    open spec fn view(&self) -> V3 {
        V3 { x: self.x as int, y: self.y as int, z: self.z as int }
    }
}

pub open spec fn v_add(a: V3, b: V3) -> V3 {
    V3 { x: fadd(a.x, b.x), y: fadd(a.y, b.y), z: fadd(a.z, b.z) }
}

pub open spec fn v_sub(a: V3, b: V3) -> V3 {
    V3 { x: fsub(a.x, b.x), y: fsub(a.y, b.y), z: fsub(a.z, b.z) }
}

/// Every component times the scalar `s`.
pub open spec fn v_scale(a: V3, s: int) -> V3 {
    V3 { x: fmul(a.x, s), y: fmul(a.y, s), z: fmul(a.z, s) }
}

/// Every component divided by the scalar `s`.
pub open spec fn v_sdiv(a: V3, s: int) -> V3
    recommends
        s != 0,
{
    V3 { x: fdiv(a.x, s), y: fdiv(a.y, s), z: fdiv(a.z, s) }
}

/// The elementwise (Hadamard) product.
pub open spec fn v_cmul(a: V3, b: V3) -> V3 {
    V3 { x: fmul(a.x, b.x), y: fmul(a.y, b.y), z: fmul(a.z, b.z) }
}

/// The dot product, summed left to right.
pub open spec fn v_dot(a: V3, b: V3) -> int {
    fadd(fadd(fmul(a.x, b.x), fmul(a.y, b.y)), fmul(a.z, b.z))
}

pub open spec fn v_cross(a: V3, b: V3) -> V3 {
    V3 {
        x: fsub(fmul(a.y, b.z), fmul(a.z, b.y)),
        y: fsub(fmul(a.z, b.x), fmul(a.x, b.z)),
        z: fsub(fmul(a.x, b.y), fmul(a.y, b.x)),
    }
}

pub open spec fn v_norm_sq(a: V3) -> int {
    v_dot(a, a)
}

pub open spec fn v_norm(a: V3) -> int {
    fsqrt(v_norm_sq(a))
}

/// The unit vector with `a`'s direction; the zero vector when `a` is too
/// short to carry a direction.
pub open spec fn v_normalize(a: V3) -> V3 {
    let n = v_norm(a);
    if n <= 0 {
        V3 { x: 0, y: 0, z: 0 }
    } else {
        v_sdiv(a, n)
    }
}

/// A square is nonnegative, and so is a sum of squares.
pub proof fn lemma_fmul_self_nonneg(a: int)
    ensures
        fmul(a, a) >= 0,
{
    assert(a * a >= 0) by (nonlinear_arith);
    assert(abs_i(a * a) / 65536 >= 0);
}

pub proof fn lemma_norm_sq_nonneg(a: V3)
    ensures
        v_norm_sq(a) >= 0,
{
    lemma_fmul_self_nonneg(a.x);
    lemma_fmul_self_nonneg(a.y);
    lemma_fmul_self_nonneg(a.z);
}

/// One product of a dot product, rescaled: exact (no saturation), small,
/// and within one scale unit of the true scaled product.
pub proof fn lemma_mul_term_error(x: int, y: int, cx: int, cy: int)
    requires
        0 <= cx,
        0 <= cy,
        cx * cy <= 0x1000_0000_0000_0000_0000,  // 2^76
        abs_i(x) <= cx,
        abs_i(y) <= cy,
    ensures
        fmul(x, y) == tdiv(x * y, SCALE as int),
        abs_i(fmul(x, y)) <= 0x1000_0000_0000_0000,  // 2^60
        abs_i((SCALE as int) * fmul(x, y) - x * y) < SCALE as int,
{
    lemma_abs_mul(x, y);
    assert(abs_i(x) * abs_i(y) <= cx * cy) by (nonlinear_arith)
        requires
            0 <= abs_i(x) <= cx && 0 <= abs_i(y) <= cy,
    ;
    lemma_div_is_ordered(abs_i(x * y), 0x1000_0000_0000_0000_0000int, SCALE as int);
    lemma_tdiv_scale_error(x * y);
}

/// The three-term dot product, when nothing saturates, differs from the
/// exact scaled sum of products by less than three scale units.
pub proof fn lemma_dot_error(a: V3, b: V3, ca: int, cb: int)
    requires
        0 <= ca,
        0 <= cb,
        ca * cb <= 0x1000_0000_0000_0000_0000,  // 2^76
        abs_i(a.x) <= ca,
        abs_i(a.y) <= ca,
        abs_i(a.z) <= ca,
        abs_i(b.x) <= cb,
        abs_i(b.y) <= cb,
        abs_i(b.z) <= cb,
    ensures
        abs_i((SCALE as int) * v_dot(a, b) - (a.x * b.x + a.y * b.y + a.z * b.z)) < 3 * (
        SCALE as int),
{
    lemma_mul_term_error(a.x, b.x, ca, cb);
    lemma_mul_term_error(a.y, b.y, ca, cb);
    lemma_mul_term_error(a.z, b.z, ca, cb);
}

/// A square scaled down is exact and small when the base is small.
pub proof fn lemma_small_square(x: int)
    requires
        abs_i(x) <= 0x40_0000_0000,  // 2^38
    ensures
        fmul(x, x) == (x * x) / (SCALE as int),
        0 <= fmul(x, x) <= 0x1000_0000_0000_0000,  // 2^60
        x * x < (fmul(x, x) + 1) * (SCALE as int),
{
    lemma_abs_mul(x, x);
    assert(x * x >= 0) by (nonlinear_arith);
    assert(x * x <= 0x40_0000_0000 * 0x40_0000_0000) by (nonlinear_arith)
        requires
            abs_i(x) <= 0x40_0000_0000,
    ;
    lemma_div_is_ordered(x * x, 0x1000_0000_0000_0000_0000int, SCALE as int);
    lemma_fundamental_div_mod(x * x, SCALE as int);
}

/// What remains of "a normalized vector has unit length" at the fixed-point
/// resolution: a vector at least half a unit long, with components small
/// enough that its squared norm does not saturate, normalizes to components
/// of magnitude at most one and two scale units.  (Shorter vectors lose too
/// much of their direction to truncation for any such bound.)
pub proof fn lemma_normalize_component_bound(a: V3)
    requires
        v_norm(a) >= (SCALE as int) / 2,
        abs_i(a.x) <= 0x40_0000_0000,
        abs_i(a.y) <= 0x40_0000_0000,
        abs_i(a.z) <= 0x40_0000_0000,
    ensures
        abs_i(v_normalize(a).x) <= SCALE + 2,
        abs_i(v_normalize(a).y) <= SCALE + 2,
        abs_i(v_normalize(a).z) <= SCALE + 2,
{
    let ns = v_norm_sq(a);
    let n = v_norm(a);
    lemma_norm_sq_nonneg(a);
    lemma_small_square(a.x);
    lemma_small_square(a.y);
    lemma_small_square(a.z);
    assert(ns <= 3 * 0x1000_0000_0000_0000);
    assert(fmul(a.x, a.x) <= ns && fmul(a.y, a.y) <= ns && fmul(a.z, a.z) <= ns);
    lemma_isqrt_exists(ns * (SCALE as int));
    assert(is_isqrt(ns * (SCALE as int), n));
    lemma_unit_component(a.x, n, ns);
    lemma_unit_component(a.y, n, ns);
    lemma_unit_component(a.z, n, ns);
}

/// One coordinate of the division step of normalization, bounded.
proof fn lemma_unit_component(x: int, n: int, ns: int)
    requires
        abs_i(x) <= 0x40_0000_0000,
        n >= (SCALE as int) / 2,
        fmul(x, x) <= ns,
        ns * (SCALE as int) < (n + 1) * (n + 1),
    ensures
        abs_i(fdiv(x, n)) <= SCALE + 2,
        abs_i(x) <= n + 1,
        fdiv(x, n) == tdiv(x * (SCALE as int), n),
{
    let s = SCALE as int;
    lemma_small_square(x);
    // x^2 < (fmul(x,x) + 1) * s <= (ns + 1) * s = ns * s + s < (n+1)^2 + s
    assert((fmul(x, x) + 1) * s <= (ns + 1) * s) by (nonlinear_arith)
        requires
            fmul(x, x) <= ns,
            s > 0,
    ;
    assert((ns + 1) * s == ns * s + s) by (nonlinear_arith);
    assert(x * x < (n + 1) * (n + 1) + s);
    // so |x| <= n + 1: otherwise (n+2)^2 <= x^2 would force 2n + 3 < s.
    lemma_abs_mul(x, x);
    if abs_i(x) >= n + 2 {
        assert((n + 2) * (n + 2) <= abs_i(x) * abs_i(x)) by (nonlinear_arith)
            requires
                0 <= n + 2 <= abs_i(x),
        ;
        assert((n + 2) * (n + 2) == (n + 1) * (n + 1) + 2 * n + 3) by (nonlinear_arith);
        assert(false);
    }
    // |x| * s <= (n+1) * s <= n * (s+2), so the quotient is at most s + 2.
    lemma_abs_mul(x, s);
    assert(abs_i(x) * s <= n * (s + 2)) by (nonlinear_arith)
        requires
            abs_i(x) <= n + 1,
            s <= 2 * n,
            s > 0,
            n > 0,
    ;
    lemma_div_is_ordered(abs_i(x) * s, n * (s + 2), n);
    lemma_div_multiples_vanish(s + 2, n);
    assert((n * (s + 2)) / n == s + 2);
    assert(abs_i(tdiv(x * s, n)) <= s + 2);
    assert(fdiv(x, n) == clip(tdiv(x * s, n)));
    assert(abs_i(clip(tdiv(x * s, n))) <= s + 2);
}

/// The other half of "a normalized vector has unit length": under the same
/// hypotheses, the squared norm of the normalization is one, give or take a
/// few dozen scale units (a relative error below a thousandth of a
/// percent).
#[verifier::rlimit(100)]
pub proof fn lemma_normalize_norm_sq_bound(a: V3)
    requires
        v_norm(a) >= (SCALE as int) / 2,
        abs_i(a.x) <= 0x40_0000_0000,
        abs_i(a.y) <= 0x40_0000_0000,
        abs_i(a.z) <= 0x40_0000_0000,
    ensures
        (SCALE as int) - 10 <= v_norm_sq(v_normalize(a)) <= (SCALE as int) + 23,
{
    let s = SCALE as int;
    let ns = v_norm_sq(a);
    let n = v_norm(a);
    lemma_norm_sq_nonneg(a);
    lemma_small_square(a.x);
    lemma_small_square(a.y);
    lemma_small_square(a.z);
    lemma_isqrt_exists(ns * s);
    assert(is_isqrt(ns * s, n));
    lemma_unit_component(a.x, n, ns);
    lemma_unit_component(a.y, n, ns);
    lemma_unit_component(a.z, n, ns);

    let cx = fdiv(a.x, n);
    let cy = fdiv(a.y, n);
    let cz = fdiv(a.z, n);
    assert(v_normalize(a) == V3 { x: cx, y: cy, z: cz });

    // The division's per-component remainders.
    lemma_tdiv_remainder(a.x * s, n);
    lemma_tdiv_remainder(a.y * s, n);
    lemma_tdiv_remainder(a.z * s, n);
    let rx = a.x * s - n * cx;
    let ry = a.y * s - n * cy;
    let rz = a.z * s - n * cz;
    assert(abs_i(rx) < n && abs_i(ry) < n && abs_i(rz) < n);

    // The exact squared norm of the scaled components, bracketed by the
    // fixed-point one.
    let yy = (a.x * s) * (a.x * s) + (a.y * s) * (a.y * s) + (a.z * s) * (a.z * s);
    assert((a.x * s) * (a.x * s) == (s * s) * (a.x * a.x)) by (nonlinear_arith);
    assert((a.y * s) * (a.y * s) == (s * s) * (a.y * a.y)) by (nonlinear_arith);
    assert((a.z * s) * (a.z * s) == (s * s) * (a.z * a.z)) by (nonlinear_arith);
    vstd::arithmetic::div_mod::lemma_fundamental_div_mod(a.x * a.x, s);
    vstd::arithmetic::div_mod::lemma_fundamental_div_mod(a.y * a.y, s);
    vstd::arithmetic::div_mod::lemma_fundamental_div_mod(a.z * a.z, s);
    assert(s * ns <= a.x * a.x + a.y * a.y + a.z * a.z < s * ns + 3 * s);
    assert((s * s) * (s * ns) <= yy < (s * s) * (s * ns) + 3 * (s * s * s)) by (nonlinear_arith)
        requires
            s * ns <= a.x * a.x + a.y * a.y + a.z * a.z < s * ns + 3 * s,
            yy == (s * s) * (a.x * a.x) + (s * s) * (a.y * a.y) + (s * s) * (a.z * a.z),
            s == 65536,
    ;
    assert((s * s) * (n * n) <= (s * s) * (s * ns) && (s * s) * (s * ns) < (s * s) * ((n + 1) * (n
        + 1))) by (nonlinear_arith)
        requires
            n * n <= ns * s < (n + 1) * (n + 1),
            s == 65536,
    ;

    // Expand each squared component against its remainder.
    assert((n * n) * (cx * cx) == (a.x * s) * (a.x * s) - 2 * (rx * (a.x * s)) + rx * rx)
        by (nonlinear_arith)
        requires
            rx == a.x * s - n * cx,
    ;
    assert((n * n) * (cy * cy) == (a.y * s) * (a.y * s) - 2 * (ry * (a.y * s)) + ry * ry)
        by (nonlinear_arith)
        requires
            ry == a.y * s - n * cy,
    ;
    assert((n * n) * (cz * cz) == (a.z * s) * (a.z * s) - 2 * (rz * (a.z * s)) + rz * rz)
        by (nonlinear_arith)
        requires
            rz == a.z * s - n * cz,
    ;
    let cc = cx * cx + cy * cy + cz * cz;
    let pp = rx * (a.x * s) + ry * (a.y * s) + rz * (a.z * s);
    let rr = rx * rx + ry * ry + rz * rz;
    assert((n * n) * cc == yy - 2 * pp + rr) by (nonlinear_arith)
        requires
            cc == cx * cx + cy * cy + cz * cz,
            (n * n) * (cx * cx) == (a.x * s) * (a.x * s) - 2 * (rx * (a.x * s)) + rx * rx,
            (n * n) * (cy * cy) == (a.y * s) * (a.y * s) - 2 * (ry * (a.y * s)) + ry * ry,
            (n * n) * (cz * cz) == (a.z * s) * (a.z * s) - 2 * (rz * (a.z * s)) + rz * rz,
            yy == (a.x * s) * (a.x * s) + (a.y * s) * (a.y * s) + (a.z * s) * (a.z * s),
            pp == rx * (a.x * s) + ry * (a.y * s) + rz * (a.z * s),
            rr == rx * rx + ry * ry + rz * rz,
    ;

    // Bound the error terms.
    lemma_abs_mul(rx, a.x * s);
    lemma_abs_mul(ry, a.y * s);
    lemma_abs_mul(rz, a.z * s);
    lemma_abs_mul(a.x, s);
    lemma_abs_mul(a.y, s);
    lemma_abs_mul(a.z, s);
    assert(abs_i(rx) * abs_i(a.x * s) <= n * (s * (n + 1))) by (nonlinear_arith)
        requires
            0 <= abs_i(rx) <= n && 0 <= abs_i(a.x * s) <= s * (n + 1) && s == 65536,
    ;
    assert(abs_i(ry) * abs_i(a.y * s) <= n * (s * (n + 1))) by (nonlinear_arith)
        requires
            0 <= abs_i(ry) <= n && 0 <= abs_i(a.y * s) <= s * (n + 1) && s == 65536,
    ;
    assert(abs_i(rz) * abs_i(a.z * s) <= n * (s * (n + 1))) by (nonlinear_arith)
        requires
            0 <= abs_i(rz) <= n && 0 <= abs_i(a.z * s) <= s * (n + 1) && s == 65536,
    ;
    assert(abs_i(pp) <= 3 * (n * (s * (n + 1))));
    assert(0 <= rx * rx <= n * n) by (nonlinear_arith)
        requires
            abs_i(rx) <= n,
    ;
    assert(0 <= ry * ry <= n * n) by (nonlinear_arith)
        requires
            abs_i(ry) <= n,
    ;
    assert(0 <= rz * rz <= n * n) by (nonlinear_arith)
        requires
            abs_i(rz) <= n,
    ;

    // The bracket for the exact sum of squared components.
    assert((n * n) * cc <= (s * s) * ((n + 1) * (n + 1)) + 3 * (s * s * s) + 6 * (n * (s * (n + 1)))
        + 3 * (n * n));
    assert((n * n) * cc >= (s * s) * (n * n) - 6 * (n * (s * (n + 1))));

    // Divide the bracket by the squared norm.
    assert((s * s) * ((n + 1) * (n + 1)) + 3 * (s * s * s) + 6 * (n * (s * (n + 1))) + 3 * (n * n)
        <= (n * n) * (s * s + 23 * s)) by (nonlinear_arith)
        requires
            n >= 32768 && s == 65536,
    ;
    assert((s * s) * (n * n) - 6 * (n * (s * (n + 1))) >= (n * n) * (s * s - 7 * s))
        by (nonlinear_arith)
        requires
            n >= 32768 && s == 65536,
    ;
    if cc > s * s + 23 * s {
        assert((n * n) * cc > (n * n) * (s * s + 23 * s)) by (nonlinear_arith)
            requires
                cc > s * s + 23 * s && n >= 32768 && s == 65536,
        ;
        assert(false);
    }
    if cc < s * s - 7 * s {
        assert((n * n) * cc < (n * n) * (s * s - 7 * s)) by (nonlinear_arith)
            requires
                cc < s * s - 7 * s && n >= 32768 && s == 65536,
        ;
        assert(false);
    }

    // Finally, the fixed-point squared norm brackets the exact one.
    let out = v_norm_sq(v_normalize(a));
    lemma_small_square(cx);
    lemma_small_square(cy);
    lemma_small_square(cz);
    vstd::arithmetic::div_mod::lemma_fundamental_div_mod(cx * cx, s);
    vstd::arithmetic::div_mod::lemma_fundamental_div_mod(cy * cy, s);
    vstd::arithmetic::div_mod::lemma_fundamental_div_mod(cz * cz, s);
    assert(s * out <= cc < s * out + 3 * s);
}

impl Vec3 {
    pub fn new(x: i64, y: i64, z: i64) -> (r: Vec3)
        ensures
            r@ == (V3 { x: x as int, y: y as int, z: z as int }),
    {
        Vec3 { x, y, z }
    }

    pub fn add(&self, o: &Vec3) -> (r: Vec3)
        ensures
            r@ == v_add(self@, o@),
    {
        Vec3 { x: fx_add(self.x, o.x), y: fx_add(self.y, o.y), z: fx_add(self.z, o.z) }
    }

    pub fn sub(&self, o: &Vec3) -> (r: Vec3)
        ensures
            r@ == v_sub(self@, o@),
    {
        Vec3 { x: fx_sub(self.x, o.x), y: fx_sub(self.y, o.y), z: fx_sub(self.z, o.z) }
    }

    pub fn scale(&self, s: i64) -> (r: Vec3)
        ensures
            r@ == v_scale(self@, s as int),
    {
        Vec3 { x: fx_mul(self.x, s), y: fx_mul(self.y, s), z: fx_mul(self.z, s) }
    }

    pub fn sdiv(&self, s: i64) -> (r: Vec3)
        requires
            s != 0,
        ensures
            r@ == v_sdiv(self@, s as int),
    {
        Vec3 { x: fx_div(self.x, s), y: fx_div(self.y, s), z: fx_div(self.z, s) }
    }

    pub fn component_mul(&self, o: &Vec3) -> (r: Vec3)
        ensures
            r@ == v_cmul(self@, o@),
    {
        Vec3 { x: fx_mul(self.x, o.x), y: fx_mul(self.y, o.y), z: fx_mul(self.z, o.z) }
    }

    pub fn dot(&self, o: &Vec3) -> (r: i64)
        ensures
            r as int == v_dot(self@, o@),
    {
        fx_add(fx_add(fx_mul(self.x, o.x), fx_mul(self.y, o.y)), fx_mul(self.z, o.z))
    }

    pub fn cross(&self, o: &Vec3) -> (r: Vec3)
        ensures
            r@ == v_cross(self@, o@),
    {
        Vec3 {
            x: fx_sub(fx_mul(self.y, o.z), fx_mul(self.z, o.y)),
            y: fx_sub(fx_mul(self.z, o.x), fx_mul(self.x, o.z)),
            z: fx_sub(fx_mul(self.x, o.y), fx_mul(self.y, o.x)),
        }
    }

    pub fn norm_squared(&self) -> (r: i64)
        ensures
            r as int == v_norm_sq(self@),
            r >= 0,
    {
        proof {
            lemma_norm_sq_nonneg(self@);
        }
        self.dot(self)
    }

    pub fn norm(&self) -> (r: i64)
        ensures
            r as int == v_norm(self@),
            r >= 0,
    {
        let ns = self.norm_squared();
        fx_sqrt(ns)
    }

    pub fn normalize(&self) -> (r: Vec3)
        ensures
            r@ == v_normalize(self@),
    {
        let n = self.norm();
        if n <= 0 {
            Vec3 { x: 0, y: 0, z: 0 }
        } else {
            self.sdiv(n)
        }
    }
}

} // verus!
