//! Geometric primitives: spheres and planes, as one closed surface type.

use vstd::prelude::*;

use crate::fixed::{
    abs_i, fadd, fdbl, fdiv, fmul, fsqrt, fsub, fx_add, fx_dbl, fx_div, fx_mul, fx_neg, fx_sqrt,
    fx_sub, is_isqrt, lemma_abs_mul, lemma_fmul_half, lemma_isqrt_exists, lemma_tdiv_remainder,
    lemma_tdiv_scale_error, tdiv, FX_HALF, SCALE,
};
use crate::material::{displacement_map_spec, normal_map_spec, Material};
use crate::ray::{Intersection, IsectV, Ray, RayV};
use crate::trig::{atan2_fx, atan2_spec, atan_fx, atan_spec, PI_FX, TWO_PI_FX};
use crate::vec3::{
    lemma_dot_error, lemma_mul_term_error, lemma_normalize_component_bound,
    lemma_normalize_norm_sq_bound, lemma_small_square, v_add, v_cross, v_dot, v_norm, v_norm_sq,
    v_normalize, v_scale, v_sub, V3, Vec3,
};
use vstd::arithmetic::div_mod::{
    lemma_div_is_ordered, lemma_div_nonincreasing, lemma_fundamental_div_mod,
};

verus! {

/// A sphere: center, radius and material.
#[derive(Clone)]
pub struct Sphere {
    pub pos: Vec3,
    pub radius: i64,
    pub material: Material,
}

/// A plane through `point` with the given normal, and a material.
#[derive(Clone)]
pub struct Plane {
    pub point: Vec3,
    pub normal: Vec3,
    pub material: Material,
}

#[derive(Clone)]
pub enum Surface {
    Sphere(Sphere),
    Plane(Plane),
}

/// An option of hits, seen through the records' views.
pub open spec fn hit_view(o: Option<Intersection>) -> Option<IsectV> {
    match o {
        Some(h) => Some(h@),
        None => None,
    }
}

/// The quadratic's linear coefficient, `2 * dot(dir, origin - center)`.
pub open spec fn sphere_b(s: Sphere, r: RayV) -> int {
    fdbl(v_dot(r.dir, v_sub(r.origin, s.pos@)))
}

/// The quadratic's constant coefficient, `|origin - center|^2 - radius^2`.
pub open spec fn sphere_c(s: Sphere, r: RayV) -> int {
    fsub(v_norm_sq(v_sub(r.origin, s.pos@)), fmul(s.radius as int, s.radius as int))
}

/// The discriminant `b^2 - 4 c`.
pub open spec fn sphere_disc(s: Sphere, r: RayV) -> int {
    fsub(fmul(sphere_b(s, r), sphere_b(s, r)), fdbl(fdbl(sphere_c(s, r))))
}

/// The hit record at distance `d` along the ray: position, outward normal,
/// and the arctangent-derived latitude/longitude parameterization.  A
/// normal map perturbs the normal at the geometric point; a displacement
/// map shifts the returned position.  The distance and the
/// parameterization always belong to the undisplaced point.
pub open spec fn sphere_isect(s: Sphere, r: RayV, d: int) -> IsectV {
    let geo_pos = v_add(r.origin, v_scale(r.dir, d));
    let raw_normal = v_normalize(v_sub(geo_pos, s.pos@));
    let normal = match s.material.normal_map {
        Some(nm) => normal_map_spec(nm, raw_normal, geo_pos),
        None => raw_normal,
    };
    let pos = match s.material.displacement_map {
        Some(dm) => displacement_map_spec(dm, geo_pos),
        None => geo_pos,
    };
    let cv = v_normalize(v_sub(s.pos@, geo_pos));
    IsectV {
        pos,
        normal,
        dist: d,
        u: fadd(FX_HALF as int, fdiv(atan2_spec(cv.z, cv.x), TWO_PI_FX as int)),
        v: fsub(FX_HALF as int, fdiv(atan_spec(cv.y), PI_FX as int)),
    }
}

/// Where a ray meets a sphere: no hit when the discriminant is negative or
/// the sphere lies behind the origin; otherwise the smaller positive root,
/// falling back to the larger one when the origin is inside the sphere.
pub open spec fn sphere_hit(s: Sphere, r: RayV) -> Option<IsectV> {
    let b = sphere_b(s, r);
    let disc = sphere_disc(s, r);
    if disc >= 0 {
        let ds = fsqrt(disc);
        let d1 = fmul(fsub(ds, b), FX_HALF as int);
        let d2 = fmul(fsub(fsub(0, b), ds), FX_HALF as int);
        if d2 > 0 {
            Some(sphere_isect(s, r, d2))
        } else if d1 > 0 {
            Some(sphere_isect(s, r, d1))
        } else {
            None
        }
    } else {
        None
    }
}

/// Where a ray meets a plane: none when the ray is parallel to it (the
/// denominator is exactly zero) or the plane is behind the origin.
pub open spec fn plane_hit(p: Plane, r: RayV) -> Option<IsectV> {
    let denom = v_dot(r.dir, p.normal@);
    if denom == 0 {
        None
    } else {
        let d = fdiv(v_dot(p.normal@, v_sub(p.point@, r.origin)), denom);
        if d > 0 {
            let geo_pos = v_add(r.origin, v_scale(r.dir, d));
            let u_axis = V3 { x: p.normal@.y, y: p.normal@.z, z: fsub(0, p.normal@.x) };
            let v_axis = v_cross(u_axis, p.normal@);
            let normal = match p.material.normal_map {
                Some(nm) => normal_map_spec(nm, p.normal@, geo_pos),
                None => p.normal@,
            };
            let pos = match p.material.displacement_map {
                Some(dm) => displacement_map_spec(dm, geo_pos),
                None => geo_pos,
            };
            Some(
                IsectV {
                    pos,
                    normal,
                    dist: d,
                    u: v_dot(geo_pos, u_axis),
                    v: v_dot(geo_pos, v_axis),
                },
            )
        } else {
            None
        }
    }
}

pub open spec fn surface_hit(s: Surface, r: RayV) -> Option<IsectV> {
    match s {
        Surface::Sphere(sp) => sphere_hit(sp, r),
        Surface::Plane(pl) => plane_hit(pl, r),
    }
}

pub open spec fn surface_material(s: Surface) -> Material {
    match s {
        Surface::Sphere(sp) => sp.material,
        Surface::Plane(pl) => pl.material,
    }
}

impl Sphere {
    pub fn new(pos: Vec3, radius: i64, material: Material) -> (r: Sphere)
        ensures
            r.pos == pos,
            r.radius == radius,
            r.material == material,
    {
        Sphere { pos, radius, material }
    }

    pub fn material(&self) -> (r: &Material)
        ensures
            *r == self.material,
    {
        &self.material
    }

    /// Solve the quadratic `t^2 + b t + c == 0` for the ray parameter and
    /// keep the nearest hit in front of the origin.
    pub fn intersect(&self, ray: &Ray) -> (r: Option<Intersection>)
        ensures
            hit_view(r) == sphere_hit(*self, ray@),
            r matches Some(h) ==> h.dist > 0,
    {
        let center_offset = ray.origin.sub(&self.pos);
        let b = fx_dbl(ray.dir.dot(&center_offset));
        let c = fx_sub(center_offset.norm_squared(), fx_mul(self.radius, self.radius));

        let discriminant = fx_sub(fx_mul(b, b), fx_dbl(fx_dbl(c)));

        if discriminant >= 0 {
            let disc_sqrt = fx_sqrt(discriminant);
            let d1 = fx_mul(fx_sub(disc_sqrt, b), FX_HALF);
            let d2 = fx_mul(fx_sub(fx_neg(b), disc_sqrt), FX_HALF);

            // d1 is never smaller than d2; prefer the smallest positive
            // distance, and fall back to d1 from inside the sphere.
            let d = if d2 > 0 {
                d2
            } else if d1 > 0 {
                d1
            } else {
                // Both behind the origin.
                return None;
            };

            let geo_pos = ray.origin.add(&ray.dir.scale(d));
            let raw_normal = geo_pos.sub(&self.pos).normalize();

            let normal = if self.material.has_normal_map() {
                self.material.apply_normal_map(&raw_normal, &geo_pos)
            } else {
                raw_normal
            };

            let pos = if self.material.has_displacement_map() {
                self.material.apply_displacement_map(&geo_pos)
            } else {
                geo_pos
            };

            // The parameterization belongs to the undisplaced point.
            let center_vec = self.pos.sub(&geo_pos).normalize();
            let u = fx_add(FX_HALF, fx_div(atan2_fx(center_vec.z, center_vec.x), TWO_PI_FX));
            let v = fx_sub(FX_HALF, fx_div(atan_fx(center_vec.y), PI_FX));

            Some(Intersection::new(pos, normal, d, u, v))
        } else {
            None
        }
    }
}

impl Plane {
    pub fn new(point: Vec3, normal: Vec3, material: Material) -> (r: Plane)
        ensures
            r.point == point,
            r.normal == normal,
            r.material == material,
    {
        Plane { point, normal, material }
    }

    pub fn material(&self) -> (r: &Material)
        ensures
            *r == self.material,
    {
        &self.material
    }

    /// A ray exactly parallel to the plane never hits it; otherwise the hit
    /// must lie in front of the origin.
    pub fn intersect(&self, ray: &Ray) -> (r: Option<Intersection>)
        ensures
            hit_view(r) == plane_hit(*self, ray@),
            v_dot(ray@.dir, self.normal@) == 0 ==> r is None,
            r matches Some(h) ==> h.dist > 0,
    {
        let denom = ray.dir.dot(&self.normal);
        if denom == 0 {
            return None;
        }
        let d = fx_div(self.normal.dot(&self.point.sub(&ray.origin)), denom);
        if d > 0 {
            let geo_pos = ray.origin.add(&ray.dir.scale(d));

            let u_axis = Vec3::new(self.normal.y, self.normal.z, fx_neg(self.normal.x));
            let v_axis = u_axis.cross(&self.normal);
            let u = geo_pos.dot(&u_axis);
            let v = geo_pos.dot(&v_axis);

            // The normal map perturbs the plane's fixed normal, at the hit
            // position; the displacement leaves the parameterization alone.
            let normal = if self.material.has_normal_map() {
                self.material.apply_normal_map(&self.normal, &geo_pos)
            } else {
                self.normal
            };

            let pos = if self.material.has_displacement_map() {
                self.material.apply_displacement_map(&geo_pos)
            } else {
                geo_pos
            };

            Some(Intersection::new(pos, normal, d, u, v))
        } else {
            None
        }
    }
}

/// A sphere hit without a normal map carries a normal of unit length, up to
/// the fixed-point resolution: every component at most one and two scale
/// units in magnitude, the squared norm within a few dozen scale units of
/// one.  The hypotheses ask the geometric offset from the center to be at
/// least half a unit long and unsaturated; a shorter offset loses its
/// direction to truncation.
pub proof fn lemma_sphere_hit_unit_normal(s: Sphere, r: RayV, hit: IsectV)
    requires
        s.material.normal_map is None,
        sphere_hit(s, r) == Some(hit),
        v_norm(v_sub(v_add(r.origin, v_scale(r.dir, hit.dist)), s.pos@)) >= (SCALE as int) / 2,
        abs_i(v_sub(v_add(r.origin, v_scale(r.dir, hit.dist)), s.pos@).x) <= 0x40_0000_0000,
        abs_i(v_sub(v_add(r.origin, v_scale(r.dir, hit.dist)), s.pos@).y) <= 0x40_0000_0000,
        abs_i(v_sub(v_add(r.origin, v_scale(r.dir, hit.dist)), s.pos@).z) <= 0x40_0000_0000,
    ensures
        abs_i(hit.normal.x) <= SCALE + 2,
        abs_i(hit.normal.y) <= SCALE + 2,
        abs_i(hit.normal.z) <= SCALE + 2,
        (SCALE as int) - 10 <= v_norm_sq(hit.normal) <= (SCALE as int) + 23,
{
    let off = v_sub(v_add(r.origin, v_scale(r.dir, hit.dist)), s.pos@);
    assert(hit.normal == v_normalize(off));
    lemma_normalize_component_bound(off);
    lemma_normalize_norm_sq_bound(off);
}

/// The square of a binomial, in four abstract parts.
proof fn lemma_binomial_square(sw: int, a: int, g: int, u: int) by (nonlinear_arith)
    requires
        sw == a + g - u,
    ensures
        sw * sw == a * a + g * g + u * u + 2 * (a * g) - 2 * (a * u) - 2 * (g * u),
{
}

/// One squared offset component at the doubled scale, expanded against its
/// truncation error: for `s w == s c + e d - u`,
/// `(s s)(w w) == (s s)(c c) + (d d)(e e) + u u + 2 s d e c - 2 s c u - 2 d e u`.
proof fn lemma_offset_square(sc: int, w: int, c: int, e: int, d: int, u: int)
    requires
        sc * w == sc * c + e * d - u,
    ensures
        (sc * sc) * (w * w) == (sc * sc) * (c * c) + (d * d) * (e * e) + u * u + 2 * (sc * (d * (e
            * c))) - 2 * (sc * (c * u)) - 2 * (d * (e * u)),
{
    lemma_binomial_square(sc * w, sc * c, e * d, u);
    assert((sc * w) * (sc * w) == (sc * sc) * (w * w)) by (nonlinear_arith);
    assert((sc * c) * (sc * c) == (sc * sc) * (c * c)) by (nonlinear_arith);
    assert((e * d) * (e * d) == (d * d) * (e * e)) by (nonlinear_arith);
    assert((sc * c) * (e * d) == sc * (d * (e * c))) by (nonlinear_arith);
    assert((sc * c) * u == sc * (c * u)) by (nonlinear_arith);
    assert((e * d) * u == d * (e * u)) by (nonlinear_arith);
}

/// A sphere hit without a displacement map lies on the sphere, up to
/// arithmetic truncation: the residual between the squared offset from the
/// center and the squared radius is a few scale units, plus shares that
/// grow with the quadratic root's margin, the hit distance, the origin's
/// offset from the center, and the square of the distance times the ray
/// direction's own unit-length tolerance.  The bounds keep every
/// intermediate product inside the representable range.
#[verifier::rlimit(100)]
pub proof fn lemma_sphere_hit_on_sphere(s: Sphere, r: RayV, hit: IsectV)
    requires
        s.material.displacement_map is None,
        sphere_hit(s, r) == Some(hit),
        abs_i(r.origin.x) <= 0x4_0000_0000,
        abs_i(r.origin.y) <= 0x4_0000_0000,
        abs_i(r.origin.z) <= 0x4_0000_0000,
        abs_i(s.pos@.x) <= 0x4_0000_0000,
        abs_i(s.pos@.y) <= 0x4_0000_0000,
        abs_i(s.pos@.z) <= 0x4_0000_0000,
        abs_i(r.dir.x) <= 131072,
        abs_i(r.dir.y) <= 131072,
        abs_i(r.dir.z) <= 131072,
        (SCALE as int) - 10 <= v_norm_sq(r.dir) <= (SCALE as int) + 23,
        abs_i(s.radius as int) <= 0x8_0000_0000,
        abs_i(hit.dist) <= 0x10_0000_0000,
    ensures
        abs_i(v_norm_sq(v_sub(hit.pos, s.pos@)) - fmul(s.radius as int, s.radius as int)) <= 9 + (
        abs_i(2 * hit.dist + sphere_b(s, r)) + 18 * abs_i(hit.dist) + 2 * (abs_i(
            v_sub(r.origin, s.pos@).x,
        ) + abs_i(v_sub(r.origin, s.pos@).y) + abs_i(v_sub(r.origin, s.pos@).z))) / (SCALE as int)
            + (26 * (hit.dist * hit.dist)) / ((SCALE as int) * (SCALE as int)),
{
    let sc = SCALE as int;
    let dir = r.dir;
    let oc = v_sub(r.origin, s.pos@);
    let d = hit.dist;
    let rad = s.radius as int;
    assert(oc.x == r.origin.x - s.pos@.x && oc.y == r.origin.y - s.pos@.y && oc.z == r.origin.z
        - s.pos@.z);

    // The quadratic's coefficients and their truncation errors.
    let dot1 = v_dot(dir, oc);
    let dt = dir.x * oc.x + dir.y * oc.y + dir.z * oc.z;
    lemma_dot_error(dir, oc, 131072, 0x8_0000_0000);
    let e1 = dt - sc * dot1;
    assert(abs_i(e1) < 3 * sc);
    lemma_mul_term_error(dir.x, oc.x, 131072, 0x8_0000_0000);
    lemma_mul_term_error(dir.y, oc.y, 131072, 0x8_0000_0000);
    lemma_mul_term_error(dir.z, oc.z, 131072, 0x8_0000_0000);
    lemma_abs_mul(dir.x, oc.x);
    lemma_abs_mul(dir.y, oc.y);
    lemma_abs_mul(dir.z, oc.z);
    assert(abs_i(dir.x) * abs_i(oc.x) <= 0x10_0000_0000_0000) by (nonlinear_arith)
        requires
            0 <= abs_i(dir.x) <= 131072 && 0 <= abs_i(oc.x) <= 0x8_0000_0000,
    ;
    assert(abs_i(dir.y) * abs_i(oc.y) <= 0x10_0000_0000_0000) by (nonlinear_arith)
        requires
            0 <= abs_i(dir.y) <= 131072 && 0 <= abs_i(oc.y) <= 0x8_0000_0000,
    ;
    assert(abs_i(dir.z) * abs_i(oc.z) <= 0x10_0000_0000_0000) by (nonlinear_arith)
        requires
            0 <= abs_i(dir.z) <= 131072 && 0 <= abs_i(oc.z) <= 0x8_0000_0000,
    ;
    lemma_div_is_ordered(abs_i(dir.x * oc.x), 0x10_0000_0000_0000int, sc);
    lemma_div_is_ordered(abs_i(dir.y * oc.y), 0x10_0000_0000_0000int, sc);
    lemma_div_is_ordered(abs_i(dir.z * oc.z), 0x10_0000_0000_0000int, sc);
    assert(abs_i(dot1) <= 0x40_0000_0000);
    let b = sphere_b(s, r);
    assert(b == 2 * dot1);
    assert(abs_i(b) <= 0x80_0000_0000);

    let nsoc = v_norm_sq(oc);
    let oo = oc.x * oc.x + oc.y * oc.y + oc.z * oc.z;
    lemma_small_square(oc.x);
    lemma_small_square(oc.y);
    lemma_small_square(oc.z);
    lemma_fundamental_div_mod(oc.x * oc.x, sc);
    lemma_fundamental_div_mod(oc.y * oc.y, sc);
    lemma_fundamental_div_mod(oc.z * oc.z, sc);
    let e2 = oo - sc * nsoc;
    assert(0 <= e2 < 3 * sc);
    lemma_abs_mul(oc.x, oc.x);
    lemma_abs_mul(oc.y, oc.y);
    lemma_abs_mul(oc.z, oc.z);
    assert(abs_i(oc.x) * abs_i(oc.x) <= 0x40_0000_0000_0000_0000) by (nonlinear_arith)
        requires
            0 <= abs_i(oc.x) <= 0x8_0000_0000,
    ;
    assert(abs_i(oc.y) * abs_i(oc.y) <= 0x40_0000_0000_0000_0000) by (nonlinear_arith)
        requires
            0 <= abs_i(oc.y) <= 0x8_0000_0000,
    ;
    assert(abs_i(oc.z) * abs_i(oc.z) <= 0x40_0000_0000_0000_0000) by (nonlinear_arith)
        requires
            0 <= abs_i(oc.z) <= 0x8_0000_0000,
    ;
    lemma_div_is_ordered(abs_i(oc.x * oc.x), 0x40_0000_0000_0000_0000int, sc);
    lemma_div_is_ordered(abs_i(oc.y * oc.y), 0x40_0000_0000_0000_0000int, sc);
    lemma_div_is_ordered(abs_i(oc.z * oc.z), 0x40_0000_0000_0000_0000int, sc);
    assert(abs_i(nsoc) <= 0xc0_0000_0000_0000);

    let fr = fmul(rad, rad);
    lemma_small_square(rad);
    lemma_fundamental_div_mod(rad * rad, sc);
    let e3 = rad * rad - sc * fr;
    assert(0 <= e3 < sc);
    lemma_abs_mul(rad, rad);
    assert(abs_i(rad) * abs_i(rad) <= 0x40_0000_0000_0000_0000) by (nonlinear_arith)
        requires
            0 <= abs_i(rad) <= 0x8_0000_0000,
    ;
    lemma_div_is_ordered(abs_i(rad * rad), 0x40_0000_0000_0000_0000int, sc);
    assert(abs_i(fr) <= 0x40_0000_0000_0000);

    let cq = sphere_c(s, r);
    assert(cq == nsoc - fr);
    assert(sc * cq == oo - rad * rad - e2 + e3);
    assert(abs_i(cq) <= 0x200_0000_0000_0000);

    // The discriminant and its square root.
    let fb = fmul(b, b);
    lemma_abs_mul(b, b);
    assert(b * b >= 0) by (nonlinear_arith);
    assert(abs_i(b) * abs_i(b) <= 0x4000_0000_0000_0000_0000) by (nonlinear_arith)
        requires
            0 <= abs_i(b) <= 0x80_0000_0000,
    ;
    lemma_div_is_ordered(abs_i(b * b), 0x4000_0000_0000_0000_0000int, sc);
    lemma_tdiv_scale_error(b * b);
    assert(fb == tdiv(b * b, sc));
    lemma_fundamental_div_mod(b * b, sc);
    let e4 = b * b - sc * fb;
    assert(0 <= e4 < sc);
    let disc = sphere_disc(s, r);
    assert(disc == fb - 4 * cq);
    assert(disc >= 0);
    assert(sc * disc == b * b - e4 - 4 * (sc * cq));

    let ds = fsqrt(disc);
    lemma_isqrt_exists(disc * sc);
    assert(is_isqrt(disc * sc, ds));
    if ds >= 0x100_0000_0000 {
        assert(ds * ds >= 0x100_0000_0000 * 0x100_0000_0000) by (nonlinear_arith)
            requires
                ds >= 0x100_0000_0000,
        ;
        assert(false);
    }
    assert((ds + 1) * (ds + 1) == ds * ds + 2 * ds + 1) by (nonlinear_arith);
    let eps = disc * sc - ds * ds;
    assert(0 <= eps <= 2 * ds);

    // The chosen root, off the exact half-sum by at most one.
    let d1v = fmul(fsub(ds, b), FX_HALF as int);
    let d2v = fmul(fsub(fsub(0, b), ds), FX_HALF as int);
    assert(d == d2v || d == d1v);
    assert(fsub(ds, b) == ds - b && fsub(fsub(0, b), ds) == -b - ds);
    let tb = 2 * d + b;
    let tau = tb * tb - ds * ds;
    if d == d2v {
        lemma_fmul_half(-b - ds);
        lemma_tdiv_remainder(-b - ds, 2);
        let sg = (-b - ds) - 2 * d;
        assert(abs_i(sg) <= 1);
        assert(tb == -ds - sg);
        assert(tb * tb == ds * ds + 2 * (ds * sg) + sg * sg) by (nonlinear_arith)
            requires
                tb == -ds - sg,
        ;
        assert(abs_i(ds * sg) <= ds && 0 <= sg * sg <= 1) by (nonlinear_arith)
            requires
                abs_i(sg) <= 1 && ds >= 0,
        ;
        assert(abs_i(tau) <= 2 * ds + 1);
        assert(ds <= abs_i(tb) + 1);
    } else {
        lemma_fmul_half(ds - b);
        lemma_tdiv_remainder(ds - b, 2);
        let sg = (ds - b) - 2 * d;
        assert(abs_i(sg) <= 1);
        assert(tb == ds - sg);
        assert(tb * tb == ds * ds - 2 * (ds * sg) + sg * sg) by (nonlinear_arith)
            requires
                tb == ds - sg,
        ;
        assert(abs_i(ds * sg) <= ds && 0 <= sg * sg <= 1) by (nonlinear_arith)
            requires
                abs_i(sg) <= 1 && ds >= 0,
        ;
        assert(abs_i(tau) <= 2 * ds + 1);
        assert(ds <= abs_i(tb) + 1);
    }

    // The quadratic's value at the chosen root is only truncation.
    let q = d * d + d * b + sc * cq;
    assert(4 * q == tb * tb - (b * b - 4 * (sc * cq))) by (nonlinear_arith)
        requires
            q == d * d + d * b + sc * cq && tb == 2 * d + b,
    ;
    assert(b * b - 4 * (sc * cq) == sc * disc + e4);
    assert(4 * q == tau - eps - e4);
    assert(abs_i(4 * q) <= 4 * abs_i(tb) + sc + 5);
    assert(4 * abs_i(q) <= 4 * abs_i(tb) + sc + 5);

    // The hit position and its offset from the center, exactly.
    let mx = fmul(dir.x, d);
    let my = fmul(dir.y, d);
    let mz = fmul(dir.z, d);
    lemma_mul_term_error(dir.x, d, 131072, 0x10_0000_0000);
    lemma_mul_term_error(dir.y, d, 131072, 0x10_0000_0000);
    lemma_mul_term_error(dir.z, d, 131072, 0x10_0000_0000);
    lemma_abs_mul(dir.x, d);
    lemma_abs_mul(dir.y, d);
    lemma_abs_mul(dir.z, d);
    assert(abs_i(dir.x) * abs_i(d) <= 0x20_0000_0000_0000) by (nonlinear_arith)
        requires
            0 <= abs_i(dir.x) <= 131072 && 0 <= abs_i(d) <= 0x10_0000_0000,
    ;
    assert(abs_i(dir.y) * abs_i(d) <= 0x20_0000_0000_0000) by (nonlinear_arith)
        requires
            0 <= abs_i(dir.y) <= 131072 && 0 <= abs_i(d) <= 0x10_0000_0000,
    ;
    assert(abs_i(dir.z) * abs_i(d) <= 0x20_0000_0000_0000) by (nonlinear_arith)
        requires
            0 <= abs_i(dir.z) <= 131072 && 0 <= abs_i(d) <= 0x10_0000_0000,
    ;
    lemma_div_is_ordered(abs_i(dir.x * d), 0x20_0000_0000_0000int, sc);
    lemma_div_is_ordered(abs_i(dir.y * d), 0x20_0000_0000_0000int, sc);
    lemma_div_is_ordered(abs_i(dir.z * d), 0x20_0000_0000_0000int, sc);
    assert(abs_i(mx) <= 0x20_0000_0000 && abs_i(my) <= 0x20_0000_0000 && abs_i(mz)
        <= 0x20_0000_0000);
    let ux = dir.x * d - sc * mx;
    let uy = dir.y * d - sc * my;
    let uz = dir.z * d - sc * mz;
    assert(abs_i(ux) < sc && abs_i(uy) < sc && abs_i(uz) < sc);

    assert(hit.pos == v_add(r.origin, v_scale(dir, d)));
    assert(hit.pos.x == r.origin.x + mx && hit.pos.y == r.origin.y + my && hit.pos.z == r.origin.z
        + mz);
    let w = v_sub(hit.pos, s.pos@);
    assert(w.x == oc.x + mx && w.y == oc.y + my && w.z == oc.z + mz);
    assert(abs_i(w.x) <= 0x40_0000_0000 && abs_i(w.y) <= 0x40_0000_0000 && abs_i(w.z)
        <= 0x40_0000_0000);

    let out = v_norm_sq(w);
    let ee = w.x * w.x + w.y * w.y + w.z * w.z;
    lemma_small_square(w.x);
    lemma_small_square(w.y);
    lemma_small_square(w.z);
    lemma_fundamental_div_mod(w.x * w.x, sc);
    lemma_fundamental_div_mod(w.y * w.y, sc);
    lemma_fundamental_div_mod(w.z * w.z, sc);
    let e5 = ee - sc * out;
    assert(0 <= e5 < 3 * sc);

    // The direction's squared length, against the exact square scale.
    let nsdir = v_norm_sq(dir);
    let ddsum = dir.x * dir.x + dir.y * dir.y + dir.z * dir.z;
    lemma_small_square(dir.x);
    lemma_small_square(dir.y);
    lemma_small_square(dir.z);
    lemma_fundamental_div_mod(dir.x * dir.x, sc);
    lemma_fundamental_div_mod(dir.y * dir.y, sc);
    lemma_fundamental_div_mod(dir.z * dir.z, sc);
    assert(sc * nsdir <= ddsum < sc * nsdir + 3 * sc);
    let delta = ddsum - sc * sc;
    assert(abs_i(delta) <= 26 * sc);

    // Expand the squared offset components at the doubled scale.
    assert(sc * w.x == sc * oc.x + dir.x * d - ux);
    assert(sc * w.y == sc * oc.y + dir.y * d - uy);
    assert(sc * w.z == sc * oc.z + dir.z * d - uz);
    lemma_offset_square(sc, w.x, oc.x, dir.x, d, ux);
    lemma_offset_square(sc, w.y, oc.y, dir.y, d, uy);
    lemma_offset_square(sc, w.z, oc.z, dir.z, d, uz);
    let pp = oc.x * ux + oc.y * uy + oc.z * uz;
    let qq = dir.x * ux + dir.y * uy + dir.z * uz;
    let uu2 = ux * ux + uy * uy + uz * uz;
    assert(d * (dir.x * oc.x) + d * (dir.y * oc.y) + d * (dir.z * oc.z) == d * dt)
        by (nonlinear_arith)
        requires
            dt == dir.x * oc.x + dir.y * oc.y + dir.z * oc.z,
    ;
    assert((d * d) * (dir.x * dir.x) + (d * d) * (dir.y * dir.y) + (d * d) * (dir.z * dir.z) == (d
        * d) * ddsum) by (nonlinear_arith)
        requires
            ddsum == dir.x * dir.x + dir.y * dir.y + dir.z * dir.z,
    ;
    assert(d * (dir.x * ux) + d * (dir.y * uy) + d * (dir.z * uz) == d * qq) by (nonlinear_arith)
        requires
            qq == dir.x * ux + dir.y * uy + dir.z * uz,
    ;
    assert((sc * sc) * ee == (sc * sc) * oo + (d * d) * ddsum + uu2 + 2 * (sc * (d * dt)) - 2 * (sc
        * pp) - 2 * (d * qq));

    // Fold the coefficients' errors in.
    assert(d * dt == sc * (d * dot1) + d * e1) by (nonlinear_arith)
        requires
            dt == sc * dot1 + e1,
    ;
    assert(d * b == 2 * (d * dot1)) by (nonlinear_arith)
        requires
            b == 2 * dot1,
    ;
    assert((d * d) * ddsum == (sc * sc) * (d * d) + (d * d) * delta) by (nonlinear_arith)
        requires
            ddsum == sc * sc + delta,
    ;
    let rres = out - fr;
    assert((sc * sc) * (sc * rres) == (sc * sc) * ee - (sc * sc) * e5 - (sc * sc) * (rad * rad) + (
    sc * sc) * e3);
    assert((sc * sc) * (sc * rres) == (sc * sc) * q + (sc * sc) * e2 - (sc * sc) * e5 + 2 * (sc * (d
        * e1)) + (d * d) * delta + uu2 - 2 * (sc * pp) - 2 * (d * qq));

    // Bound every error term.
    lemma_abs_mul(d, e1);
    assert(abs_i(d) * abs_i(e1) <= abs_i(d) * (3 * sc)) by (nonlinear_arith)
        requires
            0 <= abs_i(d) && 0 <= abs_i(e1) <= 3 * sc,
    ;
    assert(d * d >= 0) by (nonlinear_arith);
    lemma_abs_mul(d * d, delta);
    lemma_abs_mul(d, d);
    assert(abs_i(d * d) * abs_i(delta) <= (d * d) * (26 * sc)) by (nonlinear_arith)
        requires
            abs_i(d * d) == d * d && 0 <= abs_i(delta) <= 26 * sc,
    ;
    assert(0 <= ux * ux <= sc * sc && 0 <= uy * uy <= sc * sc && 0 <= uz * uz <= sc * sc)
        by (nonlinear_arith)
        requires
            abs_i(ux) < sc && abs_i(uy) < sc && abs_i(uz) < sc && sc == 65536,
    ;
    lemma_abs_mul(oc.x, ux);
    lemma_abs_mul(oc.y, uy);
    lemma_abs_mul(oc.z, uz);
    assert(abs_i(oc.x) * abs_i(ux) <= abs_i(oc.x) * sc) by (nonlinear_arith)
        requires
            0 <= abs_i(oc.x) && 0 <= abs_i(ux) <= sc,
    ;
    assert(abs_i(oc.y) * abs_i(uy) <= abs_i(oc.y) * sc) by (nonlinear_arith)
        requires
            0 <= abs_i(oc.y) && 0 <= abs_i(uy) <= sc,
    ;
    assert(abs_i(oc.z) * abs_i(uz) <= abs_i(oc.z) * sc) by (nonlinear_arith)
        requires
            0 <= abs_i(oc.z) && 0 <= abs_i(uz) <= sc,
    ;
    let aa = abs_i(oc.x) + abs_i(oc.y) + abs_i(oc.z);
    assert(abs_i(pp) <= aa * sc);
    lemma_abs_mul(dir.x, ux);
    lemma_abs_mul(dir.y, uy);
    lemma_abs_mul(dir.z, uz);
    assert(abs_i(dir.x) * abs_i(ux) <= 131072 * sc) by (nonlinear_arith)
        requires
            0 <= abs_i(dir.x) <= 131072 && 0 <= abs_i(ux) <= sc,
    ;
    assert(abs_i(dir.y) * abs_i(uy) <= 131072 * sc) by (nonlinear_arith)
        requires
            0 <= abs_i(dir.y) <= 131072 && 0 <= abs_i(uy) <= sc,
    ;
    assert(abs_i(dir.z) * abs_i(uz) <= 131072 * sc) by (nonlinear_arith)
        requires
            0 <= abs_i(dir.z) <= 131072 && 0 <= abs_i(uz) <= sc,
    ;
    assert(abs_i(qq) <= 3 * (131072 * sc));
    lemma_abs_mul(d, qq);
    assert(abs_i(d) * abs_i(qq) <= abs_i(d) * (3 * (131072 * sc))) by (nonlinear_arith)
        requires
            0 <= abs_i(d) && 0 <= abs_i(qq) <= 3 * (131072 * sc),
    ;

    // Put the bound together and divide the scale back out.
    let bbnd = abs_i(tb) + 18 * abs_i(d) + 2 * aa;
    assert((sc * sc) * abs_i(q) <= (sc * sc) * abs_i(tb) + (sc * sc * sc) + 2 * (sc * sc))
        by (nonlinear_arith)
        requires
            4 * abs_i(q) <= 4 * abs_i(tb) + sc + 5 && sc == 65536 && 0 <= abs_i(q) && 0 <= abs_i(
                tb,
            ),
    ;
    lemma_abs_mul(sc * sc, q);
    lemma_abs_mul(sc * sc, sc * rres);
    lemma_abs_mul(sc, rres);
    assert(abs_i((sc * sc) * (sc * rres)) == (sc * sc) * (sc * abs_i(rres)));
    lemma_abs_mul(sc, d * e1);
    assert(abs_i(sc * (d * e1)) <= sc * (abs_i(d) * (3 * sc)));
    lemma_abs_mul(sc, pp);
    assert(abs_i(sc * pp) <= sc * (aa * sc));
    assert(abs_i(d * qq) <= abs_i(d) * (3 * (131072 * sc)));
    assert(sc * (d * e1) <= sc * (abs_i(d) * (3 * sc)) && -(sc * (d * e1)) <= sc * (abs_i(d) * (3
        * sc)));
    assert((d * d) * delta <= (d * d) * (26 * sc) && -((d * d) * delta) <= (d * d) * (26 * sc));
    assert(sc * pp <= sc * (aa * sc) && -(sc * pp) <= sc * (aa * sc));
    assert(d * qq <= abs_i(d) * (3 * (131072 * sc)) && -(d * qq) <= abs_i(d) * (3 * (131072
        * sc)));
    assert((sc * sc) * q <= (sc * sc) * abs_i(q) && -((sc * sc) * q) <= (sc * sc) * abs_i(q));
    let bound = (sc * sc) * bbnd + 7 * (sc * sc * sc) + (d * d) * (26 * sc);
    assert((sc * sc) * (sc * rres) <= bound);
    assert(-bound <= (sc * sc) * (sc * rres));
    assert((sc * sc) * (sc * abs_i(rres)) <= bound);

    let q1 = bbnd / sc;
    let q2 = (26 * (d * d)) / (sc * sc);
    lemma_fundamental_div_mod(bbnd, sc);
    lemma_fundamental_div_mod(26 * (d * d), sc * sc);
    assert((d * d) * (26 * sc) == sc * (26 * (d * d))) by (nonlinear_arith);
    if abs_i(rres) > 9 + q1 + q2 {
        assert(bbnd < sc * q1 + sc);
        assert(26 * (d * d) < (sc * sc) * q2 + sc * sc);
        assert((sc * sc) * (sc * abs_i(rres)) >= (sc * sc) * (sc * (10 + q1 + q2)));
        assert((sc * sc) * (sc * (10 + q1 + q2)) > (sc * sc) * bbnd + 7 * (sc * sc * sc) + sc * (26
            * (d * d))) by (nonlinear_arith)
            requires
                bbnd < sc * q1 + sc && 26 * (d * d) < (sc * sc) * q2 + sc * sc && sc == 65536 && 0
                    <= q1 && 0 <= q2,
        ;
        assert(false);
    }
    assert(abs_i(rres) <= 9 + q1 + q2);
}

/// The plane hit lies on the plane, up to arithmetic truncation: the plane
/// equation's residual at the returned position is at most a dozen scale
/// units plus a share that grows only with the hit distance and the scaled
/// incidence denominator.  (A displacement map moves the point off the
/// plane on purpose, so it is left aside; the bounds keep every
/// intermediate product inside the representable range.)
#[verifier::rlimit(100)]
pub proof fn lemma_plane_hit_on_plane(p: Plane, r: RayV, hit: IsectV)
    requires
        p.material.displacement_map is None,
        plane_hit(p, r) == Some(hit),
        abs_i(p.normal@.x) <= 131072,
        abs_i(p.normal@.y) <= 131072,
        abs_i(p.normal@.z) <= 131072,
        abs_i(r.dir.x) <= 131072,
        abs_i(r.dir.y) <= 131072,
        abs_i(r.dir.z) <= 131072,
        abs_i(r.origin.x) <= 0x100_0000_0000,
        abs_i(r.origin.y) <= 0x100_0000_0000,
        abs_i(r.origin.z) <= 0x100_0000_0000,
        abs_i(p.point@.x) <= 0x100_0000_0000,
        abs_i(p.point@.y) <= 0x100_0000_0000,
        abs_i(p.point@.z) <= 0x100_0000_0000,
        abs_i(hit.dist) <= 0x100_0000_0000,
    ensures
        abs_i(v_dot(v_sub(hit.pos, p.point@), p.normal@)) <= 12 + (abs_i(
            v_dot(r.dir, p.normal@),
        ) + 3 * abs_i(hit.dist)) / (SCALE as int),
{
    let s = SCALE as int;
    let n = p.normal@;
    let dir = r.dir;
    let o = r.origin;
    let p0 = p.point@;
    let denom = v_dot(dir, n);
    let diff = v_sub(p0, o);
    let num = v_dot(n, diff);
    let d = hit.dist;

    // The hit comes from the forward branch of the intersection.
    assert(denom != 0);
    assert(hit.pos == v_add(o, v_scale(dir, d)));
    assert(d == fdiv(num, denom));
    assert(diff.x == p0.x - o.x && diff.y == p0.y - o.y && diff.z == p0.z - o.z);

    // The numerator is small, so the division does not saturate.
    let n2 = n.x * diff.x + n.y * diff.y + n.z * diff.z;
    lemma_dot_error(n, diff, 131072, 0x200_0000_0000);
    lemma_abs_mul(n.x, diff.x);
    lemma_abs_mul(n.y, diff.y);
    lemma_abs_mul(n.z, diff.z);
    assert(abs_i(n.x) * abs_i(diff.x) <= 0x400_0000_0000_0000) by (nonlinear_arith)
        requires
            0 <= abs_i(n.x) <= 131072 && 0 <= abs_i(diff.x) <= 0x200_0000_0000,
    ;
    assert(abs_i(n.y) * abs_i(diff.y) <= 0x400_0000_0000_0000) by (nonlinear_arith)
        requires
            0 <= abs_i(n.y) <= 131072 && 0 <= abs_i(diff.y) <= 0x200_0000_0000,
    ;
    assert(abs_i(n.z) * abs_i(diff.z) <= 0x400_0000_0000_0000) by (nonlinear_arith)
        requires
            0 <= abs_i(n.z) <= 131072 && 0 <= abs_i(diff.z) <= 0x200_0000_0000,
    ;
    assert(abs_i(n2) <= 0xc00_0000_0000_0000);
    lemma_abs_mul(s, num);
    assert(abs_i(num) <= 0x2000_0000_0000);

    lemma_abs_mul(num, s);
    lemma_div_nonincreasing(abs_i(num * s), abs_i(denom));
    assert(abs_i(tdiv(num * s, denom)) <= abs_i(num * s));
    assert(d == tdiv(num * s, denom));

    // The division's remainder.
    lemma_tdiv_remainder(num * s, denom);
    let t = num * s - denom * d;
    assert(abs_i(t) < abs_i(denom));

    // The incidence denominator's truncation error.
    let d1 = dir.x * n.x + dir.y * n.y + dir.z * n.z;
    lemma_dot_error(dir, n, 131072, 131072);
    let r1 = d1 - s * denom;
    assert(abs_i(r1) < 3 * s);

    // The position's per-component truncation errors.
    let mx = fmul(dir.x, d) as int;
    let my = fmul(dir.y, d) as int;
    let mz = fmul(dir.z, d) as int;
    lemma_mul_term_error(dir.x, d, 131072, 0x100_0000_0000);
    lemma_mul_term_error(dir.y, d, 131072, 0x100_0000_0000);
    lemma_mul_term_error(dir.z, d, 131072, 0x100_0000_0000);
    lemma_abs_mul(dir.x, d);
    lemma_abs_mul(dir.y, d);
    lemma_abs_mul(dir.z, d);
    assert(abs_i(dir.x) * abs_i(d) <= 0x200_0000_0000_0000) by (nonlinear_arith)
        requires
            0 <= abs_i(dir.x) <= 131072 && 0 <= abs_i(d) <= 0x100_0000_0000,
    ;
    assert(abs_i(dir.y) * abs_i(d) <= 0x200_0000_0000_0000) by (nonlinear_arith)
        requires
            0 <= abs_i(dir.y) <= 131072 && 0 <= abs_i(d) <= 0x100_0000_0000,
    ;
    assert(abs_i(dir.z) * abs_i(d) <= 0x200_0000_0000_0000) by (nonlinear_arith)
        requires
            0 <= abs_i(dir.z) <= 131072 && 0 <= abs_i(d) <= 0x100_0000_0000,
    ;
    lemma_div_is_ordered(abs_i(dir.x * d), 0x200_0000_0000_0000int, s);
    lemma_div_is_ordered(abs_i(dir.y * d), 0x200_0000_0000_0000int, s);
    lemma_div_is_ordered(abs_i(dir.z * d), 0x200_0000_0000_0000int, s);
    assert(abs_i(mx) <= 0x200_0000_0000 && abs_i(my) <= 0x200_0000_0000 && abs_i(mz)
        <= 0x200_0000_0000);
    let ux = dir.x * d - s * mx;
    let uy = dir.y * d - s * my;
    let uz = dir.z * d - s * mz;
    assert(abs_i(ux) < s && abs_i(uy) < s && abs_i(uz) < s);

    // The hit point and its offset from the plane's anchor, exactly.
    let w = v_sub(hit.pos, p0);
    assert(hit.pos.x == o.x + mx && hit.pos.y == o.y + my && hit.pos.z == o.z + mz);
    assert(w.x == o.x - p0.x + mx && w.y == o.y - p0.y + my && w.z == o.z - p0.z + mz);
    assert(abs_i(w.x) <= 0x400_0000_0000 && abs_i(w.y) <= 0x400_0000_0000 && abs_i(w.z)
        <= 0x400_0000_0000);

    // The residual's own truncation error.
    let rres = v_dot(w, n);
    let wn = w.x * n.x + w.y * n.y + w.z * n.z;
    lemma_dot_error(w, n, 0x400_0000_0000, 131072);
    let v5 = s * rres - wn;
    assert(abs_i(v5) < 3 * s);

    // Assemble: the scaled residual is only the truncation errors.
    assert(s * (w.x * n.x) == s * ((o.x - p0.x) * n.x) + d * (dir.x * n.x) - ux * n.x)
        by (nonlinear_arith)
        requires
            w.x == o.x - p0.x + mx && ux == dir.x * d - s * mx && s == 65536,
    ;
    assert(s * (w.y * n.y) == s * ((o.y - p0.y) * n.y) + d * (dir.y * n.y) - uy * n.y)
        by (nonlinear_arith)
        requires
            w.y == o.y - p0.y + my && uy == dir.y * d - s * my && s == 65536,
    ;
    assert(s * (w.z * n.z) == s * ((o.z - p0.z) * n.z) + d * (dir.z * n.z) - uz * n.z)
        by (nonlinear_arith)
        requires
            w.z == o.z - p0.z + mz && uz == dir.z * d - s * mz && s == 65536,
    ;
    assert((o.x - p0.x) * n.x == -(n.x * diff.x)) by (nonlinear_arith)
        requires
            diff.x == p0.x - o.x,
    ;
    assert((o.y - p0.y) * n.y == -(n.y * diff.y)) by (nonlinear_arith)
        requires
            diff.y == p0.y - o.y,
    ;
    assert((o.z - p0.z) * n.z == -(n.z * diff.z)) by (nonlinear_arith)
        requires
            diff.z == p0.z - o.z,
    ;
    assert(d * (dir.x * n.x) + d * (dir.y * n.y) + d * (dir.z * n.z) == d * d1)
        by (nonlinear_arith)
        requires
            d1 == dir.x * n.x + dir.y * n.y + dir.z * n.z,
    ;
    let uu = ux * n.x + uy * n.y + uz * n.z;
    assert(s * wn == -(s * n2) + d * d1 - uu);

    assert(d * d1 == s * (d * denom) + d * r1) by (nonlinear_arith)
        requires
            d1 == s * denom + r1,
    ;
    assert(denom * d == d * denom) by (nonlinear_arith);
    assert(num * s == s * num) by (nonlinear_arith);
    let s2 = s * num - n2;
    assert(abs_i(s2) < 3 * s);
    assert(s * wn == s * s2 - s * t + d * r1 - uu);

    // Bound every error term.
    lemma_abs_mul(ux, n.x);
    lemma_abs_mul(uy, n.y);
    lemma_abs_mul(uz, n.z);
    assert(abs_i(ux) * abs_i(n.x) <= 65536 * 131072) by (nonlinear_arith)
        requires
            0 <= abs_i(ux) <= 65536 && 0 <= abs_i(n.x) <= 131072,
    ;
    assert(abs_i(uy) * abs_i(n.y) <= 65536 * 131072) by (nonlinear_arith)
        requires
            0 <= abs_i(uy) <= 65536 && 0 <= abs_i(n.y) <= 131072,
    ;
    assert(abs_i(uz) * abs_i(n.z) <= 65536 * 131072) by (nonlinear_arith)
        requires
            0 <= abs_i(uz) <= 65536 && 0 <= abs_i(n.z) <= 131072,
    ;
    assert(abs_i(uu) <= 6 * s * s);
    lemma_abs_mul(d, r1);
    assert(abs_i(d) * abs_i(r1) <= abs_i(d) * (3 * s)) by (nonlinear_arith)
        requires
            0 <= abs_i(d) && 0 <= abs_i(r1) <= 3 * s,
    ;

    let scaled = s * (s * rres);
    assert(scaled == s * s2 - s * t + d * r1 - uu + s * v5);
    assert(abs_i(scaled) <= 3 * s * s + s * abs_i(denom) + abs_i(d) * (3 * s) + 6 * s * s + 3 * s
        * s);
    lemma_abs_mul(s, s * rres);
    lemma_abs_mul(s, rres);
    assert(s * (s * abs_i(rres)) == abs_i(scaled));

    // Divide the bound back down.
    let bb = abs_i(denom) + 3 * abs_i(d);
    lemma_fundamental_div_mod(bb, s);
    let q = bb / s;
    assert(abs_i(d) * (3 * s) == s * (3 * abs_i(d))) by (nonlinear_arith);
    assert(abs_i(scaled) <= 12 * s * s + s * bb);
    if abs_i(rres) > 12 + q {
        assert(s * (s * abs_i(rres)) >= s * (s * (13 + q))) by (nonlinear_arith)
            requires
                abs_i(rres) >= 13 + q && s == 65536,
        ;
        assert(s * (s * (13 + q)) > 12 * s * s + s * bb) by (nonlinear_arith)
            requires
                bb < s * q + s && s == 65536,
        ;
        assert(false);
    }
}

impl Surface {
    /// Structural soundness of the surface's material.
    pub open spec fn wf(self) -> bool {
        surface_material(self).wf()
    }

    pub fn intersect(&self, ray: &Ray) -> (r: Option<Intersection>)
        ensures
            hit_view(r) == surface_hit(*self, ray@),
            r matches Some(h) ==> h.dist > 0,
    {
        match self {
            Surface::Sphere(s) => s.intersect(ray),
            Surface::Plane(p) => p.intersect(ray),
        }
    }

    pub fn material(&self) -> (r: &Material)
        ensures
            *r == surface_material(*self),
    {
        match self {
            Surface::Sphere(s) => s.material(),
            Surface::Plane(p) => p.material(),
        }
    }

    pub fn name(&self) -> (r: &'static str)
        ensures
            *self matches Surface::Sphere(_) ==> r@ == "Sphere"@,
            *self matches Surface::Plane(_) ==> r@ == "Plane"@,
    {
        match self {
            Surface::Sphere(_) => "Sphere",
            Surface::Plane(_) => "Plane",
        }
    }
}

} // verus!
