//! Rays and intersection records.

use vstd::prelude::*;

use crate::vec3::{v_normalize, V3, Vec3};

verus! {

/// The model of a ray: origin and direction triples.
pub ghost struct RayV {
    pub origin: V3,
    pub dir: V3,
}

pub struct Ray {
    pub origin: Vec3,
    pub dir: Vec3,
}

impl View for Ray {
    type V = RayV;

    open spec fn view(&self) -> RayV {
        RayV { origin: self.origin@, dir: self.dir@ }
    }
}

/// What `Ray::new` builds: the direction is normalized on construction.
pub open spec fn ray_new_spec(origin: V3, dir: V3) -> RayV {
    RayV { origin, dir: v_normalize(dir) }
}

impl Ray {
    pub fn new(origin: Vec3, dir: Vec3) -> (r: Ray)
        ensures
            r@ == ray_new_spec(origin@, dir@),
    {
        Ray { origin, dir: dir.normalize() }
    }
}

/// The model of an intersection record.
pub ghost struct IsectV {
    pub pos: V3,
    pub normal: V3,
    pub dist: int,
    pub u: int,
    pub v: int,
}

/// A hit: position, surface normal, distance along the generating ray, and
/// the surface's two-dimensional parameterization.
pub struct Intersection {
    pub pos: Vec3,
    pub normal: Vec3,
    pub dist: i64,
    pub u: i64,
    pub v: i64,
}

impl View for Intersection {
    type V = IsectV;

    open spec fn view(&self) -> IsectV {
        IsectV {
            pos: self.pos@,
            normal: self.normal@,
            dist: self.dist as int,
            u: self.u as int,
            v: self.v as int,
        }
    }
}

impl Intersection {
    pub fn new(pos: Vec3, normal: Vec3, dist: i64, u: i64, v: i64) -> (r: Intersection)
        ensures
            r@ == (IsectV {
                pos: pos@,
                normal: normal@,
                dist: dist as int,
                u: u as int,
                v: v as int,
            }),
    {
        Intersection { pos, normal, dist, u, v }
    }
}

} // verus!
