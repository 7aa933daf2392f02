//! Sphere and plane intersections on exact values.

use tracerlib::fixed::SCALE;
use tracerlib::material::{DisplacementMap, Material, NormalMap};
use tracerlib::ray::Ray;
use tracerlib::surface::{Plane, Sphere, Surface};
use tracerlib::vec3::Vec3;

const ONE: i64 = SCALE;

fn plain_material() -> Material {
    Material::new(Vec3::new(0, 0, 255 * ONE), ONE, 0, 1, 0, None, None, None)
}

fn unit_sphere() -> Sphere {
    Sphere::new(Vec3::new(0, 0, 0), ONE, plain_material())
}

#[test]
fn sphere_hit_from_outside() {
    // Ray from (0,0,-4) toward the origin against the unit sphere.
    let ray = Ray::new(Vec3::new(0, 0, -4 * ONE), Vec3::new(0, 0, ONE));
    let hit = unit_sphere().intersect(&ray).unwrap();
    assert_eq!(hit.dist, 3 * ONE);
    assert_eq!(hit.pos, Vec3::new(0, 0, -ONE));
    assert_eq!(hit.normal, Vec3::new(0, 0, -ONE));
    // The south-facing point maps to u == 0.75, v == 0.5.
    assert_eq!(hit.u, 49152);
    assert_eq!(hit.v, 32768);
}

#[test]
fn sphere_hit_from_inside_takes_exit_root() {
    // From the center, the hit is the exit point at the radius.
    let ray = Ray::new(Vec3::new(0, 0, 0), Vec3::new(0, 0, ONE));
    let hit = unit_sphere().intersect(&ray).unwrap();
    assert_eq!(hit.dist, ONE);
    assert!(hit.dist > 0);
    assert_eq!(hit.pos, Vec3::new(0, 0, ONE));
    assert_eq!(hit.normal, Vec3::new(0, 0, ONE));
}

#[test]
fn sphere_behind_origin_misses() {
    let ray = Ray::new(Vec3::new(0, 0, 4 * ONE), Vec3::new(0, 0, ONE));
    assert!(unit_sphere().intersect(&ray).is_none());
}

#[test]
fn sphere_off_axis_misses() {
    let ray = Ray::new(Vec3::new(0, 4 * ONE, -4 * ONE), Vec3::new(0, 0, ONE));
    assert!(unit_sphere().intersect(&ray).is_none());
}

#[test]
fn sphere_hit_stays_near_surface() {
    // An oblique hit: the returned point sits on the sphere and the normal
    // has unit length, up to the fixed-point resolution.
    let ray = Ray::new(
        Vec3::new(ONE / 2, ONE / 4, -4 * ONE),
        Vec3::new(0, 0, ONE),
    );
    let s = unit_sphere();
    let hit = s.intersect(&ray).unwrap();
    assert!(hit.dist > 0);
    let r2 = hit.pos.sub(&Vec3::new(0, 0, 0)).norm_squared();
    assert!((r2 - ONE).abs() < ONE / 256);
    let n = hit.normal.norm();
    assert!((n - ONE).abs() < 16);
}

#[test]
fn sphere_intersection_applies_noise_maps() {
    // The same geometric hit with and without maps: the distance and the
    // parameterization stay with the undisplaced point, the normal is
    // perturbed at it, and the returned position is displaced from it.
    let ray = Ray::new(Vec3::new(0, 0, -4 * ONE), Vec3::new(0, 0, ONE));
    let geo = unit_sphere().intersect(&ray).unwrap();

    let nm = NormalMap::new(9, 3, ONE, ONE / 2, 2 * ONE);
    let dm = DisplacementMap::new(11, 2, ONE / 2, ONE / 2, 2 * ONE);
    let m = Material::new(
        Vec3::new(0, 0, 255 * ONE),
        ONE,
        0,
        1,
        0,
        None,
        Some(nm.clone()),
        Some(dm.clone()),
    );
    let mapped = Sphere::new(Vec3::new(0, 0, 0), ONE, m).intersect(&ray).unwrap();

    assert_eq!(mapped.dist, geo.dist);
    assert_eq!(mapped.u, geo.u);
    assert_eq!(mapped.v, geo.v);
    assert_eq!(mapped.normal, nm.apply(&geo.normal, &geo.pos));
    assert_eq!(mapped.pos, dm.apply(&geo.pos));
}

#[test]
fn plane_intersection_applies_noise_maps() {
    // The normal map perturbs the plane's fixed stored normal at the hit
    // position; displacement leaves distance and parameterization alone.
    let ray = Ray::new(Vec3::new(0, 4 * ONE, 0), Vec3::new(0, -ONE, 0));
    let stored_normal = Vec3::new(0, ONE, 0);
    let plain = Plane::new(Vec3::new(0, 0, 0), stored_normal, plain_material());
    let geo = plain.intersect(&ray).unwrap();

    let nm = NormalMap::new(5, 4, ONE, ONE / 2, 2 * ONE);
    let dm = DisplacementMap::new(6, 3, ONE, ONE / 2, 2 * ONE);
    let m = Material::new(
        Vec3::new(0, 0, 255 * ONE),
        ONE,
        0,
        1,
        0,
        None,
        Some(nm.clone()),
        Some(dm.clone()),
    );
    let mapped = Plane::new(Vec3::new(0, 0, 0), stored_normal, m).intersect(&ray).unwrap();

    assert_eq!(mapped.dist, geo.dist);
    assert_eq!(mapped.u, geo.u);
    assert_eq!(mapped.v, geo.v);
    assert_eq!(mapped.normal, nm.apply(&stored_normal, &geo.pos));
    assert_eq!(mapped.pos, dm.apply(&geo.pos));
}

#[test]
fn plane_parallel_ray_misses() {
    let plane = Plane::new(Vec3::new(0, 0, 0), Vec3::new(0, ONE, 0), plain_material());
    // Direction in the plane: dot(dir, normal) == 0.
    let ray = Ray::new(Vec3::new(0, ONE, 0), Vec3::new(ONE, 0, 0));
    assert!(plane.intersect(&ray).is_none());
}

#[test]
fn plane_hit_from_above() {
    let plane = Plane::new(Vec3::new(0, 0, 0), Vec3::new(0, ONE, 0), plain_material());
    let ray = Ray::new(Vec3::new(0, 4 * ONE, 0), Vec3::new(0, -ONE, 0));
    let hit = plane.intersect(&ray).unwrap();
    assert_eq!(hit.dist, 4 * ONE);
    assert_eq!(hit.pos, Vec3::new(0, 0, 0));
    assert_eq!(hit.normal, Vec3::new(0, ONE, 0));
    assert_eq!(hit.u, 0);
    assert_eq!(hit.v, 0);
}

#[test]
fn plane_behind_origin_misses() {
    let plane = Plane::new(Vec3::new(0, 0, 0), Vec3::new(0, ONE, 0), plain_material());
    let ray = Ray::new(Vec3::new(0, 4 * ONE, 0), Vec3::new(0, ONE, 0));
    assert!(plane.intersect(&ray).is_none());
}

#[test]
fn plane_uv_uses_fixed_axes() {
    // For the +x normal the texture axes are u_axis == (n.y, n.z, -n.x)
    // == (0, 0, -1) and v_axis == cross(u_axis, n) == (0, -1, 0).
    let plane = Plane::new(Vec3::new(0, 0, 0), Vec3::new(ONE, 0, 0), plain_material());
    let ray = Ray::new(Vec3::new(4 * ONE, ONE, 2 * ONE), Vec3::new(-ONE, 0, 0));
    let hit = plane.intersect(&ray).unwrap();
    assert_eq!(hit.dist, 4 * ONE);
    assert_eq!(hit.pos, Vec3::new(0, ONE, 2 * ONE));
    // u_axis == (0, 0, -1): u == dot(pos, u_axis) == -2
    assert_eq!(hit.u, -2 * ONE);
    // v_axis == cross((0,0,-1), (1,0,0)) == (0, -1, 0): v == -1
    assert_eq!(hit.v, -ONE);
}

#[test]
fn surface_enum_dispatches() {
    let s = Surface::Sphere(unit_sphere());
    let ray = Ray::new(Vec3::new(0, 0, -4 * ONE), Vec3::new(0, 0, ONE));
    assert_eq!(s.intersect(&ray).unwrap().dist, 3 * ONE);
    assert_eq!(s.name(), "Sphere");
    let p = Surface::Plane(Plane::new(
        Vec3::new(0, 0, 0),
        Vec3::new(0, ONE, 0),
        plain_material(),
    ));
    assert_eq!(p.name(), "Plane");
}
