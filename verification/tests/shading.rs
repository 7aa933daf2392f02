//! Material shading, noise-map arithmetic, and lights.

use tracerlib::fixed::{fx_add, fx_div, fx_max, FX_TWO, SCALE};
use tracerlib::light::PointLight;
use tracerlib::material::{DisplacementMap, Material, NormalMap};
use tracerlib::ray::{Intersection, Ray};
use tracerlib::texture::{CheckerboardTexture, Texture};
use tracerlib::vec3::Vec3;

const ONE: i64 = SCALE;
const WHITE: i64 = 255 * SCALE;

fn head_on_hit() -> Intersection {
    Intersection::new(Vec3::new(0, 0, -ONE), Vec3::new(0, 0, -ONE), 3 * ONE, ONE / 4, ONE / 4)
}

#[test]
fn diffuse_only_head_on() {
    let m = Material::new(Vec3::new(0, 0, WHITE), ONE, 0, 1, 0, None, None, None);
    let hit = head_on_hit();
    // Light straight behind the camera: the shadow ray leaves along the
    // normal, so the diffuse factor is exactly one.
    let shadow = Ray::new(Vec3::new(0, 0, -ONE), Vec3::new(0, 0, -ONE));
    let camera = Ray::new(Vec3::new(0, 0, -4 * ONE), Vec3::new(0, 0, ONE));
    assert_eq!(m.color(&shadow, &camera, &hit), Vec3::new(0, 0, WHITE));
}

#[test]
fn diffuse_light_below_horizon_is_black() {
    let m = Material::new(Vec3::new(0, 0, WHITE), ONE, 0, 1, 0, None, None, None);
    let hit = head_on_hit();
    // The shadow ray leaves against the normal: the factor floors at zero.
    let shadow = Ray::new(Vec3::new(0, 0, -ONE), Vec3::new(0, 0, ONE));
    let camera = Ray::new(Vec3::new(0, 0, -4 * ONE), Vec3::new(0, 0, ONE));
    assert_eq!(m.color(&shadow, &camera, &hit), Vec3::new(0, 0, 0));
}

#[test]
fn specular_head_on() {
    let m = Material::new(Vec3::new(0, 0, WHITE), 0, ONE, 2, 0, None, None, None);
    let hit = head_on_hit();
    let shadow = Ray::new(Vec3::new(0, 0, -ONE), Vec3::new(0, 0, -ONE));
    let camera = Ray::new(Vec3::new(0, 0, -4 * ONE), Vec3::new(0, 0, ONE));
    // The half vector equals the normal, so the specular factor is one and
    // the full white specular color comes through.
    assert_eq!(m.color(&shadow, &camera, &hit), Vec3::new(WHITE, WHITE, WHITE));
}

#[test]
fn texture_modulates_diffuse() {
    let tex = Texture::Checkerboard(CheckerboardTexture::new(ONE));
    let m = Material::new(Vec3::new(WHITE, WHITE, WHITE), ONE, 0, 1, 0, Some(tex), None, None);
    let shadow = Ray::new(Vec3::new(0, 0, -ONE), Vec3::new(0, 0, -ONE));
    let camera = Ray::new(Vec3::new(0, 0, -4 * ONE), Vec3::new(0, 0, ONE));
    // (u, v) == (1/4, 1/4) samples the white cell: the factor is one.
    let lit = head_on_hit();
    assert_eq!(m.color(&shadow, &camera, &lit), Vec3::new(WHITE, WHITE, WHITE));
    // (1/4, 3/4) samples the black cell: the diffuse term vanishes.
    let dark = Intersection::new(
        Vec3::new(0, 0, -ONE),
        Vec3::new(0, 0, -ONE),
        3 * ONE,
        ONE / 4,
        3 * ONE / 4,
    );
    assert_eq!(m.color(&shadow, &camera, &dark), Vec3::new(0, 0, 0));
}

#[test]
fn raw_color_and_reflectivity() {
    let m = Material::new(Vec3::new(ONE, 2 * ONE, 3 * ONE), ONE, 0, 1, ONE / 2, None, None, None);
    assert_eq!(m.raw_color(), Vec3::new(ONE, 2 * ONE, 3 * ONE));
    assert_eq!(m.reflectivity(), ONE / 2);
    assert!(!m.has_normal_map());
    assert!(!m.has_displacement_map());
}

#[test]
fn normal_map_perturbs_and_renormalizes() {
    let nm = NormalMap::new(7, 4, ONE, ONE / 2, 2 * ONE);
    assert_eq!(nm.seed_val, 7);
    let pos = Vec3::new(ONE / 2, -ONE / 3, 2 * ONE);
    // The field stays in [-1, 1] and is a pure function of its inputs.
    let s = nm.sample(&pos);
    assert!(-ONE <= s && s <= ONE);
    assert_eq!(s, nm.sample(&pos));
    // The applied normal is normalize(normal + (val, val, val)) for the
    // shifted, floored field value.
    let val = fx_max(0, fx_div(fx_add(s, ONE), FX_TWO));
    let normal = Vec3::new(0, 0, ONE);
    let expect = normal.add(&Vec3::new(val, val, val)).normalize();
    assert_eq!(nm.apply(&normal, &pos), expect);
}

#[test]
fn displacement_map_shifts_position() {
    let dm = DisplacementMap::new(7, 4, ONE, ONE / 2, 2 * ONE);
    let pos = Vec3::new(ONE, 0, -ONE);
    let s = dm.sample(&pos);
    assert!(-ONE <= s && s <= ONE);
    assert_eq!(s, dm.sample(&pos));
    // Every component shifts by the field value moved up by one and floored
    // at zero.
    let val = fx_max(0, fx_add(s, ONE));
    assert_eq!(dm.apply(&pos), pos.add(&Vec3::new(val, val, val)));
}

#[test]
fn material_map_application_defaults_to_identity() {
    let bare = Material::new(Vec3::new(0, 0, WHITE), ONE, 0, 1, 0, None, None, None);
    let n = Vec3::new(0, 0, ONE);
    let at = Vec3::new(ONE, ONE, ONE);
    assert_eq!(bare.apply_normal_map(&n, &at), n);
    assert_eq!(bare.apply_displacement_map(&at), at);

    let dm = DisplacementMap::new(1, 2, ONE, ONE / 2, 2 * ONE);
    let mapped = Material::new(
        Vec3::new(0, 0, WHITE),
        ONE,
        0,
        1,
        0,
        None,
        Some(NormalMap::new(1, 2, ONE, ONE / 2, 2 * ONE)),
        Some(dm.clone()),
    );
    assert!(mapped.has_normal_map());
    assert!(mapped.has_displacement_map());
    assert_eq!(mapped.apply_displacement_map(&at), dm.apply(&at));
}

#[test]
fn point_light_getters() {
    let l = PointLight::new(Vec3::new(ONE, 2 * ONE, 3 * ONE), Vec3::new(WHITE, 0, 0), 2 * ONE);
    assert_eq!(*l.pos(), Vec3::new(ONE, 2 * ONE, 3 * ONE));
    assert_eq!(*l.color(), Vec3::new(WHITE, 0, 0));
    assert_eq!(l.intensity(), 2 * ONE);
}
