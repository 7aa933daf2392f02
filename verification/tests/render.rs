//! Camera, scene queries, the recursive trace, and the renderer.

use tracerlib::fixed::SCALE;
use tracerlib::light::PointLight;
use tracerlib::material::Material;
use tracerlib::ray::Ray;
use tracerlib::surface::{Plane, Sphere, Surface};
use tracerlib::vec3::Vec3;
use tracerlib::{ray_trace, reflected_ray, trace_ray, Camera, Rgb8, Scene};

const ONE: i64 = SCALE;
const WHITE: i64 = 255 * SCALE;

fn diffuse_material(color: Vec3, reflectivity: i64) -> Material {
    Material::new(color, ONE, 0, 1, reflectivity, None, None, None)
}

fn basic_camera() -> Camera {
    Camera::from_lookat(Vec3::new(0, 0, -4 * ONE), Vec3::new(0, 0, 0), Vec3::new(0, ONE, 0))
}

fn one_sphere_scene(lights: Vec<PointLight>, reflectivity: i64) -> Scene {
    let sphere = Sphere::new(
        Vec3::new(0, 0, 0),
        ONE,
        diffuse_material(Vec3::new(0, 0, WHITE), reflectivity),
    );
    Scene::new(
        vec![Surface::Sphere(sphere)],
        lights,
        6554,  // ambient coefficient ~0.1
        Vec3::new(WHITE, WHITE, WHITE),
        basic_camera(),
    )
}

#[test]
fn camera_lookat_basis() {
    let c = basic_camera();
    assert_eq!(c.dir, Vec3::new(0, 0, ONE));
    assert_eq!(c.right, Vec3::new(ONE, 0, 0));
    // The re-orthogonalization flips the up axis; preserved behavior.
    assert_eq!(c.up, Vec3::new(0, -ONE, 0));
}

#[test]
fn camera_center_ray_follows_view_axis() {
    let c = basic_camera();
    let ray = c.get_ray(1, 1, 2, 2, ONE);
    assert_eq!(ray.origin, Vec3::new(0, 0, -4 * ONE));
    assert_eq!(ray.dir, Vec3::new(0, 0, ONE));
}

#[test]
fn scene_intersect_picks_nearest() {
    let near = Sphere::new(Vec3::new(0, 0, 0), ONE, diffuse_material(Vec3::new(WHITE, 0, 0), 0));
    let far = Sphere::new(Vec3::new(0, 0, 2 * ONE), ONE, diffuse_material(Vec3::new(0, WHITE, 0), 0));
    let ray = Ray::new(Vec3::new(0, 0, -4 * ONE), Vec3::new(0, 0, ONE));

    let scene = Scene::new(
        vec![Surface::Sphere(near.clone()), Surface::Sphere(far.clone())],
        vec![],
        6554,
        Vec3::new(WHITE, WHITE, WHITE),
        basic_camera(),
    );
    let (i, hit) = scene.intersect(&ray).unwrap();
    assert_eq!(i, 0);
    assert_eq!(hit.dist, 3 * ONE);

    // The same pair in the other order still returns the nearer surface.
    let swapped = Scene::new(
        vec![Surface::Sphere(far), Surface::Sphere(near)],
        vec![],
        6554,
        Vec3::new(WHITE, WHITE, WHITE),
        basic_camera(),
    );
    let (j, hit2) = swapped.intersect(&ray).unwrap();
    assert_eq!(j, 1);
    assert_eq!(hit2.dist, 3 * ONE);
}

#[test]
fn scene_intersect_tie_keeps_first() {
    let a = Sphere::new(Vec3::new(0, 0, 0), ONE, diffuse_material(Vec3::new(WHITE, 0, 0), 0));
    let b = Sphere::new(Vec3::new(0, 0, 0), ONE, diffuse_material(Vec3::new(0, WHITE, 0), 0));
    let scene = Scene::new(
        vec![Surface::Sphere(a), Surface::Sphere(b)],
        vec![],
        6554,
        Vec3::new(WHITE, WHITE, WHITE),
        basic_camera(),
    );
    let ray = Ray::new(Vec3::new(0, 0, -4 * ONE), Vec3::new(0, 0, ONE));
    let (i, _) = scene.intersect(&ray).unwrap();
    assert_eq!(i, 0);
}

#[test]
fn scene_intersect_miss() {
    let scene = one_sphere_scene(vec![], 0);
    let ray = Ray::new(Vec3::new(0, 4 * ONE, -4 * ONE), Vec3::new(0, 0, ONE));
    assert!(scene.intersect(&ray).is_none());
}

#[test]
fn trace_miss_is_black() {
    let scene = one_sphere_scene(vec![], 0);
    let ray = Ray::new(Vec3::new(0, 4 * ONE, -4 * ONE), Vec3::new(0, 0, ONE));
    assert_eq!(trace_ray(&scene, &ray, 0, 5), Vec3::new(0, 0, 0));
}

#[test]
fn trace_no_lights_returns_ambient_term() {
    // ambient == raw_color * (ambient_color / 255 * ambient_coeff):
    // the blue channel is 255 * 6554 == 1671270 scale units.
    let scene = one_sphere_scene(vec![], 0);
    let ray = Ray::new(Vec3::new(0, 0, -4 * ONE), Vec3::new(0, 0, ONE));
    assert_eq!(trace_ray(&scene, &ray, 0, 5), Vec3::new(0, 0, 1671270));
}

#[test]
fn trace_at_depth_limit_never_recurses() {
    // Fully mirrored vs. matte: at depth == max_depth the results agree,
    // because no reflection ray is traced.
    let mirrored = one_sphere_scene(vec![], ONE);
    let matte = one_sphere_scene(vec![], 0);
    let ray = Ray::new(Vec3::new(0, 0, -4 * ONE), Vec3::new(0, 0, ONE));
    assert_eq!(trace_ray(&mirrored, &ray, 3, 3), trace_ray(&matte, &ray, 3, 3));
    assert_eq!(trace_ray(&mirrored, &ray, 3, 3), Vec3::new(0, 0, 1671270));
}

#[test]
fn reflection_adds_reflected_color() {
    // A mirror plane under a glowing-ambient sphere: the reflected ray hits
    // the sphere, whose ambient blue then shows in the plane's color.
    let sphere = Sphere::new(
        Vec3::new(6 * ONE, 2 * ONE, 0),
        ONE,
        diffuse_material(Vec3::new(0, 0, WHITE), 0),
    );
    let floor = Plane::new(
        Vec3::new(0, 0, 0),
        Vec3::new(0, ONE, 0),
        Material::new(Vec3::new(0, 0, 0), ONE, 0, 1, ONE, None, None, None),
    );
    let scene = Scene::new(
        vec![Surface::Sphere(sphere), Surface::Plane(floor)],
        vec![],
        6554,
        Vec3::new(WHITE, WHITE, WHITE),
        basic_camera(),
    );
    // Diagonally down onto the floor near (4, 0, 0): the mirror ray leaves
    // at the opposite angle, straight through the sphere's center.
    let ray = Ray::new(Vec3::new(0, 4 * ONE, 0), Vec3::new(4 * ONE, -4 * ONE, 0));
    let with_reflection = trace_ray(&scene, &ray, 0, 5);
    let without = trace_ray(&scene, &ray, 5, 5);
    assert_eq!(without, Vec3::new(0, 0, 0));
    assert!(with_reflection.z > 0);
}

#[test]
fn reflected_ray_bounces_straight_back() {
    let ray = Ray::new(Vec3::new(0, 0, -4 * ONE), Vec3::new(0, 0, ONE));
    let hit = tracerlib::ray::Intersection::new(
        Vec3::new(0, 0, -ONE),
        Vec3::new(0, 0, -ONE),
        3 * ONE,
        0,
        0,
    );
    let r = reflected_ray(&ray, &hit);
    assert_eq!(r.dir, Vec3::new(0, 0, -ONE));
    // The origin steps off the surface along the normal by the bias.
    assert_eq!(r.origin, Vec3::new(0, 0, -ONE - 23));
}

#[test]
fn render_end_to_end_center_pixel() {
    // One unit blue sphere, one light at (4,4,0) of intensity 2, ambient
    // 0.1 white, camera at (0,0,-4) looking at the origin.  At the center
    // pixel the light sits below the hit point's horizon (and its shadow
    // ray grazes into the sphere), so the color is the ambient term alone:
    // 255 * 0.1 ~ 25 in the blue channel.
    let light = PointLight::new(Vec3::new(4 * ONE, 4 * ONE, 0), Vec3::new(WHITE, WHITE, WHITE), 2 * ONE);
    let scene = one_sphere_scene(vec![light], 0);
    let im = ray_trace(&scene, 2, 2, 5);
    assert_eq!(im.len(), 4);
    let center = im[1 * 2 + 1];
    assert_eq!(center, Rgb8 { r: 0, g: 0, b: 25 });
}

#[test]
fn render_lit_sphere_front_pixel_gains_diffuse() {
    // Light straight behind the camera: the center hit faces it head on,
    // nothing occludes it, and the diffuse term joins the ambient term.
    let light = PointLight::new(
        Vec3::new(0, 0, -4 * ONE),
        Vec3::new(WHITE, WHITE, WHITE),
        ONE,
    );
    let scene = one_sphere_scene(vec![light], 0);
    let ray = Ray::new(Vec3::new(0, 0, -4 * ONE), Vec3::new(0, 0, ONE));
    let c = trace_ray(&scene, &ray, 0, 5);
    assert_eq!(c.x, 0);
    assert_eq!(c.y, 0);
    assert!(c.z > 1671270);
}

#[test]
fn render_raster_has_row_major_layout() {
    let scene = one_sphere_scene(vec![], 0);
    let im = ray_trace(&scene, 3, 2, 1);
    assert_eq!(im.len(), 6);
    for px in &im {
        assert_eq!(px.r, 0);
        assert_eq!(px.g, 0);
    }
}
