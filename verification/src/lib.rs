//! A Whitted-style recursive ray tracer over saturating fixed-point
//! arithmetic.
//!
//! The scene is a list of surfaces (spheres and planes), point lights, an
//! ambient term and a camera.  Rendering casts one primary ray per pixel,
//! finds the nearest hit by exhaustive search, shades it with ambient,
//! shadow-tested diffuse and specular terms, and recurses on mirror
//! reflection up to a depth bound.  Every quantity is a fixed-point scalar
//! (see `fixed`); the contracts state the exact value of every result.

use vstd::prelude::*;

pub mod config;
pub mod fbm;
pub mod fixed;
pub mod light;
pub mod material;
pub mod ray;
pub mod surface;
pub mod texture;
pub mod trig;
pub mod vec3;

use crate::fixed::{fclamp, fdiv, fx_clamp, fx_div, FX_255, FX_HALF, FX_TWO, SCALE};
use crate::light::PointLight;
use crate::material::{material_color_spec, Material};
use crate::ray::{ray_new_spec, Intersection, IsectV, Ray, RayV};
use crate::surface::{surface_hit, surface_material, Surface};
use crate::vec3::{
    v_add, v_cmul, v_cross, v_dot, v_norm, v_normalize, v_scale, v_sdiv, v_sub, V3, Vec3,
};

verus! {

/// The offset along the normal that shadow and reflection origins step away
/// from a surface, to avoid re-hitting it ("shadow acne").  It plays the
/// role the square root of the machine epsilon plays for binary floats.
pub const SHADOW_BIAS_FX: i64 = 23;

/// A camera: position and an orthonormal view basis.  `dir` is the view
/// axis; `right` and `up` span the image plane one unit along `dir`.
pub struct Camera {
    pub pos: Vec3,
    pub dir: Vec3,
    pub up: Vec3,
    pub right: Vec3,
}

pub open spec fn camera_right_spec(dir: V3, up: V3) -> V3 {
    v_normalize(v_cross(up, dir))
}

pub open spec fn camera_up_spec(dir: V3, up: V3) -> V3 {
    v_normalize(v_cross(camera_right_spec(dir, up), dir))
}

/// The primary ray for pixel `(x, y)` on a `w` by `h` grid: the pixel
/// mapped to device coordinates in `[-1/2, 1/2)` (the horizontal axis
/// stretched by the aspect ratio), taken as coefficients of the image-plane
/// basis.
pub open spec fn get_ray_spec(c: Camera, x: int, y: int, w: int, h: int, aspect: int) -> RayV
    recommends
        w > 0,
        h > 0,
{
    let nx = fdiv(x * (SCALE as int), w * (SCALE as int));
    let ny = fdiv(y * (SCALE as int), h * (SCALE as int));
    let sx = fixed::fmul(fixed::fsub(nx, FX_HALF as int), aspect);
    let sy = fixed::fsub(ny, FX_HALF as int);
    let dir = v_add(v_add(v_scale(c.right@, sx), v_scale(c.up@, sy)), c.dir@);
    ray_new_spec(c.pos@, dir)
}

impl Camera {
    pub fn new(pos: Vec3, dir: Vec3, up: Vec3) -> (r: Camera)
        ensures
            r.pos == pos,
            r.right@ == camera_right_spec(dir@, up@),
            r.up@ == camera_up_spec(dir@, up@),
            r.dir@ == v_normalize(dir@),
    {
        let right = up.cross(&dir).normalize();
        let up2 = right.cross(&dir).normalize();
        Camera { pos, dir: dir.normalize(), up: up2, right }
    }

    /// Aim the camera from `pos` at `lookat`.
    pub fn from_lookat(pos: Vec3, lookat: Vec3, up: Vec3) -> (r: Camera)
        ensures
            r.pos == pos,
            r.right@ == camera_right_spec(v_sub(lookat@, pos@), up@),
            r.up@ == camera_up_spec(v_sub(lookat@, pos@), up@),
            r.dir@ == v_normalize(v_sub(lookat@, pos@)),
    {
        let dir = lookat.sub(&pos);
        Camera::new(pos, dir, up)
    }

    pub fn get_ray(&self, x: u32, y: u32, width: u32, height: u32, aspect_ratio: i64) -> (r: Ray)
        requires
            width > 0,
            height > 0,
        ensures
            r@ == get_ray_spec(
                *self,
                x as int,
                y as int,
                width as int,
                height as int,
                aspect_ratio as int,
            ),
    {
        let norm_x = fx_div((x as i64) * SCALE, (width as i64) * SCALE);
        let norm_y = fx_div((y as i64) * SCALE, (height as i64) * SCALE);
        let sx = fixed::fx_mul(fixed::fx_sub(norm_x, FX_HALF), aspect_ratio);
        let sy = fixed::fx_sub(norm_y, FX_HALF);

        let dir = self.right.scale(sx).add(&self.up.scale(sy)).add(&self.dir);
        Ray::new(self.pos, dir)
    }
}

/// A scene: the surfaces, the lights, the ambient light, and the camera.
/// It is read-only while tracing.
pub struct Scene {
    pub objects: Vec<Surface>,
    pub lights: Vec<PointLight>,
    pub ambient_coeff: i64,
    pub ambient_color: Vec3,
    pub camera: Camera,
}

/// The nearest hit over a prefix of the surface list, with the index of the
/// surface it came from.  On an exact distance tie the earlier surface
/// wins.
pub open spec fn best_hit(objs: Seq<Surface>, r: RayV) -> Option<(int, IsectV)>
    decreases objs.len(),
{
    if objs.len() == 0 {
        None
    } else {
        let prev = best_hit(objs.drop_last(), r);
        let k = objs.len() - 1;
        match surface_hit(objs.last(), r) {
            Some(h) => match prev {
                Some((i, ph)) => if h.dist < ph.dist {
                    Some((k as int, h))
                } else {
                    Some((i, ph))
                },
                None => Some((k as int, h)),
            },
            None => prev,
        }
    }
}

impl Scene {
    /// Every surface's material is usable.
    pub open spec fn wf(self) -> bool {
        forall|i: int| 0 <= i < self.objects@.len() ==> self.objects@[i].wf()
    }

    pub fn new(
        objects: Vec<Surface>,
        lights: Vec<PointLight>,
        ambient_coeff: i64,
        ambient_color: Vec3,
        camera: Camera,
    ) -> (r: Scene)
        ensures
            r.objects == objects,
            r.lights == lights,
            r.ambient_coeff == ambient_coeff,
            r.ambient_color == ambient_color,
            r.camera == camera,
    {
        Scene { objects, lights, ambient_coeff, ambient_color, camera }
    }

    /// Test every surface and keep the nearest hit.
    #[verifier::loop_isolation(false)]
    pub fn intersect(&self, ray: &Ray) -> (r: Option<(usize, Intersection)>)
        ensures
            match r {
                Some((i, h)) => best_hit(self.objects@, ray@) == Some((i as int, h@)) && i
                    < self.objects@.len(),
                None => best_hit(self.objects@, ray@) is None,
            },
    {
        let mut result: Option<(usize, Intersection)> = None;
        let n = self.objects.len();
        let mut idx: usize = 0;
        while idx < n
            invariant
                idx <= n,
                match result {
                    Some((i, h)) => best_hit(self.objects@.take(idx as int), ray@) == Some(
                        (i as int, h@),
                    ) && i < idx,
                    None => best_hit(self.objects@.take(idx as int), ray@) is None,
                },
            decreases n - idx,
        {
            let obj = &self.objects[idx];
            proof {
                assert(self.objects@.take(idx as int + 1).drop_last() =~= self.objects@.take(
                    idx as int,
                ));
                assert(self.objects@.take(idx as int + 1).last() == self.objects@[idx as int]);
            }
            if let Some(hit) = obj.intersect(ray) {
                let better = match &result {
                    None => true,
                    Some((_, old_hit)) => hit.dist < old_hit.dist,
                };
                if better {
                    result = Some((idx, hit));
                }
            }
            idx = idx + 1;
        }
        proof {
            assert(self.objects@.take(n as int) =~= self.objects@);
        }
        result
    }
}

/// The ambient term: the material's base color modulated by the scene's
/// ambient color (scaled to the unit range) and coefficient.
pub open spec fn ambient_term(m: Material, sc: Scene) -> V3 {
    v_cmul(m.color@, v_scale(v_sdiv(sc.ambient_color@, FX_255 as int), sc.ambient_coeff as int))
}

/// The origin shadow and reflection rays start from: the hit position backed
/// off along the normal.
pub open spec fn biased_origin(hit: IsectV) -> V3 {
    v_add(hit.pos, v_scale(hit.normal, SHADOW_BIAS_FX as int))
}

pub open spec fn shadow_ray_spec(hit: IsectV, light: PointLight) -> RayV {
    let pos = biased_origin(hit);
    ray_new_spec(pos, v_sub(light.pos@, pos))
}

/// A light reaches the hit when nothing blocks the shadow ray, or when the
/// nearest thing that does lies farther away than the light itself.
pub open spec fn light_visible(sc: Scene, hit: IsectV, light: PointLight) -> bool {
    let pos = biased_origin(hit);
    let dirv = v_sub(light.pos@, pos);
    match best_hit(sc.objects@, ray_new_spec(pos, dirv)) {
        Some((i, sh)) => sh.dist > v_norm(dirv),
        None => true,
    }
}

/// One visible light's contribution: the material's local color modulated by
/// the light's color (scaled to the unit range) and intensity.
pub open spec fn light_term(sc: Scene, m: Material, hit: IsectV, r: RayV, light: PointLight) -> V3 {
    v_cmul(
        material_color_spec(m, shadow_ray_spec(hit, light), r, hit),
        v_scale(v_sdiv(light.color@, FX_255 as int), light.intensity as int),
    )
}

/// The color after the ambient term and the first `n` lights.
pub open spec fn shaded_color(sc: Scene, m: Material, hit: IsectV, r: RayV, n: int) -> V3
    decreases n,
{
    if n <= 0 {
        ambient_term(m, sc)
    } else {
        let prev = shaded_color(sc, m, hit, r, n - 1);
        let light = sc.lights@[n - 1];
        if light_visible(sc, hit, light) {
            v_add(prev, light_term(sc, m, hit, r, light))
        } else {
            prev
        }
    }
}

/// The mirror ray: reflect the direction about the normal and step off the
/// surface.
pub open spec fn reflected_ray_spec(r: RayV, hit: IsectV) -> RayV {
    let pos = biased_origin(hit);
    let dir = v_sub(r.dir, v_scale(v_scale(hit.normal, FX_TWO as int), v_dot(r.dir, hit.normal)));
    ray_new_spec(pos, dir)
}

/// The recursive trace: black where the ray escapes; otherwise ambient plus
/// the visible lights, plus the reflectivity-weighted trace of the mirror
/// ray while the depth bound allows.
pub open spec fn trace_ray_spec(sc: Scene, r: RayV, depth: int, max_depth: int) -> V3
    decreases max_depth - depth,
{
    match best_hit(sc.objects@, r) {
        None => V3 { x: 0, y: 0, z: 0 },
        Some((i, hit)) => {
            let m = surface_material(sc.objects@[i]);
            let color = shaded_color(sc, m, hit, r, sc.lights@.len() as int);
            if depth >= max_depth {
                color
            } else if m.reflectivity > 0 {
                v_add(
                    color,
                    v_scale(
                        trace_ray_spec(sc, reflected_ray_spec(r, hit), depth + 1, max_depth),
                        m.reflectivity as int,
                    ),
                )
            } else {
                color
            }
        },
    }
}

pub fn reflected_ray(ray: &Ray, hit: &Intersection) -> (r: Ray)
    ensures
        r@ == reflected_ray_spec(ray@, hit@),
{
    let pos = hit.pos.add(&hit.normal.scale(SHADOW_BIAS_FX));
    let dir = ray.dir.sub(&hit.normal.scale(FX_TWO).scale(ray.dir.dot(&hit.normal)));
    Ray::new(pos, dir)
}

/// Trace one ray through the scene at the given recursion depth.
#[verifier::loop_isolation(false)]
#[verifier::rlimit(100)]
pub fn trace_ray(scene: &Scene, ray: &Ray, depth: u16, max_depth: u16) -> (c: Vec3)
    requires
        scene.wf(),
    ensures
        c@ == trace_ray_spec(*scene, ray@, depth as int, max_depth as int),
    decreases max_depth as int - depth as int,
{
    let mut color = Vec3::new(0, 0, 0);
    if let Some((idx, hit)) = scene.intersect(ray) {
        let obj = &scene.objects[idx];
        let material = obj.material();

        // Ambient color.
        color = material.raw_color().component_mul(
            &scene.ambient_color.sdiv(FX_255).scale(scene.ambient_coeff),
        );

        // Trace shadow rays.
        let nlights = scene.lights.len();
        let mut li: usize = 0;
        while li < nlights
            invariant
                li <= nlights,
                color@ == shaded_color(
                    *scene,
                    surface_material(scene.objects@[idx as int]),
                    hit@,
                    ray@,
                    li as int,
                ),
            decreases nlights - li,
        {
            let light = &scene.lights[li];
            let pos = hit.pos.add(&hit.normal.scale(SHADOW_BIAS_FX));
            let dir = light.pos().sub(&pos);
            let dist = dir.norm();
            let shadow_ray = Ray::new(pos, dir);
            let visible = match scene.intersect(&shadow_ray) {
                Some((_, shadow_hit)) => shadow_hit.dist > dist,
                None => true,
            };
            if visible {
                // Diffuse/specular color.
                color = color.add(
                    &material.color(&shadow_ray, ray, &hit).component_mul(
                        &light.color().sdiv(FX_255).scale(light.intensity()),
                    ),
                );
            }
            li = li + 1;
        }

        if depth >= max_depth {
            return color;
        }

        // Get reflected color.
        let reflectivity = material.reflectivity();
        if reflectivity > 0 {
            let refl_ray = reflected_ray(ray, &hit);
            let reflected_color = trace_ray(scene, &refl_ray, depth + 1, max_depth);
            color = color.add(&reflected_color.scale(reflectivity));
        }
    }
    color
}

/// An eight-bit output pixel.
#[derive(Clone, Copy, PartialEq, Eq, Structural, Debug)]
pub struct Rgb8 {
    pub r: u8,
    pub g: u8,
    pub b: u8,
}

/// A channel clamped into the color range and truncated to eight bits.
pub open spec fn channel_byte(c: int) -> int {
    fclamp(c, 0, FX_255 as int) / (SCALE as int)
}

pub open spec fn to_rgb8(c: V3) -> Rgb8 {
    Rgb8 { r: channel_byte(c.x) as u8, g: channel_byte(c.y) as u8, b: channel_byte(c.z) as u8 }
}

fn channel_to_byte(c: i64) -> (r: u8)
    ensures
        r as int == channel_byte(c as int),
{
    let v = fx_clamp(c, 0, FX_255);
    ((v as u64) / 65536u64) as u8
}

/// The color the renderer writes at pixel `(x, y)`.
pub open spec fn pixel_color(sc: Scene, x: int, y: int, w: int, h: int, max_depth: int) -> V3
    recommends
        w > 0,
        h > 0,
{
    let aspect = fdiv(w * (SCALE as int), h * (SCALE as int));
    trace_ray_spec(sc, get_ray_spec(sc.camera, x, y, w, h, aspect), 0, max_depth)
}

/// Render the scene to a row-major raster of eight-bit pixels, one primary
/// ray per pixel.  No pixel depends on any other.
#[verifier::loop_isolation(false)]
pub fn ray_trace(scene: &Scene, width: u32, height: u32, max_depth: u16) -> (im: Vec<Rgb8>)
    requires
        scene.wf(),
        width > 0,
        height > 0,
        (width as int) * (height as int) <= usize::MAX as int,
    ensures
        im@.len() == (width as int) * (height as int),
        forall|x: int, y: int|
            0 <= x < width as int && 0 <= y < height as int ==> im@[y * (width as int) + x]
                == to_rgb8(
                pixel_color(
                    *scene,
                    x,
                    y,
                    width as int,
                    height as int,
                    max_depth as int,
                ),
            ),
{
    let aspect_ratio = fx_div((width as i64) * SCALE, (height as i64) * SCALE);
    let ghost w = width as int;
    let ghost h = height as int;

    let mut im: Vec<Rgb8> = Vec::new();
    let mut y: u32 = 0;
    while y < height
        invariant
            y <= height,
            im@.len() == (y as int) * w,
            forall|k: int|
                0 <= k < im@.len() ==> #[trigger] im@[k] == to_rgb8(
                    pixel_color(*scene, k % w, k / w, w, h, max_depth as int),
                ),
        decreases height - y,
    {
        let mut x: u32 = 0;
        while x < width
            invariant
                x <= width,
                y < height,
                im@.len() == (y as int) * w + (x as int),
                forall|k: int|
                    0 <= k < im@.len() ==> #[trigger] im@[k] == to_rgb8(
                        pixel_color(*scene, k % w, k / w, w, h, max_depth as int),
                    ),
            decreases width - x,
        {
            proof {
                assert((y as int) * w + (x as int) < h * w) by (nonlinear_arith)
                    requires
                        0 <= x && (x as int) < w,
                        0 <= y && (y as int) < h,
                ;
                assert(h * w == w * h) by (nonlinear_arith);
                vstd::arithmetic::div_mod::lemma_fundamental_div_mod_converse(
                    (y as int) * w + (x as int),
                    w,
                    y as int,
                    x as int,
                );
            }
            let ray = scene.camera.get_ray(x, y, width, height, aspect_ratio);
            let color = trace_ray(scene, &ray, 0, max_depth);
            let px = Rgb8 {
                r: channel_to_byte(color.x),
                g: channel_to_byte(color.y),
                b: channel_to_byte(color.z),
            };
            im.push(px);
            x = x + 1;
        }
        proof {
            assert((y as int) * w + w == ((y as int) + 1) * w) by (nonlinear_arith);
        }
        y = y + 1;
    }
    proof {
        assert(h * w == w * h) by (nonlinear_arith);
        assert forall|x: int, y: int| 0 <= x < w && 0 <= y < h implies im@[y * w + x] == to_rgb8(
            pixel_color(*scene, x, y, w, h, max_depth as int),
        ) by {
            let k = y * w + x;
            assert(0 <= k < h * w) by (nonlinear_arith)
                requires
                    0 <= x < w,
                    0 <= y < h,
                    k == y * w + x,
            ;
            assert(h * w == w * h) by (nonlinear_arith);
            vstd::arithmetic::div_mod::lemma_fundamental_div_mod_converse(k, w, y, x);
            assert(im@[k] == to_rgb8(pixel_color(*scene, k % w, k / w, w, h, max_depth as int)));
        }
    }
    im
}

/// A surface either misses the ray or hits it strictly beyond distance `d`.
pub open spec fn misses_or_farther(s: Surface, r: RayV, d: int) -> bool {
    match surface_hit(s, r) {
        Some(hj) => hj.dist > d,
        None => true,
    }
}

/// The nearest hit is never farther than any surface's own hit.
pub proof fn lemma_best_hit_is_min(objs: Seq<Surface>, r: RayV, j: int, hj: IsectV)
    requires
        0 <= j < objs.len(),
        surface_hit(objs[j], r) == Some(hj),
    ensures
        match best_hit(objs, r) {
            Some((i, h)) => h.dist <= hj.dist,
            None => false,
        },
    decreases objs.len(),
{
    let pre = objs.drop_last();
    if j == objs.len() - 1 {
        assert(objs.last() == objs[j]);
    } else {
        assert(pre[j] == objs[j]);
        lemma_best_hit_is_min(pre, r, j, hj);
    }
}

/// The nearest hit really is the hit of the surface it names, and every
/// earlier surface either misses or lies strictly farther: on an exact tie
/// the first surface seen wins.
#[verifier::rlimit(100)]
pub proof fn lemma_best_hit_first(objs: Seq<Surface>, r: RayV)
    ensures
        match best_hit(objs, r) {
            Some((i, h)) => 0 <= i < objs.len() && surface_hit(objs[i], r) == Some(h) && forall|
                j: int,
            | 0 <= j < i ==> #[trigger] misses_or_farther(objs[j], r, h.dist),
            None => forall|j: int|
                0 <= j < objs.len() ==> (#[trigger] surface_hit(objs[j], r)) is None,
        },
    decreases objs.len(),
{
    if objs.len() == 0 {
    } else {
        let pre = objs.drop_last();
        let k = objs.len() - 1;
        lemma_best_hit_first(pre, r);
        assert(forall|j: int| 0 <= j < pre.len() ==> pre[j] == objs[j]);
        match surface_hit(objs.last(), r) {
            Some(h) => {
                match best_hit(pre, r) {
                    Some((i, ph)) => {
                        if h.dist < ph.dist {
                            // The newcomer wins: everything earlier sits at or
                            // beyond the previous minimum, hence beyond it.
                            assert forall|j: int| 0 <= j < k implies #[trigger] misses_or_farther(
                                objs[j],
                                r,
                                h.dist,
                            ) by {
                                if let Some(hj) = surface_hit(pre[j], r) {
                                    lemma_best_hit_is_min(pre, r, j, hj);
                                }
                            }
                        } else {
                            // The earlier minimum stands, also on a tie.
                            assert forall|j: int| 0 <= j < i implies #[trigger] misses_or_farther(
                                objs[j],
                                r,
                                ph.dist,
                            ) by {
                                assert(misses_or_farther(pre[j], r, ph.dist));
                            }
                        }
                    },
                    None => {
                        assert forall|j: int| 0 <= j < k implies #[trigger] misses_or_farther(
                            objs[j],
                            r,
                            h.dist,
                        ) by {
                            assert(surface_hit(pre[j], r) is None);
                        }
                    },
                }
            },
            None => {
                match best_hit(pre, r) {
                    Some((i, ph)) => {
                        assert forall|j: int| 0 <= j < i implies #[trigger] misses_or_farther(
                            objs[j],
                            r,
                            ph.dist,
                        ) by {
                            assert(misses_or_farther(pre[j], r, ph.dist));
                        }
                    },
                    None => {
                        assert forall|j: int| 0 <= j < objs.len() implies (#[trigger] surface_hit(
                            objs[j],
                            r,
                        )) is None by {
                            if j < k {
                                assert(surface_hit(pre[j], r) is None);
                            }
                        }
                    },
                }
            },
        }
    }
}

/// Nearest-hit selection: of two (or more) surfaces hit along one ray, the
/// scene returns the one with the strictly smallest distance.
pub proof fn lemma_scene_nearest_hit(objs: Seq<Surface>, r: RayV, i: int, hi: IsectV)
    requires
        0 <= i < objs.len(),
        surface_hit(objs[i], r) == Some(hi),
        forall|j: int|
            0 <= j < objs.len() && j != i ==> #[trigger] misses_or_farther(objs[j], r, hi.dist),
    ensures
        best_hit(objs, r) == Some((i, hi)),
{
    lemma_best_hit_is_min(objs, r, i, hi);
    lemma_best_hit_first(objs, r);
    let (k, h) = best_hit(objs, r)->Some_0;
    if k != i {
        assert(surface_hit(objs[k], r) == Some(h));
        assert(misses_or_farther(objs[k], r, hi.dist));
        assert(h.dist > hi.dist);
        assert(h.dist <= hi.dist);
    } else {
        assert(h == hi);
        if h.dist < hi.dist || hi.dist < h.dist {
            assert(false);
        }
    }
}

/// With no lights and a nonreflective material at the hit, the trace is
/// exactly the ambient term.
pub proof fn lemma_trace_ambient_only(
    sc: Scene,
    r: RayV,
    depth: int,
    max_depth: int,
    i: int,
    hit: IsectV,
)
    requires
        sc.lights@.len() == 0,
        best_hit(sc.objects@, r) == Some((i, hit)),
        surface_material(sc.objects@[i]).reflectivity == 0,
    ensures
        trace_ray_spec(sc, r, depth, max_depth) == ambient_term(
            surface_material(sc.objects@[i]),
            sc,
        ),
{
}

/// At the depth limit the trace never recurses: the result is the shaded
/// color alone, whatever the material's reflectivity.
pub proof fn lemma_trace_depth_limit(sc: Scene, r: RayV, max_depth: int, i: int, hit: IsectV)
    requires
        best_hit(sc.objects@, r) == Some((i, hit)),
    ensures
        trace_ray_spec(sc, r, max_depth, max_depth) == shaded_color(
            sc,
            surface_material(sc.objects@[i]),
            hit,
            r,
            sc.lights@.len() as int,
        ),
{
}

} // verus!
