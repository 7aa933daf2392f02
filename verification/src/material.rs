//! Materials: local shading, and the noise-driven normal and displacement
//! perturbations.
//!
//! The noise maps hold the parameters of the fractal field (see `fbm`) and
//! sample it at the hit position; the sample is shifted into range and added
//! to every component of the normal or the position.

use vstd::prelude::*;

use crate::fbm::{field_sample, field_spec};
use crate::fixed::{
    fadd, fdiv, fmul, fpow, fx_add, fx_div, fx_max, fx_mul, fx_pow, FX_255, FX_TWO, SCALE,
};
use crate::ray::{Intersection, IsectV, Ray, RayV};
use crate::texture::{texture_color_spec, Texture};
use crate::vec3::{v_add, v_cmul, v_dot, v_normalize, v_scale, v_sdiv, v_sub, V3, Vec3};

verus! {

/// Parameters of a fractal-noise field used to perturb surface normals.
#[derive(Clone)]
pub struct NormalMap {
    pub seed_val: u32,
    pub octaves: u32,
    pub wavelength: i64,
    pub persistence: i64,
    pub lacunarity: i64,
}

/// Parameters of a fractal-noise field used to displace hit positions.
#[derive(Clone)]
pub struct DisplacementMap {
    pub seed_val: u32,
    pub octaves: u32,
    pub wavelength: i64,
    pub persistence: i64,
    pub lacunarity: i64,
}

/// The sample shifted from `[-1, 1]` into `[0, 1]` and floored at zero.
pub open spec fn normal_noise_value(sample: int) -> int {
    let v = fdiv(fadd(sample, SCALE as int), FX_TWO as int);
    if v < 0 {
        0
    } else {
        v
    }
}

/// The field a map's parameters describe, sampled at a position.
pub open spec fn map_field_spec(
    seed_val: u32,
    octaves: u32,
    wavelength: int,
    persistence: int,
    lacunarity: int,
    pos: V3,
) -> int {
    field_spec(seed_val as int, octaves as int, wavelength, persistence, lacunarity, pos)
}

/// The perturbed normal: the map's value at the hit position added to all
/// three components alike, then renormalized.
pub open spec fn normal_map_spec(nm: NormalMap, normal: V3, pos: V3) -> V3 {
    let val = normal_noise_value(
        map_field_spec(nm.seed_val, nm.octaves, nm.wavelength as int, nm.persistence as int, nm.lacunarity as int, pos),
    );
    v_normalize(v_add(normal, V3 { x: val, y: val, z: val }))
}

/// The sample shifted up by one and floored at zero.
pub open spec fn displacement_noise_value(sample: int) -> int {
    let v = fadd(sample, SCALE as int);
    if v < 0 {
        0
    } else {
        v
    }
}

/// The displaced position: the map's value at the hit position added to all
/// three components alike.
pub open spec fn displacement_map_spec(dm: DisplacementMap, pos: V3) -> V3 {
    let val = displacement_noise_value(
        map_field_spec(dm.seed_val, dm.octaves, dm.wavelength as int, dm.persistence as int, dm.lacunarity as int, pos),
    );
    v_add(pos, V3 { x: val, y: val, z: val })
}

impl NormalMap {
    pub fn new(seed_val: u32, octaves: u32, wavelength: i64, persistence: i64, lacunarity: i64) -> (r:
        NormalMap)
        ensures
            r.seed_val == seed_val,
            r.octaves == octaves,
            r.wavelength == wavelength,
            r.persistence == persistence,
            r.lacunarity == lacunarity,
    {
        NormalMap { seed_val, octaves, wavelength, persistence, lacunarity }
    }

    /// The map's noise field sampled at a position.
    pub fn sample(&self, pos: &Vec3) -> (r: i64)
        ensures
            r as int == map_field_spec(
                self.seed_val,
                self.octaves,
                self.wavelength as int,
                self.persistence as int,
                self.lacunarity as int,
                pos@,
            ),
            -SCALE <= r <= SCALE,
    {
        field_sample(self.seed_val, self.octaves, self.wavelength, self.persistence, self.lacunarity, pos)
    }

    /// Perturb `normal` with the field's value at the hit position.
    pub fn apply(&self, normal: &Vec3, hit_pos: &Vec3) -> (r: Vec3)
        ensures
            r@ == normal_map_spec(*self, normal@, hit_pos@),
    {
        let noise = self.sample(hit_pos);
        let mut val = fx_div(fx_add(noise, SCALE), FX_TWO);
        if val < 0 {
            val = 0;
        }
        normal.add(&Vec3::new(val, val, val)).normalize()
    }
}

impl DisplacementMap {
    pub fn new(seed_val: u32, octaves: u32, wavelength: i64, persistence: i64, lacunarity: i64) -> (r:
        DisplacementMap)
        ensures
            r.seed_val == seed_val,
            r.octaves == octaves,
            r.wavelength == wavelength,
            r.persistence == persistence,
            r.lacunarity == lacunarity,
    {
        DisplacementMap { seed_val, octaves, wavelength, persistence, lacunarity }
    }

    /// The map's noise field sampled at a position.
    pub fn sample(&self, pos: &Vec3) -> (r: i64)
        ensures
            r as int == map_field_spec(
                self.seed_val,
                self.octaves,
                self.wavelength as int,
                self.persistence as int,
                self.lacunarity as int,
                pos@,
            ),
            -SCALE <= r <= SCALE,
    {
        field_sample(self.seed_val, self.octaves, self.wavelength, self.persistence, self.lacunarity, pos)
    }

    /// Displace a hit position with the field's value there.
    pub fn apply(&self, hit_pos: &Vec3) -> (r: Vec3)
        ensures
            r@ == displacement_map_spec(*self, hit_pos@),
    {
        let noise = self.sample(hit_pos);
        let mut val = fx_add(noise, SCALE);
        if val < 0 {
            val = 0;
        }
        hit_pos.add(&Vec3::new(val, val, val))
    }
}

/// A material: base color (0-255 scale), diffuse and specular coefficients,
/// specular exponent, mirror reflectivity, and the optional texture and
/// noise maps.  The exponent is a whole power: the fixed-point model has no
/// fractional exponent, so a fractional glossiness must be rounded by the
/// caller and shades accordingly.
#[derive(Clone)]
pub struct Material {
    pub color: Vec3,
    pub diffuse_coeff: i64,
    pub specular_coeff: i64,
    pub glossiness: u32,
    pub reflectivity: i64,
    pub texture: Option<Texture>,
    pub normal_map: Option<NormalMap>,
    pub displacement_map: Option<DisplacementMap>,
}

/// The diffuse factor: the shadow ray's alignment with the normal, floored
/// at zero.
pub open spec fn diffuse_factor(normal: V3, shadow_dir: V3) -> int {
    let d = v_dot(normal, shadow_dir);
    if d >= 0 {
        d
    } else {
        0
    }
}

/// The texture term the diffuse color is multiplied with: the sample scaled
/// down to the unit range, or one where there is no texture.
pub open spec fn texture_term(m: Material, u: int, v: int) -> V3 {
    match m.texture {
        Some(t) => v_sdiv(texture_color_spec(t, u, v), FX_255 as int),
        None => V3 { x: SCALE as int, y: SCALE as int, z: SCALE as int },
    }
}

/// The half vector between the shadow direction and the reversed camera
/// direction, normalized.
pub open spec fn half_vector(shadow_dir: V3, camera_dir: V3) -> V3 {
    v_normalize(v_sdiv(v_sub(shadow_dir, camera_dir), FX_TWO as int))
}

/// The specular factor: the half vector's alignment with the normal, floored
/// at zero and raised to the glossiness exponent.
pub open spec fn specular_factor(m: Material, normal: V3, shadow_dir: V3, camera_dir: V3) -> int {
    let h = half_vector(shadow_dir, camera_dir);
    let d = v_dot(h, normal);
    fpow(if d >= 0 {
        d
    } else {
        0
    }, m.glossiness as nat)
}

/// The direct local contribution of one visible light: textured diffuse plus
/// white specular, both on the 0-255 scale, not yet weighted by the light.
pub open spec fn material_color_spec(m: Material, shadow: RayV, camera: RayV, hit: IsectV) -> V3 {
    let diffuse = v_cmul(
        v_scale(v_scale(m.color@, diffuse_factor(hit.normal, shadow.dir)), m.diffuse_coeff as int),
        texture_term(m, hit.u, hit.v),
    );
    let white = V3 { x: FX_255 as int, y: FX_255 as int, z: FX_255 as int };
    let specular = v_scale(
        v_scale(white, specular_factor(m, hit.normal, shadow.dir, camera.dir)),
        m.specular_coeff as int,
    );
    v_add(diffuse, specular)
}

impl Material {
    /// The texture, when present, must be usable.
    pub open spec fn wf(self) -> bool {
        match self.texture {
            Some(t) => t.wf(),
            None => true,
        }
    }

    #[allow(clippy::too_many_arguments)]
    pub fn new(
        color: Vec3,
        diffuse_coeff: i64,
        specular_coeff: i64,
        glossiness: u32,
        reflectivity: i64,
        texture: Option<Texture>,
        normal_map: Option<NormalMap>,
        displacement_map: Option<DisplacementMap>,
    ) -> (r: Material)
        ensures
            r == (Material {
                color,
                diffuse_coeff,
                specular_coeff,
                glossiness,
                reflectivity,
                texture,
                normal_map,
                displacement_map,
            }),
    {
        Material {
            color,
            diffuse_coeff,
            specular_coeff,
            glossiness,
            reflectivity,
            texture,
            normal_map,
            displacement_map,
        }
    }

    pub fn reflectivity(&self) -> (r: i64)
        ensures
            r == self.reflectivity,
    {
        self.reflectivity
    }

    /// The base color, which the renderer uses for the ambient term.
    pub fn raw_color(&self) -> (r: Vec3)
        ensures
            r == self.color,
    {
        self.color
    }

    /// The direct diffuse and specular contribution of one light already
    /// confirmed visible.
    pub fn color(&self, shadow_ray: &Ray, camera_ray: &Ray, hit: &Intersection) -> (r: Vec3)
        requires
            self.wf(),
        ensures
            r@ == material_color_spec(*self, shadow_ray@, camera_ray@, hit@),
    {
        let f = fx_max(0, hit.normal.dot(&shadow_ray.dir));
        let base = self.color.scale(f).scale(self.diffuse_coeff);
        let tex = match &self.texture {
            Some(t) => t.color(hit.u, hit.v).sdiv(FX_255),
            None => Vec3::new(SCALE, SCALE, SCALE),
        };
        let diffuse_color = base.component_mul(&tex);

        // Average the directions; the camera ray points into the surface, so
        // subtracting it flips it outward.
        let half_vec = shadow_ray.dir.sub(&camera_ray.dir).sdiv(FX_TWO).normalize();
        let f2 = fx_pow(fx_max(0, half_vec.dot(&hit.normal)), self.glossiness);
        let specular_color = Vec3::new(FX_255, FX_255, FX_255).scale(f2).scale(self.specular_coeff);

        diffuse_color.add(&specular_color)
    }

    pub fn has_normal_map(&self) -> (r: bool)
        ensures
            r == self.normal_map is Some,
    {
        self.normal_map.is_some()
    }

    pub fn has_displacement_map(&self) -> (r: bool)
        ensures
            r == self.displacement_map is Some,
    {
        self.displacement_map.is_some()
    }

    /// The normal perturbed by the material's normal map at the hit
    /// position, or unchanged without one.
    pub fn apply_normal_map(&self, normal: &Vec3, hit_pos: &Vec3) -> (r: Vec3)
        ensures
            match self.normal_map {
                Some(nm) => r@ == normal_map_spec(nm, normal@, hit_pos@),
                None => r == *normal,
            },
    {
        match &self.normal_map {
            Some(nm) => nm.apply(normal, hit_pos),
            None => *normal,
        }
    }

    /// The hit position displaced by the material's displacement map, or
    /// unchanged without one.
    pub fn apply_displacement_map(&self, hit_pos: &Vec3) -> (r: Vec3)
        ensures
            match self.displacement_map {
                Some(dm) => r@ == displacement_map_spec(dm, hit_pos@),
                None => r == *hit_pos,
            },
    {
        match &self.displacement_map {
            Some(dm) => dm.apply(hit_pos),
            None => *hit_pos,
        }
    }
}

} // verus!
