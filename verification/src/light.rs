//! Point lights.

use vstd::prelude::*;

use crate::vec3::Vec3;

verus! {

/// A point light: position, color on the 0-255 scale, and a scalar
/// intensity.
#[derive(Clone)]
pub struct PointLight {
    pub pos: Vec3,
    pub color: Vec3,
    pub intensity: i64,
}

impl PointLight {
    pub fn new(pos: Vec3, color: Vec3, intensity: i64) -> (r: PointLight)
        ensures
            r.pos == pos,
            r.color == color,
            r.intensity == intensity,
    {
        PointLight { pos, color, intensity }
    }

    pub fn pos(&self) -> (r: &Vec3)
        ensures
            *r == self.pos,
    {
        &self.pos
    }

    pub fn color(&self) -> (r: &Vec3)
        ensures
            *r == self.color,
    {
        &self.color
    }

    pub fn intensity(&self) -> (r: i64)
        ensures
            r == self.intensity,
    {
        self.intensity
    }
}

} // verus!
