//! Surface textures: a two-color checkerboard and a sampled image.

use vstd::prelude::*;

use crate::fixed::{
    clip, fadd, fdiv, fmul, fsub, fx_add, fx_div, fx_mod, fx_mul, fx_sub, tdiv, tmod, FX_255,
    FX_MAX, FX_MIN, FX_TWO, SCALE,
};
use crate::vec3::{V3, Vec3};
use vstd::arithmetic::div_mod::{
    lemma_div_multiples_vanish, lemma_fundamental_div_mod, lemma_mod_add_multiples_vanish,
    lemma_mod_self_0, lemma_small_mod,
};

verus! {

/// A two-color tile pattern with period `dim` in both axes: white, except
/// where exactly one of the folded coordinates is positive and the other
/// negative, which is black.
#[derive(Clone)]
pub struct CheckerboardTexture {
    pub dim: i64,
}

/// A pixel grid sampled nearest-neighbor, with coordinates wrapped into
/// `[0, 1)`.  Channels are on the fixed-point 0-255 scale.
#[derive(Clone)]
pub struct ImageTexture {
    pub pixels: Vec<Vec3>,
    pub width: u32,
    pub height: u32,
}

#[derive(Clone)]
pub enum Texture {
    Checkerboard(CheckerboardTexture),
    Image(ImageTexture),
}

/// Fold a coordinate into `[-dim/2, dim/2)`: reduce modulo `dim`, then move
/// the positive half down and the nonpositive half up.
pub open spec fn checker_fold(dim: int, c: int) -> int
    recommends
        dim > 0,
{
    let half = fdiv(dim, FX_TWO as int);
    let m = tmod(c, dim);
    if m > 0 {
        fsub(m, half)
    } else {
        fadd(m, half)
    }
}

pub open spec fn checker_color_spec(dim: int, u: int, v: int) -> V3
    recommends
        dim > 0,
{
    let s = checker_fold(dim, u);
    let t = checker_fold(dim, v);
    if (s > 0 && t < 0) || (s < 0 && t > 0) {
        V3 { x: 0, y: 0, z: 0 }
    } else {
        V3 { x: FX_255 as int, y: FX_255 as int, z: FX_255 as int }
    }
}

/// Every channel an integer color on the 0-255 scale.
pub open spec fn color_in_range(c: V3) -> bool {
    &&& 0 <= c.x <= FX_255 as int
    &&& 0 <= c.y <= FX_255 as int
    &&& 0 <= c.z <= FX_255 as int
}

pub open spec fn pixels_in_range(s: Seq<Vec3>) -> bool {
    forall|i: int| 0 <= i < s.len() ==> color_in_range(#[trigger] s[i]@)
}

/// A wrapped texture coordinate scaled into pixel space, truncated to an
/// index and held inside `[0, m1]` (`m1` is the last valid index), the way a
/// float-to-unsigned cast saturates.
pub open spec fn pixel_index(t: int, m1: int) -> int
    recommends
        m1 >= 0,
{
    if t < 0 {
        0
    } else if tdiv(t, SCALE as int) > m1 {
        m1
    } else {
        tdiv(t, SCALE as int)
    }
}

impl CheckerboardTexture {
    pub open spec fn wf(self) -> bool {
        self.dim > 0
    }

    pub fn new(dim: i64) -> (r: CheckerboardTexture)
        ensures
            r.dim == dim,
    {
        CheckerboardTexture { dim }
    }

    pub fn color(&self, u: i64, v: i64) -> (r: Vec3)
        requires
            self.wf(),
        ensures
            r@ == checker_color_spec(self.dim as int, u as int, v as int),
            color_in_range(r@),
    {
        let half = fx_div(self.dim, FX_TWO);

        let mut s = fx_mod(u, self.dim);
        let mut t = fx_mod(v, self.dim);
        if s > 0 {
            s = fx_sub(s, half);
        } else {
            s = fx_add(s, half);
        }

        if t > 0 {
            t = fx_sub(t, half);
        } else {
            t = fx_add(t, half);
        }

        if s > 0 && t < 0 || s < 0 && t > 0 {
            Vec3::new(0, 0, 0)
        } else {
            Vec3::new(FX_255, FX_255, FX_255)
        }
    }
}

impl ImageTexture {
    pub open spec fn wf(self) -> bool {
        &&& self.width >= 1
        &&& self.height >= 1
        &&& self.pixels@.len() == (self.width as int) * (self.height as int)
        &&& pixels_in_range(self.pixels@)
    }

    /// Accepts a pixel grid whose length matches its dimensions and whose
    /// channels all lie on the 0-255 color scale; decoding a file into such
    /// a grid is the scene loader's concern.
    pub fn new(pixels: Vec<Vec3>, width: u32, height: u32) -> (r: Option<ImageTexture>)
        ensures
            match r {
                Some(t) => t.pixels == pixels && t.width == width && t.height == height && t.wf(),
                None => !(width >= 1 && height >= 1 && pixels@.len() == (width as int) * (
                height as int) && pixels_in_range(pixels@)),
            },
    {
        proof {
            assert((width as int) * (height as int) < 0x1_0000_0000_0000_0000) by (nonlinear_arith)
                requires
                    width <= 0xffff_ffffu32,
                    height <= 0xffff_ffffu32,
            ;
        }
        if !(width >= 1 && height >= 1 && pixels.len() as u64 == (width as u64) * (height as u64)) {
            return None;
        }
        let n = pixels.len();
        let mut i: usize = 0;
        while i < n
            invariant
                n == pixels@.len(),
                i <= n,
                forall|j: int| 0 <= j < i ==> color_in_range(#[trigger] pixels@[j]@),
            decreases n - i,
        {
            let p = &pixels[i];
            if !(0 <= p.x && p.x <= FX_255 && 0 <= p.y && p.y <= FX_255 && 0 <= p.z && p.z
                <= FX_255) {
                proof {
                    assert(!color_in_range(pixels@[i as int]@));
                }
                return None;
            }
            i = i + 1;
        }
        Some(ImageTexture { pixels, width, height })
    }

    pub open spec fn color_spec(self, u: int, v: int) -> V3
        recommends
            self.wf(),
    {
        let uu = fmul(tmod(u, SCALE as int), (self.width - 1) * (SCALE as int));
        let vv = fmul(tmod(v, SCALE as int), (self.height - 1) * (SCALE as int));
        let px = pixel_index(uu, self.width - 1);
        let py = pixel_index(vv, self.height - 1);
        self.pixels@[py * (self.width as int) + px]@
    }

    pub fn color(&self, u: i64, v: i64) -> (r: Vec3)
        requires
            self.wf(),
        ensures
            r@ == self.color_spec(u as int, v as int),
            color_in_range(r@),
    {
        let wm1: i64 = ((self.width - 1) as i64) * SCALE;
        let hm1: i64 = ((self.height - 1) as i64) * SCALE;
        let uu = fx_mul(fx_mod(u, SCALE), wm1);
        let vv = fx_mul(fx_mod(v, SCALE), hm1);
        let px = clamp_index(uu, (self.width - 1) as i64);
        let py = clamp_index(vv, (self.height - 1) as i64);
        proof {
            assert((py as int) * (self.width as int) + (px as int) < (self.height as int) * (
            self.width as int)) by (nonlinear_arith)
                requires
                    0 <= py && (py as int) < (self.height as int),
                    0 <= px && (px as int) < (self.width as int),
            ;
            assert((self.width as int) * (self.height as int) == (self.height as int) * (
            self.width as int)) by (nonlinear_arith);
        }
        // Binding the length brings the grid's size into scope for the
        // index bound.
        let _count = self.pixels.len();
        let idx: usize = (py as usize) * (self.width as usize) + (px as usize);
        self.pixels[idx]
    }
}

/// Truncate a nonnegative scaled coordinate to a whole index, saturating
/// into `[0, m1]`.
fn clamp_index(t: i64, m1: i64) -> (r: i64)
    requires
        m1 >= 0,
    ensures
        r as int == pixel_index(t as int, m1 as int),
        0 <= r <= m1,
{
    if t < 0 {
        0
    } else {
        let q = ((t as u64) / 65536u64) as i64;
        if q > m1 {
            m1
        } else {
            q
        }
    }
}

/// An even period splits into two exact halves, so folding is periodic:
/// stepping a coordinate by one period leaves the folded value unchanged.
proof fn lemma_checker_fold_periodic(dim: int, c: int)
    requires
        dim > 0,
        dim % 2 == 0,
        dim <= FX_MAX as int,
    ensures
        checker_fold(dim, c + dim) == checker_fold(dim, c),
{
    let half = fdiv(dim, FX_TWO as int);
    let k = dim / 2;
    lemma_fundamental_div_mod(dim, 2);
    assert(dim == 2 * k);
    assert(dim * 65536 == k * 131072);
    lemma_div_multiples_vanish(k, 131072);
    assert((131072 * k) / 131072 == k);
    assert(tdiv(dim * 65536, 131072) == k);
    assert(half == k);

    let m = tmod(c, dim);
    let m2 = tmod(c + dim, dim);
    if c >= 0 {
        lemma_mod_add_multiples_vanish(c, dim);
        assert(m2 == m);
    } else if c + dim < 0 {
        lemma_mod_add_multiples_vanish(-c - dim, dim);
        assert((-c) % dim == (-c - dim) % dim);
        assert(m2 == m);
    } else if c + dim == 0 {
        lemma_mod_self_0(dim);
        assert(m == 0);
        assert(m2 == 0);
    } else {
        // The fold crosses zero: the modulus shifts by a whole period, the
        // half-offset changes sign, and the two cancel exactly.
        lemma_small_mod((c + dim) as nat, dim as nat);
        lemma_small_mod((-c) as nat, dim as nat);
        assert(m == c);
        assert(m2 == c + dim);
        assert(checker_fold(dim, c) == clip(c + k));
        assert(checker_fold(dim, c + dim) == clip(c + dim - k));
        assert(c + dim - k == c + k);
    }
}

/// Spatial periodicity: the checkerboard's color repeats with period `dim`
/// in both axes.  (An even period folds exactly; the shifted coordinates
/// must stay representable.)
pub proof fn lemma_checkerboard_periodic(dim: int, u: int, v: int)
    requires
        dim > 0,
        dim % 2 == 0,
        dim <= FX_MAX as int,
        FX_MIN as int <= u + dim <= FX_MAX as int,
        FX_MIN as int <= v + dim <= FX_MAX as int,
    ensures
        checker_color_spec(dim, fadd(u, dim), fadd(v, dim)) == checker_color_spec(dim, u, v),
{
    assert(fadd(u, dim) == u + dim);
    assert(fadd(v, dim) == v + dim);
    lemma_checker_fold_periodic(dim, u);
    lemma_checker_fold_periodic(dim, v);
}

/// The color a texture yields at surface coordinates `(u, v)`.
pub open spec fn texture_color_spec(t: Texture, u: int, v: int) -> V3 {
    match t {
        Texture::Checkerboard(c) => checker_color_spec(c.dim as int, u, v),
        Texture::Image(im) => im.color_spec(u, v),
    }
}

impl Texture {
    pub open spec fn wf(self) -> bool {
        match self {
            Texture::Checkerboard(c) => c.wf(),
            Texture::Image(im) => im.wf(),
        }
    }

    pub fn color(&self, u: i64, v: i64) -> (r: Vec3)
        requires
            self.wf(),
        ensures
            r@ == texture_color_spec(*self, u as int, v as int),
            color_in_range(r@),
    {
        match self {
            Texture::Checkerboard(c) => c.color(u, v),
            Texture::Image(im) => im.color(u, v),
        }
    }
}

} // verus!
