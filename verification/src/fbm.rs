//! The procedural noise field: fractal (sum-of-octaves) value noise over
//! fixed-point positions, seeded by an integer.
//!
//! Like the vector algebra and the arctangent, the field is part of the
//! fixed-point model: a hash of the surrounding lattice cell corners,
//! blended by a smoothstep fade, summed over octaves of rising frequency
//! and falling amplitude, and clamped into `[-1, 1]`.  Every function's
//! exact value is stated; the field is a pure function of its parameters
//! and the position, so equal inputs sample equally on every machine.

use vstd::prelude::*;

use crate::fixed::{
    fadd, fclamp, fdbl, fmul, fsub, fx_add, fx_clamp, fx_dbl, fx_mul, fx_sub, SCALE,
};
use crate::vec3::{v_scale, V3, Vec3};
use vstd::arithmetic::div_mod::{
    lemma_fundamental_div_mod, lemma_fundamental_div_mod_converse,
};

verus! {

/// Odd mixing constants of the lattice hash.
pub const MIX_A: u64 = 0x9e37_79b9_7f4a_7c15;

pub const MIX_B: u64 = 0xbf58_476d_1ce4_e5b9;

pub const MIX_C: u64 = 0x94d0_49bb_1331_11eb;

pub const MIX_D: u64 = 0xd6e8_feb8_6659_fd93;

/// Shifts a lattice coordinate into the nonnegative range before hashing.
pub const LATTICE_OFFSET: i64 = 0x4000_0000_0000_0000;

/// Addition and multiplication that wrap at sixty-four bits.
pub open spec fn wadd(a: int, b: int) -> int {
    (a + b) % 0x1_0000_0000_0000_0000
}

pub open spec fn wmul(a: int, b: int) -> int {
    (a * b) % 0x1_0000_0000_0000_0000
}

fn wrap_add(a: u64, b: u64) -> (r: u64)
    ensures
        r as int == wadd(a as int, b as int),
{
    (((a as u128) + (b as u128)) % 0x1_0000_0000_0000_0000u128) as u64
}

fn wrap_mul(a: u64, b: u64) -> (r: u64)
    ensures
        r as int == wmul(a as int, b as int),
{
    proof {
        assert((a as int) * (b as int) <= 0xffff_ffff_ffff_ffff * 0xffff_ffff_ffff_ffff)
            by (nonlinear_arith)
            requires
                a <= 0xffff_ffff_ffff_ffffu64 && b <= 0xffff_ffff_ffff_ffffu64,
        ;
        assert((a as int) * (b as int) >= 0) by (nonlinear_arith);
    }
    (((a as u128) * (b as u128)) % 0x1_0000_0000_0000_0000u128) as u64
}

/// The field value stored at one lattice corner: a hash of the seed and the
/// corner's coordinates, folded into `[-1, 1]`.
pub open spec fn cell_value_spec(seed: int, xq: int, yq: int, zq: int) -> int {
    let h0 = wmul(wadd(seed, MIX_A as int), MIX_B as int);
    let h1 = wmul(wadd(h0, xq + LATTICE_OFFSET as int), MIX_B as int);
    let h2 = wmul(wadd(h1, yq + LATTICE_OFFSET as int), MIX_C as int);
    let h3 = wmul(wadd(h2, zq + LATTICE_OFFSET as int), MIX_D as int);
    let h4 = wmul(h3, wadd(h3, MIX_A as int));
    (h4 % 131073) - (SCALE as int)
}

fn cell_value(seed: u64, xq: i64, yq: i64, zq: i64) -> (r: i64)
    requires
        -0x1_0000_0000_0000 <= xq <= 0x1_0000_0000_0000,  // |coordinate| <= 2^48
        -0x1_0000_0000_0000 <= yq <= 0x1_0000_0000_0000,
        -0x1_0000_0000_0000 <= zq <= 0x1_0000_0000_0000,
    ensures
        r as int == cell_value_spec(seed as int, xq as int, yq as int, zq as int),
        -SCALE <= r <= SCALE,
{
    let ux = (xq + LATTICE_OFFSET) as u64;
    let uy = (yq + LATTICE_OFFSET) as u64;
    let uz = (zq + LATTICE_OFFSET) as u64;
    let h0 = wrap_mul(wrap_add(seed, MIX_A), MIX_B);
    let h1 = wrap_mul(wrap_add(h0, ux), MIX_B);
    let h2 = wrap_mul(wrap_add(h1, uy), MIX_C);
    let h3 = wrap_mul(wrap_add(h2, uz), MIX_D);
    let h4 = wrap_mul(h3, wrap_add(h3, MIX_A));
    ((h4 % 131073u64) as i64) - SCALE
}

/// The smoothstep fade `t^2 (3 - 2 t)` that blends between lattice corners.
pub open spec fn fade_spec(t: int) -> int {
    fmul(fmul(t, t), fsub(196608, fdbl(t)))
}

/// Linear interpolation `a + t (b - a)` with a fixed-point weight.
pub open spec fn lerp_spec(a: int, b: int, t: int) -> int {
    fadd(a, fmul(t, fsub(b, a)))
}

fn fade(t: i64) -> (r: i64)
    ensures
        r as int == fade_spec(t as int),
{
    fx_mul(fx_mul(t, t), fx_sub(196608, fx_dbl(t)))
}

fn lerp(a: i64, b: i64, t: i64) -> (r: i64)
    ensures
        r as int == lerp_spec(a as int, b as int, t as int),
{
    fx_add(a, fx_mul(t, fx_sub(b, a)))
}

/// One sample of the base value noise: the position's cell corners hashed
/// and blended trilinearly with faded fractional weights.
pub open spec fn noise_at_spec(seed: int, p: V3) -> int {
    let s = SCALE as int;
    let xq = p.x / s;
    let yq = p.y / s;
    let zq = p.z / s;
    let fx = fade_spec(p.x % s);
    let fy = fade_spec(p.y % s);
    let fz = fade_spec(p.z % s);
    let x00 = lerp_spec(
        cell_value_spec(seed, xq, yq, zq),
        cell_value_spec(seed, xq + 1, yq, zq),
        fx,
    );
    let x10 = lerp_spec(
        cell_value_spec(seed, xq, yq + 1, zq),
        cell_value_spec(seed, xq + 1, yq + 1, zq),
        fx,
    );
    let x01 = lerp_spec(
        cell_value_spec(seed, xq, yq, zq + 1),
        cell_value_spec(seed, xq + 1, yq, zq + 1),
        fx,
    );
    let x11 = lerp_spec(
        cell_value_spec(seed, xq, yq + 1, zq + 1),
        cell_value_spec(seed, xq + 1, yq + 1, zq + 1),
        fx,
    );
    let y0 = lerp_spec(x00, x10, fy);
    let y1 = lerp_spec(x01, x11, fy);
    lerp_spec(y0, y1, fz)
}

/// Split a scaled coordinate into its lattice cell and fractional offset,
/// rounding the cell downward (also below zero).
fn floor_split(x: i64) -> (qr: (i64, i64))
    ensures
        qr.0 as int == (x as int) / (SCALE as int),
        qr.1 as int == (x as int) % (SCALE as int),
        -0x8000_0000_0000 <= qr.0 <= 0x8000_0000_0000,
        0 <= qr.1 < SCALE,
{
    if x >= 0 {
        let q = ((x as u64) / 65536u64) as i64;
        let r = ((x as u64) % 65536u64) as i64;
        (q, r)
    } else {
        let m = (-(x + 1)) as u64;
        let q = -(((m / 65536u64) as i64) + 1);
        let r = 65535i64 - ((m % 65536u64) as i64);
        proof {
            lemma_fundamental_div_mod(m as int, 65536);
            lemma_fundamental_div_mod_converse(x as int, 65536, q as int, r as int);
        }
        (q, r)
    }
}

fn noise_at(seed: u64, p: &Vec3) -> (r: i64)
    ensures
        r as int == noise_at_spec(seed as int, p@),
{
    let (xq, tx) = floor_split(p.x);
    let (yq, ty) = floor_split(p.y);
    let (zq, tz) = floor_split(p.z);
    let fx = fade(tx);
    let fy = fade(ty);
    let fz = fade(tz);
    let x00 = lerp(cell_value(seed, xq, yq, zq), cell_value(seed, xq + 1, yq, zq), fx);
    let x10 = lerp(cell_value(seed, xq, yq + 1, zq), cell_value(seed, xq + 1, yq + 1, zq), fx);
    let x01 = lerp(cell_value(seed, xq, yq, zq + 1), cell_value(seed, xq + 1, yq, zq + 1), fx);
    let x11 = lerp(
        cell_value(seed, xq, yq + 1, zq + 1),
        cell_value(seed, xq + 1, yq + 1, zq + 1),
        fx,
    );
    let y0 = lerp(x00, x10, fy);
    let y1 = lerp(x01, x11, fy);
    lerp(y0, y1, fz)
}

/// The octave fold: what remains of the fractal sum after the first octaves
/// have accumulated into `acc`, with the frequency and amplitude they left
/// behind.
pub open spec fn fbm_rec_spec(
    seed: int,
    k: int,
    freq: int,
    amp: int,
    acc: int,
    pers: int,
    lac: int,
    p: V3,
) -> int
    decreases k,
{
    if k <= 0 {
        acc
    } else {
        fbm_rec_spec(
            seed + 1,
            k - 1,
            fmul(freq, lac),
            fmul(amp, pers),
            fadd(acc, fmul(amp, noise_at_spec(seed, v_scale(p, freq)))),
            pers,
            lac,
            p,
        )
    }
}

/// The full field: octaves of base noise at rising frequency (times the
/// lacunarity each octave) and falling amplitude (times the persistence),
/// summed from amplitude one and clamped into `[-1, 1]`.
pub open spec fn field_spec(
    seed: int,
    octaves: int,
    freq: int,
    pers: int,
    lac: int,
    p: V3,
) -> int {
    fclamp(
        fbm_rec_spec(seed, octaves, freq, SCALE as int, 0, pers, lac, p),
        -(SCALE as int),
        SCALE as int,
    )
}

/// Sample the fractal field at a position.
pub fn field_sample(seed: u32, octaves: u32, freq: i64, pers: i64, lac: i64, p: &Vec3) -> (r: i64)
    ensures
        r as int == field_spec(seed as int, octaves as int, freq as int, pers as int, lac as int, p@),
        -SCALE <= r <= SCALE,
{
    let ghost freq0 = freq as int;
    let mut acc: i64 = 0;
    let mut cur_freq = freq;
    let mut amp: i64 = SCALE;
    let mut s: u64 = seed as u64;
    let mut i: u32 = 0;
    while i < octaves
        invariant
            i <= octaves,
            s as int == seed as int + i as int,
            fbm_rec_spec(
                seed as int,
                octaves as int,
                freq0,
                SCALE as int,
                0,
                pers as int,
                lac as int,
                p@,
            ) == fbm_rec_spec(
                s as int,
                octaves as int - i as int,
                cur_freq as int,
                amp as int,
                acc as int,
                pers as int,
                lac as int,
                p@,
            ),
        decreases octaves - i,
    {
        let n = noise_at(s, &p.scale(cur_freq));
        acc = fx_add(acc, fx_mul(amp, n));
        cur_freq = fx_mul(cur_freq, lac);
        amp = fx_mul(amp, pers);
        s = s + 1;
        i = i + 1;
    }
    fx_clamp(acc, -SCALE, SCALE)
}

} // verus!
