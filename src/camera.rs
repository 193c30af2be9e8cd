//! The camera transform: every trail sample is scaled, then turned by the
//! pitch about the horizontal axis, then by the yaw about the vertical axis,
//! always from the stored, unrotated coordinates.
use vstd::prelude::*;

use crate::fixed::{fmul, lemma_fmul_bound, lemma_fmul_one_zero, mul_fixed, ONE};
use crate::lorenz::Point;

verus! {

/// Scale and rotation of the view. `scale` is in fixed point; each angle is
/// given by its cosine and sine in fixed point, which are read clamped to
/// `[-ONE, ONE]`.
#[derive(Clone, Copy, Debug, PartialEq, Eq, Structural)]
pub struct Camera {
    pub scale: i64,
    pub cos_pitch: i64,
    pub sin_pitch: i64,
    pub cos_yaw: i64,
    pub sin_yaw: i64,
}

/// A sample after the camera transform, with its hue.
#[derive(Clone, Copy, Debug, PartialEq, Eq, Structural)]
pub struct Projected {
    pub x: i128,
    pub y: i128,
    pub z: i128,
    pub hue: u32,
}

pub open spec fn unit(c: int) -> int {
    if c < -(ONE as int) {
        -(ONE as int)
    } else if c > ONE as int {
        ONE as int
    } else {
        c
    }
}

/// `p` scaled, then pitched, then yawed, as `(x, y, z)`.
pub open spec fn project(p: Point, cam: Camera) -> (int, int, int) {
    let sx = fmul(cam.scale as int, p.x as int);
    let sy = fmul(cam.scale as int, p.y as int);
    let sz = fmul(cam.scale as int, p.z as int);
    let cp = unit(cam.cos_pitch as int);
    let sp = unit(cam.sin_pitch as int);
    let cy = unit(cam.cos_yaw as int);
    let sw = unit(cam.sin_yaw as int);
    let y1 = fmul(cp, sy) - fmul(sp, sz);
    let z1 = fmul(sp, sy) + fmul(cp, sz);
    (fmul(cy, sx) + fmul(sw, z1), y1, fmul(cy, z1) - fmul(sw, sx))
}

impl Camera {
    /// No rotation, and `scale`.
    pub fn level(scale: i64) -> (r: Camera)
        ensures
            r == (Camera { scale, cos_pitch: ONE, sin_pitch: 0, cos_yaw: ONE, sin_yaw: 0 }),
    {
        Camera { scale, cos_pitch: ONE, sin_pitch: 0, cos_yaw: ONE, sin_yaw: 0 }
    }
}

fn clamp_unit(c: i64) -> (r: i128)
    ensures
        r == unit(c as int),
{
    if c < -ONE {
        -(ONE as i128)
    } else if c > ONE {
        ONE as i128
    } else {
        c as i128
    }
}

/// The largest magnitude of a scaled coordinate.
const SCALED_MAX: i128 = 10_000_000_000_000_000_000_000_000;

/// Applies the camera transform to `p`, which must lie within range.
pub fn project_point(p: &Point, cam: &Camera) -> (r: (i128, i128, i128))
    requires
        p.in_range(),
    ensures
        (r.0 as int, r.1 as int, r.2 as int) == project(*p, *cam),
{
    let ghost s: int = 0x8000_0000_0000_0000;
    let ghost m: int = crate::lorenz::MAX_COORD as int;
    let ghost b: int = SCALED_MAX as int;
    let ghost one: int = ONE as int;
    proof {
        lemma_fmul_bound(cam.scale as int, p.x as int, s, m);
        lemma_fmul_bound(cam.scale as int, p.y as int, s, m);
        lemma_fmul_bound(cam.scale as int, p.z as int, s, m);
    }
    let sx = mul_fixed(cam.scale as i128, p.x as i128);
    let sy = mul_fixed(cam.scale as i128, p.y as i128);
    let sz = mul_fixed(cam.scale as i128, p.z as i128);
    let cp = clamp_unit(cam.cos_pitch);
    let sp = clamp_unit(cam.sin_pitch);
    let cy = clamp_unit(cam.cos_yaw);
    let sw = clamp_unit(cam.sin_yaw);
    proof {
        lemma_fmul_bound(cp as int, sy as int, one, b);
        lemma_fmul_bound(sp as int, sz as int, one, b);
        lemma_fmul_bound(sp as int, sy as int, one, b);
        lemma_fmul_bound(cp as int, sz as int, one, b);
    }
    let y1 = mul_fixed(cp, sy) - mul_fixed(sp, sz);
    let z1 = mul_fixed(sp, sy) + mul_fixed(cp, sz);
    proof {
        lemma_fmul_bound(cy as int, sx as int, one, b);
        lemma_fmul_bound(sw as int, z1 as int, one, 3 * b);
        lemma_fmul_bound(cy as int, z1 as int, one, 3 * b);
        lemma_fmul_bound(sw as int, sx as int, one, b);
    }
    let x2 = mul_fixed(cy, sx) + mul_fixed(sw, z1);
    let z2 = mul_fixed(cy, z1) - mul_fixed(sw, sx);
    (x2, y1, z2)
}

/// `p` scaled and flattened to the plane, as `(x, y)`: the vertex it gives
/// a polyline.
pub open spec fn flatten(p: Point, scale: int) -> (int, int) {
    (fmul(scale, p.x as int), fmul(scale, p.y as int))
}

/// Scales `p` and drops its depth.
pub fn flatten_point(p: &Point, scale: i64) -> (r: (i128, i128))
    ensures
        (r.0 as int, r.1 as int) == flatten(*p, scale as int),
{
    let ghost s: int = 0x8000_0000_0000_0000;
    proof {
        lemma_fmul_bound(scale as int, p.x as int, s, s);
        lemma_fmul_bound(scale as int, p.y as int, s, s);
    }
    (mul_fixed(scale as i128, p.x as i128), mul_fixed(scale as i128, p.y as i128))
}

/// With no pitch and no yaw the transform is the scaling alone.
pub proof fn lemma_level_is_scaling(p: Point, scale: i64)
    ensures
        project(p, Camera { scale, cos_pitch: ONE, sin_pitch: 0, cos_yaw: ONE, sin_yaw: 0 }) == (
            fmul(scale as int, p.x as int),
            fmul(scale as int, p.y as int),
            fmul(scale as int, p.z as int),
        ),
{
    lemma_fmul_one_zero(fmul(scale as int, p.x as int));
    lemma_fmul_one_zero(fmul(scale as int, p.y as int));
    lemma_fmul_one_zero(fmul(scale as int, p.z as int));
    lemma_fmul_one_zero(0);
}

} // verus!
