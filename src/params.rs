//! The interactive parameters a host adjusts and the core reads: scale,
//! pitch, yaw and the number of integration steps per frame.
use vstd::prelude::*;


verus! {

/// What one press changes the scale by: 0.1.
pub const SCALE_STEP: i64 = 100_000;

/// What one press changes an angle by: 0.01 radians.
pub const ANGLE_STEP: i64 = 10_000;

/// Scale and angles in fixed point (angles in radians), and steps per frame.
#[derive(Clone, Copy, Debug, PartialEq, Eq, Structural)]
pub struct Params {
    pub scale: i64,
    pub pitch: i64,
    pub yaw: i64,
    pub steps: u32,
}

/// A parameter that a host can change by a delta.
#[derive(Clone, Copy, Debug, PartialEq, Eq, Structural)]
pub enum Param {
    Scale,
    Pitch,
    Yaw,
    Steps,
}

/// `v` held within `[lo, hi]`.
pub open spec fn clamp(v: int, lo: int, hi: int) -> int {
    if v < lo {
        lo
    } else if v > hi {
        hi
    } else {
        v
    }
}

fn add_saturating(v: i64, delta: i64) -> (r: i64)
    ensures
        r == clamp(v + delta, i64::MIN as int, i64::MAX as int),
{
    let s = v as i128 + delta as i128;
    if s < i64::MIN as i128 {
        i64::MIN
    } else if s > i64::MAX as i128 {
        i64::MAX
    } else {
        s as i64
    }
}

impl Params {
    /// Scale 7.5, level view, one step per frame.
    pub fn initial() -> (r: Params)
        ensures
            r == (Params { scale: 7_500_000, pitch: 0, yaw: 0, steps: 1 }),
    {
        Params { scale: 7_500_000, pitch: 0, yaw: 0, steps: 1 }
    }

    /// Adds `delta` to the parameter `which`, saturating at the bounds of its
    /// type (the step count does not go below zero). Nothing else changes.
    pub fn apply_delta(&mut self, which: Param, delta: i64)
        ensures
            final(self).scale == (if which == Param::Scale {
                clamp(old(self).scale + delta, i64::MIN as int, i64::MAX as int)
            } else {
                old(self).scale as int
            }),
            final(self).pitch == (if which == Param::Pitch {
                clamp(old(self).pitch + delta, i64::MIN as int, i64::MAX as int)
            } else {
                old(self).pitch as int
            }),
            final(self).yaw == (if which == Param::Yaw {
                clamp(old(self).yaw + delta, i64::MIN as int, i64::MAX as int)
            } else {
                old(self).yaw as int
            }),
            final(self).steps == (if which == Param::Steps {
                clamp(old(self).steps + delta, 0, u32::MAX as int)
            } else {
                old(self).steps as int
            }),
    {
        match which {
            Param::Scale => self.scale = add_saturating(self.scale, delta),
            Param::Pitch => self.pitch = add_saturating(self.pitch, delta),
            Param::Yaw => self.yaw = add_saturating(self.yaw, delta),
            Param::Steps => {
                let s = self.steps as i128 + delta as i128;
                self.steps = if s < 0 {
                    0
                } else if s > u32::MAX as i128 {
                    u32::MAX
                } else {
                    s as u32
                };
            },
        }
    }
}

} // verus!
