//! The Lorenz vector field and one explicit Euler step through it.
use vstd::prelude::*;

use crate::fixed::{fmul, lemma_fmul_bound, lemma_fmul_neg, mul_fixed};

verus! {

/// The largest magnitude a coordinate, a coefficient or a time step may have
/// (one million, in fixed point). A step whose result leaves this range is
/// refused: it is how divergence shows in fixed point.
pub const MAX_COORD: i64 = 1_000_000_000_000;

pub open spec fn in_bounds(v: int) -> bool {
    -(MAX_COORD as int) <= v <= MAX_COORD as int
}

/// A point in space, each coordinate in fixed point.
#[derive(Clone, Copy, Debug, PartialEq, Eq, Structural)]
pub struct Point {
    pub x: i64,
    pub y: i64,
    pub z: i64,
}

/// The coefficients σ, ρ and β of the vector field, in fixed point.
#[derive(Clone, Copy, Debug, PartialEq, Eq, Structural)]
pub struct Coefficients {
    pub sigma: i64,
    pub rho: i64,
    pub beta: i64,
}

impl Point {
    pub open spec fn in_range(&self) -> bool {
        in_bounds(self.x as int) && in_bounds(self.y as int) && in_bounds(self.z as int)
    }

    pub fn new(x: i64, y: i64, z: i64) -> (r: Point)
        ensures
            r == (Point { x, y, z }),
    {
        Point { x, y, z }
    }

    /// Whether every coordinate lies within `MAX_COORD`.
    pub fn is_in_range(&self) -> (r: bool)
        ensures
            r == self.in_range(),
    {
        -MAX_COORD <= self.x && self.x <= MAX_COORD && -MAX_COORD <= self.y && self.y <= MAX_COORD
            && -MAX_COORD <= self.z && self.z <= MAX_COORD
    }
}

impl Coefficients {
    pub open spec fn in_range(&self) -> bool {
        in_bounds(self.sigma as int) && in_bounds(self.rho as int) && in_bounds(self.beta as int)
    }

    /// The classical coefficients σ = 10, ρ = 28, β = 8/3 (rounded to the
    /// nearest unit).
    pub fn classic() -> (r: Coefficients)
        ensures
            r == (Coefficients { sigma: 10_000_000, rho: 28_000_000, beta: 2_666_667 }),
            r.in_range(),
    {
        Coefficients { sigma: 10_000_000, rho: 28_000_000, beta: 2_666_667 }
    }

    pub fn is_in_range(&self) -> (r: bool)
        ensures
            r == self.in_range(),
    {
        -MAX_COORD <= self.sigma && self.sigma <= MAX_COORD && -MAX_COORD <= self.rho
            && self.rho <= MAX_COORD && -MAX_COORD <= self.beta && self.beta <= MAX_COORD
    }
}

/// x + σ(y − x)·dt
pub open spec fn next_x(p: Point, c: Coefficients, dt: int) -> int {
    p.x + fmul(fmul(c.sigma as int, p.y - p.x), dt)
}

/// y + (x(ρ − z) − y)·dt
pub open spec fn next_y(p: Point, c: Coefficients, dt: int) -> int {
    p.y + fmul(fmul(p.x as int, c.rho - p.z) - p.y, dt)
}

/// z + (xy − βz)·dt
pub open spec fn next_z(p: Point, c: Coefficients, dt: int) -> int {
    p.z + fmul(fmul(p.x as int, p.y as int) - fmul(c.beta as int, p.z as int), dt)
}

/// One Euler step, all three deltas taken from the same point `p`; `None`
/// where an input or the result leaves the representable range.
pub open spec fn euler(p: Point, c: Coefficients, dt: int) -> Option<Point> {
    if p.in_range() && c.in_range() && in_bounds(dt) && in_bounds(next_x(p, c, dt))
        && in_bounds(next_y(p, c, dt)) && in_bounds(next_z(p, c, dt)) {
        Some(
            Point {
                x: next_x(p, c, dt) as i64,
                y: next_y(p, c, dt) as i64,
                z: next_z(p, c, dt) as i64,
            },
        )
    } else {
        None
    }
}

/// Advances `p` by one explicit Euler step of length `dt` through the Lorenz
/// field with coefficients `c`. Returns `None`, rather than a wrapped or
/// saturated value, where `p`, `c` or `dt` is out of range or the result
/// would be.
pub fn euler_step(p: &Point, c: &Coefficients, dt: i64) -> (r: Option<Point>)
    ensures
        r == euler(*p, *c, dt as int),
        r matches Some(q) ==> q.in_range(),
{
    if !p.is_in_range() || !c.is_in_range() || dt < -MAX_COORD || dt > MAX_COORD {
        return None;
    }
    let x = p.x as i128;
    let y = p.y as i128;
    let z = p.z as i128;
    let dt = dt as i128;
    let ghost m: int = MAX_COORD as int;
    proof {
        lemma_fmul_bound(c.sigma as int, y - x, m, 2 * m);
        lemma_fmul_bound(p.x as int, c.rho - z, m, 2 * m);
        lemma_fmul_bound(p.x as int, p.y as int, m, m);
        lemma_fmul_bound(c.beta as int, p.z as int, m, m);
    }
    let sx = mul_fixed(c.sigma as i128, y - x);
    let px = mul_fixed(x, c.rho as i128 - z);
    let xy = mul_fixed(x, y);
    let bz = mul_fixed(c.beta as i128, z);
    let ey = px - y;
    let ez = xy - bz;
    proof {
        lemma_fmul_bound(sx as int, dt as int, 2_000_000_000_000_000_001, m);
        lemma_fmul_bound(ey as int, dt as int, 3_000_000_000_000_000_000, m);
        lemma_fmul_bound(ez as int, dt as int, 3_000_000_000_000_000_000, m);
    }
    let nx = x + mul_fixed(sx, dt);
    let ny = y + mul_fixed(ey, dt);
    let nz = z + mul_fixed(ez, dt);
    let limit = MAX_COORD as i128;
    if nx < -limit || nx > limit || ny < -limit || ny > limit || nz < -limit || nz > limit {
        return None;
    }
    Some(Point { x: nx as i64, y: ny as i64, z: nz as i64 })
}

/// The Lorenz field is unchanged by the turn `(x, y, z) -> (-x, -y, z)`, and
/// so is one step through it: stepping from the turned point gives exactly
/// the turned result, and one of the two steps is refused only when the
/// other is.
pub proof fn lemma_euler_symmetric(p: Point, c: Coefficients, dt: int)
    requires
        p.x > i64::MIN,
        p.y > i64::MIN,
    ensures
        euler(Point { x: -p.x as i64, y: -p.y as i64, z: p.z }, c, dt) == match euler(p, c, dt) {
            Some(q) => Some(Point { x: -q.x as i64, y: -q.y as i64, z: q.z }),
            None => None,
        },
{
    let t = Point { x: -p.x as i64, y: -p.y as i64, z: p.z };
    let (x, y, z) = (p.x as int, p.y as int, p.z as int);
    lemma_fmul_neg(c.sigma as int, y - x);
    assert(t.y - t.x == -(y - x));
    lemma_fmul_neg(fmul(c.sigma as int, y - x), dt);
    assert(next_x(t, c, dt) == -next_x(p, c, dt));
    lemma_fmul_neg(x, c.rho - z);
    lemma_fmul_neg(fmul(x, c.rho - z) - y, dt);
    assert(fmul(t.x as int, c.rho - t.z) - t.y == -(fmul(x, c.rho - z) - y));
    assert(next_y(t, c, dt) == -next_y(p, c, dt));
    lemma_fmul_neg(x, y);
    assert(fmul(t.x as int, t.y as int) == fmul(x, y));
    assert(next_z(t, c, dt) == next_z(p, c, dt));
}

} // verus!
