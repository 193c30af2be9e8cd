//! The simulation: the integrator's state, the trail it leaves and the hue it
//! paints the trail with, advanced together one step at a time.
use vstd::prelude::*;

use crate::camera::{flatten, flatten_point, project, project_point, Camera, Projected};
use crate::hue::{next_hue, HueCycler, HUE_PERIOD};
use crate::lorenz::{euler, euler_step, in_bounds, Coefficients, Point};
use crate::trail::{pushed, Sample, Trail};

verus! {

/// Everything a simulation is, as plain values.
pub struct SimModel {
    /// Where it started, and where it returns when a step diverges.
    pub initial: Point,
    pub state: Point,
    pub coeffs: Coefficients,
    pub dt: int,
    pub capacity: nat,
    pub hue: nat,
    pub hue_inc: nat,
    pub trail: Seq<Sample>,
}

/// One step: integrate (or fall back to the starting point if the step
/// diverges), advance the hue, and push the new position with that hue.
pub open spec fn tick(m: SimModel) -> SimModel {
    let next = match euler(m.state, m.coeffs, m.dt) {
        Some(q) => q,
        None => m.initial,
    };
    let h = next_hue(m.hue as int, m.hue_inc as int);
    SimModel {
        state: next,
        hue: h as nat,
        trail: pushed(m.trail, m.capacity, Sample { pos: next, hue: h as u32 }),
        ..m
    }
}

/// `n` steps from `m`.
pub open spec fn run(m: SimModel, n: nat) -> SimModel
    decreases n,
{
    if n == 0 {
        m
    } else {
        tick(run(m, (n - 1) as nat))
    }
}

pub struct Simulation {
    initial: Point,
    state: Point,
    coeffs: Coefficients,
    dt: i64,
    trail: Trail,
    hue: HueCycler,
}

impl View for Simulation {
    type V = SimModel;

    closed spec fn view(&self) -> SimModel {
        SimModel {
            initial: self.initial,
            state: self.state,
            coeffs: self.coeffs,
            dt: self.dt as int,
            capacity: self.trail.cap(),
            hue: self.hue.hue(),
            hue_inc: self.hue.inc(),
            trail: self.trail@,
        }
    }
}

/// A model that a simulation can be in: all its values in range.
pub open spec fn model_wf(m: SimModel) -> bool {
    &&& m.initial.in_range()
    &&& m.state.in_range()
    &&& m.coeffs.in_range()
    &&& in_bounds(m.dt)
    &&& m.hue < HUE_PERIOD
    &&& m.hue_inc <= u32::MAX
    &&& m.capacity <= usize::MAX
    &&& m.trail.len() <= m.capacity
    &&& forall|i: int| 0 <= i < m.trail.len() ==> (#[trigger] m.trail[i]).pos.in_range()
}

impl Simulation {
    pub closed spec fn wf(&self) -> bool {
        &&& self.trail.wf()
        &&& self.hue.wf()
        &&& model_wf(self@)
    }

    /// A simulation at `initial`, with an empty trail of room `capacity`,
    /// hue zero advancing by `hue_increment` per step; `None` unless
    /// `initial`, `coeffs` and `dt` are all within range.
    pub fn new(
        initial: Point,
        coeffs: Coefficients,
        dt: i64,
        capacity: usize,
        hue_increment: u32,
    ) -> (r: Option<Simulation>)
        ensures
            r is Some <==> (initial.in_range() && coeffs.in_range() && in_bounds(dt as int)),
            r matches Some(s) ==> s.wf() && model_wf(s@) && s@ == (SimModel {
                initial,
                state: initial,
                coeffs,
                dt: dt as int,
                capacity: capacity as nat,
                hue: 0,
                hue_inc: hue_increment as nat,
                trail: Seq::empty(),
            }),
    {
        if !initial.is_in_range() || !coeffs.is_in_range() || dt < -crate::lorenz::MAX_COORD
            || dt > crate::lorenz::MAX_COORD {
            return None;
        }
        let s = Simulation {
            initial,
            state: initial,
            coeffs,
            dt,
            trail: Trail::new(capacity),
            hue: HueCycler::new(hue_increment),
        };
        Some(s)
    }

    /// The observed configuration: start at (0.01, 0, 0), σ = 10, ρ = 28,
    /// β = 8/3, dt = 0.01, a trail of 5000 samples, and the hue advancing by
    /// 0.05 degrees per step.
    pub fn classic() -> (r: Simulation)
        ensures
            r.wf(),
            model_wf(r@),
            r@ == (SimModel {
                initial: Point { x: 10_000, y: 0, z: 0 },
                state: Point { x: 10_000, y: 0, z: 0 },
                coeffs: Coefficients { sigma: 10_000_000, rho: 28_000_000, beta: 2_666_667 },
                dt: 10_000,
                capacity: 5000,
                hue: 0,
                hue_inc: 50,
                trail: Seq::empty(),
            }),
    {
        let start = Point::new(10_000, 0, 0);
        Simulation {
            initial: start,
            state: start,
            coeffs: Coefficients::classic(),
            dt: 10_000,
            trail: Trail::new(5000),
            hue: HueCycler::new(50),
        }
    }

    pub fn state(&self) -> (r: Point)
        ensures
            r == self@.state,
    {
        self.state
    }

    pub fn hue(&self) -> (r: u32)
        ensures
            r == self@.hue,
    {
        self.hue.current()
    }

    pub fn len(&self) -> (r: usize)
        ensures
            r == self@.trail.len(),
    {
        self.trail.len()
    }

    /// The trail, oldest sample first.
    pub fn samples(&self) -> (r: Vec<Sample>)
        ensures
            r@ == self@.trail,
    {
        self.trail.to_vec()
    }

    /// One integration step, hue advance and push.
    pub fn tick(&mut self)
        requires
            old(self).wf(),
        ensures
            final(self).wf(),
            model_wf(final(self)@),
            final(self)@ == tick(old(self)@),
    {
        let next = match euler_step(&self.state, &self.coeffs, self.dt) {
            Some(q) => q,
            None => self.initial,
        };
        let h = self.hue.advance();
        self.state = next;
        self.trail.push(Sample { pos: next, hue: h });
        proof {
            let m = old(self)@;
            let t = self.trail@;
            assert forall|i: int| 0 <= i < t.len() implies (#[trigger] t[i]).pos.in_range() by {
                if m.trail.len() + 1 > m.capacity {
                    assert(t[i] == m.trail.push(Sample { pos: next, hue: h })[i + 1]);
                } else {
                    assert(t[i] == m.trail.push(Sample { pos: next, hue: h })[i]);
                }
            }
        }
    }

    /// Performs `steps` steps.
    pub fn advance(&mut self, steps: u64)
        requires
            old(self).wf(),
        ensures
            final(self).wf(),
            model_wf(final(self)@),
            final(self)@ == run(old(self)@, steps as nat),
    {
        let mut i: u64 = 0;
        while i < steps
            invariant
                self.wf(),
                i <= steps,
                self@ == run(old(self)@, i as nat),
            decreases steps - i,
        {
            self.tick();
            i = i + 1;
        }
    }

    /// Back to the starting point, with an empty trail and hue zero.
    pub fn restart(&mut self)
        requires
            old(self).wf(),
        ensures
            final(self).wf(),
            model_wf(final(self)@),
            final(self)@ == (SimModel {
                state: old(self)@.initial,
                hue: 0,
                trail: Seq::empty(),
                ..old(self)@
            }),
    {
        self.state = self.initial;
        self.trail.clear();
        self.hue.reset();
    }

    /// Every sample of the trail through `cam`, oldest first, each with its
    /// own stored hue.
    pub fn render(&self, cam: &Camera) -> (r: Vec<Projected>)
        requires
            self.wf(),
        ensures
            r@.len() == self@.trail.len(),
            forall|i: int|
                0 <= i < r@.len() ==> {
                    let s = #[trigger] self@.trail[i];
                    let q = r@[i];
                    (q.x as int, q.y as int, q.z as int) == project(s.pos, *cam) && q.hue == s.hue
                },
    {
        let samples = self.trail.to_vec();
        let n = samples.len();
        let mut out: Vec<Projected> = Vec::with_capacity(n);
        let mut i: usize = 0;
        while i < n
            invariant
                self.wf(),
                samples@ == self@.trail,
                n == samples@.len(),
                i <= n,
                out@.len() == i,
                forall|j: int|
                    0 <= j < i ==> {
                        let s = #[trigger] self@.trail[j];
                        let q = out@[j];
                        (q.x as int, q.y as int, q.z as int) == project(s.pos, *cam) && q.hue
                            == s.hue
                    },
            decreases n - i,
        {
            let s = samples[i];
            assert(self@.trail[i as int] == s);
            let (x, y, z) = project_point(&s.pos, cam);
            out.push(Projected { x, y, z, hue: s.hue });
            i = i + 1;
        }
        out
    }

    /// The trail as the vertices of one polyline, oldest first: each sample
    /// scaled by `scale` with its depth dropped, and its hue.
    pub fn polyline(&self, scale: i64) -> (r: Vec<(i128, i128, u32)>)
        ensures
            r@.len() == self@.trail.len(),
            forall|i: int|
                0 <= i < r@.len() ==> {
                    let s = #[trigger] self@.trail[i];
                    let v = r@[i];
                    (v.0 as int, v.1 as int) == flatten(s.pos, scale as int) && v.2 == s.hue
                },
    {
        let samples = self.trail.to_vec();
        let n = samples.len();
        let mut out: Vec<(i128, i128, u32)> = Vec::with_capacity(n);
        let mut i: usize = 0;
        while i < n
            invariant
                samples@ == self@.trail,
                n == samples@.len(),
                i <= n,
                out@.len() == i,
                forall|j: int|
                    0 <= j < i ==> {
                        let s = #[trigger] self@.trail[j];
                        let v = out@[j];
                        (v.0 as int, v.1 as int) == flatten(s.pos, scale as int) && v.2 == s.hue
                    },
            decreases n - i,
        {
            let s = samples[i];
            assert(self@.trail[i as int] == s);
            let (x, y) = flatten_point(&s.pos, scale);
            out.push((x, y, s.hue));
            i = i + 1;
        }
        out
    }
}

/// Integration is deterministic and does not depend on how the steps are
/// split into frames: two runs from the same state, one of `a` steps followed
/// by `b` steps and one of `a + b` steps at once, end in identical states,
/// with identical trails.
pub proof fn lemma_run_deterministic(m1: SimModel, m2: SimModel, a: nat, b: nat)
    requires
        m1 == m2,
    ensures
        run(run(m1, a), b) == run(m2, a + b),
    decreases b,
{
    if b > 0 {
        lemma_run_deterministic(m1, m2, a, (b - 1) as nat);
        assert(run(m2, a + b) == tick(run(m2, (a + b - 1) as nat)));
    }
}

} // verus!
