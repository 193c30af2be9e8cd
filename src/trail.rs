//! The trail: the most recent samples of the trajectory, oldest first, never
//! more than a fixed capacity.
use vstd::prelude::*;

use std::collections::VecDeque;

use crate::lorenz::Point;

verus! {

/// A position on the trajectory with the hue it was given when taken.
#[derive(Clone, Copy, Debug, PartialEq, Eq, Structural)]
pub struct Sample {
    pub pos: Point,
    pub hue: u32,
}

/// What a trail holding `s`, with room for `cap` samples, holds after `x` is
/// pushed: `x` at the back, and the oldest sample dropped if that overfills it.
pub open spec fn pushed<T>(s: Seq<T>, cap: nat, x: T) -> Seq<T> {
    if s.len() + 1 > cap {
        s.push(x).drop_first()
    } else {
        s.push(x)
    }
}

/// What an empty trail with room for `cap` samples holds after `xs` are
/// pushed in order.
pub open spec fn filled<T>(cap: nat, xs: Seq<T>) -> Seq<T>
    decreases xs.len(),
{
    if xs.len() == 0 {
        Seq::empty()
    } else {
        pushed(filled(cap, xs.drop_last()), cap, xs.last())
    }
}

/// A bounded double-ended queue of samples.
pub struct Trail {
    samples: VecDeque<Sample>,
    capacity: usize,
}

impl View for Trail {
    type V = Seq<Sample>;

    closed spec fn view(&self) -> Seq<Sample> {
        self.samples@
    }
}

impl Trail {
    pub open spec fn wf(&self) -> bool {
        self@.len() <= self.cap()
    }

    pub closed spec fn cap(&self) -> nat {
        self.capacity as nat
    }

    /// An empty trail with room for `capacity` samples.
    pub fn new(capacity: usize) -> (r: Trail)
        ensures
            r.wf(),
            r@ == Seq::<Sample>::empty(),
            r.cap() == capacity,
    {
        Trail { samples: VecDeque::new(), capacity }
    }

    pub fn capacity(&self) -> (r: usize)
        ensures
            r == self.cap(),
    {
        self.capacity
    }

    pub fn len(&self) -> (r: usize)
        ensures
            r == self@.len(),
    {
        self.samples.len()
    }

    /// Appends `s` as the newest sample, dropping the oldest one if the trail
    /// would otherwise hold more than its capacity.
    pub fn push(&mut self, s: Sample)
        requires
            old(self).wf(),
        ensures
            final(self).wf(),
            final(self).cap() == old(self).cap(),
            final(self)@ == pushed(old(self)@, old(self).cap(), s),
    {
        self.samples.push_back(s);
        if self.samples.len() > self.capacity {
            let _ = self.samples.pop_front();
        }
        proof {
            assert(self@ =~= pushed(old(self)@, old(self).cap(), s));
        }
    }

    /// Drops every sample.
    pub fn clear(&mut self)
        ensures
            final(self).wf(),
            final(self).cap() == old(self).cap(),
            final(self)@ == Seq::<Sample>::empty(),
    {
        self.samples.clear();
    }

    /// The samples, oldest first.
    pub fn to_vec(&self) -> (r: Vec<Sample>)
        ensures
            r@ == self@,
    {
        let n = self.samples.len();
        let mut out: Vec<Sample> = Vec::with_capacity(n);
        let mut i: usize = 0;
        while i < n
            invariant
                n == self@.len(),
                i <= n,
                out@ == self@.subrange(0, i as int),
            decreases n - i,
        {
            out.push(self.samples[i]);
            i = i + 1;
            assert(out@ =~= self@.subrange(0, i as int));
        }
        assert(out@ =~= self@);
        out
    }
}

/// Pushing `xs` one by one into an empty trail of capacity `cap` leaves
/// exactly the last `cap` of them, in the order they were pushed: the trail
/// never holds more than `cap`, and once more than `cap` were pushed its
/// oldest sample is the one pushed at (0-based) position `xs.len() - cap`.
pub proof fn lemma_filled_keeps_last<T>(cap: nat, xs: Seq<T>)
    ensures
        filled(cap, xs) == xs.subrange(
            if xs.len() > cap { xs.len() - cap } else { 0 },
            xs.len() as int,
        ),
        filled(cap, xs).len() <= cap,
        xs.len() > cap > 0 ==> filled(cap, xs)[0] == xs[xs.len() - cap],
    decreases xs.len(),
{
    if xs.len() > 0 {
        let ys = xs.drop_last();
        lemma_filled_keeps_last(cap, ys);
        let start = if xs.len() > cap { xs.len() - cap } else { 0 };
        assert(filled(cap, xs) =~= xs.subrange(start, xs.len() as int));
    } else {
        assert(filled(cap, xs) =~= xs.subrange(0, 0));
    }
}

} // verus!
