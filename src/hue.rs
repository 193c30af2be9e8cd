//! The hue cycler: a hue in thousandths of a degree that advances by a fixed
//! increment per integration step and wraps to zero at a full turn.
use vstd::prelude::*;

verus! {

/// A full turn, in thousandths of a degree.
pub const HUE_PERIOD: u32 = 360_000;

/// The hue after one advance by `inc` from `h`.
pub open spec fn next_hue(h: int, inc: int) -> int {
    if h + inc >= HUE_PERIOD {
        0
    } else {
        h + inc
    }
}

/// The hue after `k` advances by `inc`, starting from zero.
pub open spec fn hue_after(inc: int, k: nat) -> int
    decreases k,
{
    if k == 0 {
        0
    } else {
        next_hue(hue_after(inc, (k - 1) as nat), inc)
    }
}

pub struct HueCycler {
    hue: u32,
    increment: u32,
}

impl HueCycler {
    /// The current hue.
    pub closed spec fn hue(&self) -> nat {
        self.hue as nat
    }

    /// What each advance adds.
    pub closed spec fn inc(&self) -> nat {
        self.increment as nat
    }

    pub open spec fn wf(&self) -> bool {
        self.hue() < HUE_PERIOD
    }

    /// A cycler at hue zero that advances by `increment`.
    pub fn new(increment: u32) -> (r: HueCycler)
        ensures
            r.wf(),
            r.hue() == 0,
            r.inc() == increment,
    {
        HueCycler { hue: 0, increment }
    }

    pub fn current(&self) -> (r: u32)
        ensures
            r == self.hue(),
    {
        self.hue
    }

    pub fn increment(&self) -> (r: u32)
        ensures
            r == self.inc(),
    {
        self.increment
    }

    /// Adds the increment, wrapping to zero on reaching a full turn, and
    /// returns the new hue.
    pub fn advance(&mut self) -> (r: u32)
        requires
            old(self).wf(),
        ensures
            final(self).wf(),
            final(self).inc() == old(self).inc(),
            final(self).hue() == next_hue(old(self).hue() as int, old(self).inc() as int),
            r == final(self).hue(),
    {
        let sum = self.hue as u64 + self.increment as u64;
        if sum >= HUE_PERIOD as u64 {
            self.hue = 0;
        } else {
            self.hue = sum as u32;
        }
        self.hue
    }

    /// Sets the hue back to zero.
    pub fn reset(&mut self)
        ensures
            final(self).wf(),
            final(self).inc() == old(self).inc(),
            final(self).hue() == 0,
    {
        self.hue = 0;
    }
}

proof fn lemma_hue_linear(inc: int, k: nat)
    requires
        inc > 0,
        k * inc < HUE_PERIOD,
    ensures
        hue_after(inc, k) == k * inc,
    decreases k,
{
    if k > 0 {
        let j = (k - 1) as nat;
        assert(j * inc + inc == k * inc && j * inc <= k * inc) by (nonlinear_arith)
            requires
                j == k - 1,
                inc > 0,
        ;
        lemma_hue_linear(inc, j);
        assert(hue_after(inc, k) == next_hue(hue_after(inc, j), inc));
    } else {
        assert(k * inc == 0) by (nonlinear_arith)
            requires
                k == 0,
        ;
    }
}

/// Advancing from zero by `inc` any number of times keeps the hue within
/// `[0, HUE_PERIOD)`; and where `inc > 0`, after exactly
/// ⌈`HUE_PERIOD` / `inc`⌉ advances the hue has wrapped to a value below `inc`.
pub proof fn lemma_hue_wraps(inc: nat, k: nat)
    ensures
        0 <= hue_after(inc as int, k) < HUE_PERIOD,
        inc > 0 ==> hue_after(inc as int, ((HUE_PERIOD + inc - 1) / (inc as int)) as nat) < inc,
    decreases k,
{
    if k > 0 {
        lemma_hue_wraps(inc, (k - 1) as nat);
    }
    if inc > 0 {
        let p = HUE_PERIOD as int;
        let i = inc as int;
        let c = (p + i - 1) / i;
        vstd::arithmetic::div_mod::lemma_fundamental_div_mod(p + i - 1, i);
        vstd::arithmetic::div_mod::lemma_mod_pos_bound(p + i - 1, i);
        assert(c >= 1 && (c - 1) * i < p && (c - 1) * i + i >= p) by (nonlinear_arith)
            requires
                p + i - 1 == i * c + (p + i - 1) % i,
                0 <= (p + i - 1) % i < i,
                i > 0,
                p > 0,
        ;
        assert((c - 1) * i >= 0) by (nonlinear_arith)
            requires
                c >= 1,
                i > 0,
        ;
        lemma_hue_linear(i, (c - 1) as nat);
        assert(hue_after(i, c as nat) == next_hue(hue_after(i, (c - 1) as nat), i));
    }
}

} // verus!
