use crate::step::{lemma_fine_after_seven_halvings, StepSize, MAX_SHIFT};
use vstd::arithmetic::power2::pow2;
use vstd::prelude::*;

verus! {

/// Step budget given to the march after each refinement, whatever the first budget was.
pub const REFINE_BUDGET: usize = 32;

/// Most refinements a march can make when its first step is at most one unit.
pub const MAX_REFINEMENTS: u32 = 7;

/// What the marcher does after probing the height field at its current point.
#[derive(Clone, Copy, Debug, PartialEq, Eq, Structural)]
pub enum MarchStep {
    /// The point is above the surface: move it one step further along the ray.
    Advance,
    /// The point went below the surface with a coarse step: move it back one step
    /// (at the old length) and go on with the step halved.
    Refine,
    /// The point went below the surface with a fine step: report it as the hit.
    Hit,
}

/// The decisions of one march along a ray; the caller moves the point and
/// probes the height field, this value says what to do next.
///
/// The march is over when `remaining` is zero (no hit) or when `decide`
/// has answered `Hit`.
#[derive(Clone, Copy, Debug, PartialEq, Eq, Structural)]
pub struct MarchControl {
    /// Probes left before the ray is given up.
    pub remaining: usize,
    /// Current step length.
    pub step: StepSize,
    /// How many times the step has been halved.
    pub refinements: u32,
}

impl MarchControl {
    /// The first step was at most one unit, and it has been halved `refinements`
    /// times, which is at most seven times.
    pub open spec fn wf(self) -> bool {
        &&& self.step.wf()
        &&& self.refinements <= MAX_REFINEMENTS
        &&& self.refinements <= self.step.shift <= MAX_SHIFT + self.refinements
        &&& self.step.mantissa <= pow2((self.step.shift - self.refinements) as nat)
    }

    /// Upper bound on the probes this march can still make.
    pub open spec fn probes_left(self) -> nat {
        (self.remaining + (REFINE_BUDGET + 1) * (MAX_REFINEMENTS - self.refinements)) as nat
    }

    /// What `decide` answers after a probe.
    pub open spec fn outcome(self, below: bool) -> MarchStep {
        if !below {
            MarchStep::Advance
        } else if self.step.is_fine() {
            MarchStep::Hit
        } else {
            MarchStep::Refine
        }
    }

    /// The control after `decide` answered a probe.
    pub open spec fn next(self, below: bool) -> MarchControl {
        match self.outcome(below) {
            MarchStep::Advance => MarchControl { remaining: (self.remaining - 1) as usize, ..self },
            MarchStep::Hit => self,
            MarchStep::Refine => MarchControl {
                remaining: REFINE_BUDGET,
                step: self.step.half(),
                refinements: (self.refinements + 1) as u32,
            },
        }
    }

    /// A whole march: the probe results are answered one by one until the
    /// budget is spent, a hit is reported, or the results run out. Gives the
    /// final control and whether the march ended in a hit.
    pub open spec fn run(self, probes: Seq<bool>) -> (MarchControl, bool)
        decreases probes.len(),
    {
        if probes.len() == 0 || self.remaining == 0 {
            (self, false)
        } else if self.outcome(probes[0]) == MarchStep::Hit {
            (self, true)
        } else {
            self.next(probes[0]).run(probes.drop_first())
        }
    }

    /// A march with the given step budget and first step length.
    pub fn new(steps: usize, step: StepSize) -> (r: MarchControl)
        requires
            step.wf(),
            step.at_most_one(),
            step.shift <= MAX_SHIFT,
        ensures
            r == (MarchControl { remaining: steps, step, refinements: 0 }),
            r.wf(),
    {
        MarchControl { remaining: steps, step, refinements: 0 }
    }

    /// The march is over without a hit: its budget is spent.
    pub fn exhausted(&self) -> (r: bool)
        ensures
            r == (self.remaining == 0),
    {
        self.remaining == 0
    }

    /// What to do after a probe, given whether the probed point lies below the
    /// surface. A coarse crossing halves the step and resets the budget to
    /// `REFINE_BUDGET`; a fine one is the hit; no crossing spends one step.
    pub fn decide(&mut self, below: bool) -> (r: MarchStep)
        requires
            old(self).wf(),
            old(self).remaining > 0,
        ensures
            final(self).wf(),
            r == old(self).outcome(below),
            *final(self) == old(self).next(below),
            below && !old(self).step.is_fine() ==> r == MarchStep::Refine && *final(self) == (
            MarchControl {
                remaining: REFINE_BUDGET,
                step: old(self).step.half(),
                refinements: (old(self).refinements + 1) as u32,
            }),
            below && old(self).step.is_fine() ==> r == MarchStep::Hit && *final(self) == *old(
                self,
            ),
            !below ==> r == MarchStep::Advance && *final(self) == (MarchControl {
                remaining: (old(self).remaining - 1) as usize,
                ..*old(self)
            }),
            r != MarchStep::Hit ==> final(self).probes_left() < old(self).probes_left(),
    {
        if !below {
            self.remaining = self.remaining - 1;
            return MarchStep::Advance;
        }
        if self.step.fine() {
            return MarchStep::Hit;
        }
        proof {
            lemma_refinements_bounded(*self);
        }
        self.step = self.step.halved();
        self.refinements = self.refinements + 1;
        self.remaining = REFINE_BUDGET;
        MarchStep::Refine
    }
}

/// Refinement always ends: once a march whose first step was at most one unit
/// has halved its step seven times, the step is under the cutoff, so the next
/// crossing is a hit and not another refinement.
pub proof fn lemma_refinements_bounded(c: MarchControl)
    requires
        c.wf(),
    ensures
        c.refinements == MAX_REFINEMENTS ==> c.step.is_fine(),
        !c.step.is_fine() ==> c.refinements < MAX_REFINEMENTS,
{
    if c.refinements == MAX_REFINEMENTS {
        lemma_fine_after_seven_halvings(c.step);
    }
}

/// Answering a probe keeps a march well formed, and unless the answer is the
/// hit, it lowers the bound on the probes the march can still make.
pub proof fn lemma_next_wf(c: MarchControl, below: bool)
    requires
        c.wf(),
        c.remaining > 0,
    ensures
        c.next(below).wf(),
        c.outcome(below) != MarchStep::Hit ==> c.next(below).probes_left() < c.probes_left(),
{
    lemma_refinements_bounded(c);
}

/// Every march ends: given at least as many probe results as its bound on
/// probes left, it either reports a hit or spends its whole budget.
pub proof fn lemma_march_ends(c: MarchControl, probes: Seq<bool>)
    requires
        c.wf(),
        probes.len() >= c.probes_left(),
    ensures
        c.run(probes).1 || c.run(probes).0.remaining == 0,
    decreases probes.len(),
{
    if probes.len() > 0 && c.remaining > 0 && c.outcome(probes[0]) != MarchStep::Hit {
        lemma_next_wf(c, probes[0]);
        lemma_march_ends(c.next(probes[0]), probes.drop_first());
    }
}

/// A march whose probes never find the point below the surface reports no
/// hit: after its budget of probes it ends with the budget spent and the
/// step untouched.
pub proof fn lemma_no_crossing_no_hit(c: MarchControl, probes: Seq<bool>)
    requires
        c.wf(),
        probes.len() >= c.remaining,
        forall|i: int| 0 <= i < probes.len() ==> !probes[i],
    ensures
        c.run(probes) == (MarchControl { remaining: 0, ..c }, false),
    decreases probes.len(),
{
    if probes.len() > 0 && c.remaining > 0 {
        lemma_next_wf(c, probes[0]);
        let rest = probes.drop_first();
        assert forall|i: int| 0 <= i < rest.len() implies !rest[i] by {
            assert(rest[i] == probes[i + 1]);
        }
        lemma_no_crossing_no_hit(c.next(probes[0]), rest);
    }
}

/// A march reports a hit only while its step is under the cutoff: the
/// crossing it reports has been narrowed to a step shorter than that.
pub proof fn lemma_hit_has_fine_step(c: MarchControl, probes: Seq<bool>)
    requires
        c.wf(),
    ensures
        c.run(probes).1 ==> c.run(probes).0.step.is_fine(),
    decreases probes.len(),
{
    if probes.len() > 0 && c.remaining > 0 && c.outcome(probes[0]) != MarchStep::Hit {
        lemma_next_wf(c, probes[0]);
        lemma_hit_has_fine_step(c.next(probes[0]), probes.drop_first());
    }
}

} // verus!
