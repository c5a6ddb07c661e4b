use vstd::prelude::*;
use crate::percent::Percent;

verus! {

/// What the control loop does after one utilization sample.
#[derive(Clone, Copy, Debug, PartialEq, Eq, Structural)]
pub enum ControlAction {
    /// The target is reached: draw a new target.
    Resample,
    /// Send this load to every worker, then wait and sample again.
    Broadcast(Percent),
}

/// The controller's configuration and state: the step and tolerance it
/// steers with, the load last sent to the workers and the current target.
#[derive(Clone, Copy, Debug, PartialEq, Eq, Structural)]
pub struct Controller {
    pub step: Percent,
    pub epsilon: Percent,
    pub commanded_load: Percent,
    pub target_load: Percent,
}

/// The measured load is within `epsilon` of the target.
pub open spec fn within_tolerance_spec(current: Percent, willing: Percent, epsilon: Percent) -> bool {
    -(epsilon.0 as int) <= current.0 - willing.0 <= epsilon.0 as int
}

/// The next commanded load: one step up, never past the target, while the
/// measured load is below it; otherwise one step down, never below 0.
pub open spec fn next_load_spec(
    commanded: Percent,
    current: Percent,
    willing: Percent,
    step: Percent,
) -> int {
    if current.0 < willing.0 {
        if commanded.0 + step.0 < willing.0 {
            commanded.0 + step.0
        } else {
            willing.0 as int
        }
    } else {
        if commanded.0 < step.0 {
            0
        } else {
            commanded.0 - step.0
        }
    }
}

/// Whether `current` is within `epsilon` of `willing`.
pub fn within_tolerance(current: Percent, willing: Percent, epsilon: Percent) -> (r: bool)
    requires
        current.wf(),
        willing.wf(),
        epsilon.wf(),
    ensures
        r == within_tolerance_spec(current, willing, epsilon),
{
    let low = willing.sub(epsilon);
    let high = willing.add(epsilon);
    low.0 <= current.0 && current.0 <= high.0
}

/// The load to command next, from the last commanded load, the measured load,
/// the target and the step.
pub fn next_commanded_load(commanded: Percent, current: Percent, willing: Percent, step: Percent) -> (r: Percent)
    requires
        commanded.wf(),
        willing.wf(),
    ensures
        r.wf(),
        r.0 == next_load_spec(commanded, current, willing, step),
{
    if current.0 < willing.0 {
        let up = commanded.add(step);
        if up.0 < willing.0 {
            up
        } else {
            willing
        }
    } else {
        commanded.sub(step)
    }
}

impl Controller {
    /// All four percentages lie in [0, 100].
    pub open spec fn wf(&self) -> bool {
        self.step.wf() && self.epsilon.wf() && self.commanded_load.wf() && self.target_load.wf()
    }

    /// A controller that has commanded no load yet and has a zero target.
    pub fn new(step: Percent, epsilon: Percent) -> (r: Controller)
        ensures
            r.step == step,
            r.epsilon == epsilon,
            r.commanded_load == Percent(0),
            r.target_load == Percent(0),
    {
        Controller { step, epsilon, commanded_load: Percent(0), target_load: Percent(0) }
    }

    /// Takes a newly drawn target; the commanded load stays as it was.
    pub fn set_target(&mut self, willing: Percent)
        ensures
            *final(self) == (Controller { target_load: willing, ..*old(self) }),
    {
        self.target_load = willing;
    }

    /// Reacts to one utilization sample: when it is within tolerance of the
    /// target nothing is commanded and a new target is due; otherwise the
    /// commanded load moves one step toward the target and is broadcast.
    pub fn on_sample(&mut self, current: Percent) -> (r: ControlAction)
        requires
            old(self).wf(),
            current.wf(),
        ensures
            final(self).wf(),
            final(self).step == old(self).step,
            final(self).epsilon == old(self).epsilon,
            final(self).target_load == old(self).target_load,
            within_tolerance_spec(current, old(self).target_load, old(self).epsilon) ==> (
                r == ControlAction::Resample && *final(self) == *old(self)),
            !within_tolerance_spec(current, old(self).target_load, old(self).epsilon) ==> (
                r == ControlAction::Broadcast(final(self).commanded_load)
                && final(self).commanded_load.0 == next_load_spec(
                    old(self).commanded_load,
                    current,
                    old(self).target_load,
                    old(self).step,
                )),
    {
        if within_tolerance(current, self.target_load, self.epsilon) {
            return ControlAction::Resample;
        }
        self.commanded_load = next_commanded_load(self.commanded_load, current, self.target_load, self.step);
        ControlAction::Broadcast(self.commanded_load)
    }
}

/// The stepping rule: below the target the commanded load rises by one step
/// but never past the target; above it the load falls by one step but never
/// below zero; within tolerance nothing changes.
pub proof fn lemma_stepping_rule(c: Controller, current: Percent)
    requires
        c.wf(),
        current.wf(),
    ensures
        !within_tolerance_spec(current, c.target_load, c.epsilon) && current.0 < c.target_load.0
            ==> next_load_spec(c.commanded_load, current, c.target_load, c.step) == vstd::math::min(
            c.target_load.0 as int,
            c.commanded_load.0 + c.step.0,
        ),
        !within_tolerance_spec(current, c.target_load, c.epsilon) && current.0 > c.target_load.0
            ==> next_load_spec(c.commanded_load, current, c.target_load, c.step) == vstd::math::max(
            0,
            c.commanded_load.0 - c.step.0,
        ),
        next_load_spec(c.commanded_load, current, c.target_load, c.step) <= vstd::math::max(
            c.target_load.0 as int,
            c.commanded_load.0 as int,
        ),
{
}

} // verus!
