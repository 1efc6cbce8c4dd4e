//! A plain predicate adapted to a cooperative scheduler's poll protocol.
use vstd::prelude::*;

verus! {

/// What one evaluation of the condition reports to the scheduler.
#[derive(Clone, Copy, Debug, PartialEq, Eq, Structural)]
pub enum PollStep {
    /// The predicate held: the computation is finished.
    Ready,
    /// The predicate did not hold: ask to be resumed on the next turn.
    Pending,
}

/// A predicate that is evaluated once each time the scheduler resumes it.
///
/// There is no event that tells when an arbitrary predicate may become true,
/// so a `Pending` step always asks for another turn at once.
pub struct PollingCondition<F: Fn() -> bool> {
    pub condition: F,
}

impl<F: Fn() -> bool> PollingCondition<F> {
    pub fn new(condition: F) -> (r: Self)
        ensures
            r.condition == condition,
    {
        PollingCondition { condition }
    }

    /// Evaluates the predicate exactly once and reports the result.
    pub fn poll(&self) -> (r: PollStep)
        requires
            self.condition.requires(()),
        ensures
            r == PollStep::Ready ==> self.condition.ensures((), true),
            r == PollStep::Pending ==> self.condition.ensures((), false),
    {
        if (self.condition)() {
            PollStep::Ready
        } else {
            PollStep::Pending
        }
    }
}

} // verus!
