//! The race between a polled condition and a deadline timer.
//!
//! A race is observed as a sequence of scheduler turns. On each turn the
//! condition is evaluated and the timer is checked. The first turn on which
//! either of them is done decides the race; when both are done on the same
//! turn the condition wins, so a condition that becomes true exactly at the
//! deadline is not reported as a failure.
use vstd::prelude::*;

use crate::condition::{PollStep, PollingCondition};

verus! {

/// How a race ended.
#[derive(Clone, Copy, Debug, PartialEq, Eq, Structural)]
pub enum Outcome {
    /// The condition was observed true before the deadline.
    Completed,
    /// The deadline passed while the condition was still false.
    Elapsed,
}

/// The error of a wait whose deadline passed before its condition held.
#[derive(Clone, Copy, Debug, PartialEq, Eq, Structural)]
pub struct DeadlineElapsed;

/// What was observed on one scheduler turn.
#[derive(Clone, Copy, Debug, PartialEq, Eq, Structural)]
pub struct Turn {
    /// The condition was evaluated on this turn and returned true.
    pub condition_ready: bool,
    /// The deadline timer had fired by this turn.
    pub timer_fired: bool,
}

/// The outcome that a single turn decides on its own, if any.
pub open spec fn turn_outcome(t: Turn) -> Option<Outcome> {
    if t.condition_ready {
        Some(Outcome::Completed)
    } else if t.timer_fired {
        Some(Outcome::Elapsed)
    } else {
        None
    }
}

/// The outcome of a race after the given turns: that of the first turn that
/// decides one, or `None` while no turn has.
pub open spec fn verdict(turns: Seq<Turn>) -> Option<Outcome>
    decreases turns.len(),
{
    if turns.len() == 0 {
        None
    } else {
        match verdict(turns.drop_last()) {
            Some(o) => Some(o),
            None => turn_outcome(turns.last()),
        }
    }
}

/// A race in progress, or decided.
///
/// Its view is the sequence of turns fed to it up to and including the one
/// that decided it; turns fed after that are ignored.
pub struct Race {
    decided: Option<Outcome>,
    turns: Ghost<Seq<Turn>>,
}

impl View for Race {
    type V = Seq<Turn>;

    closed spec fn view(&self) -> Seq<Turn> {
        self.turns@
    }
}

impl Race {
    /// The race's state agrees with the turns it has been fed.
    pub closed spec fn wf(&self) -> bool {
        self.decided == verdict(self.turns@)
    }

    /// A race that has seen no turn yet.
    pub fn new() -> (r: Race)
        ensures
            r.wf(),
            r@ == Seq::<Turn>::empty(),
    {
        Race { decided: None, turns: Ghost(Seq::empty()) }
    }

    /// The outcome decided so far, if any.
    pub fn outcome(&self) -> (r: Option<Outcome>)
        requires
            self.wf(),
        ensures
            r == verdict(self@),
    {
        self.decided
    }

    /// Feeds the observations of one turn and returns the outcome decided so
    /// far. Once decided, the race keeps its outcome and ignores later turns.
    pub fn step(&mut self, turn: Turn) -> (r: Option<Outcome>)
        requires
            old(self).wf(),
        ensures
            final(self).wf(),
            verdict(old(self)@) is Some ==> final(self)@ == old(self)@,
            verdict(old(self)@) is None ==> final(self)@ == old(self)@.push(turn),
            r == verdict(final(self)@),
            verdict(old(self)@) is None ==> r == turn_outcome(turn),
    {
        if self.decided.is_none() {
            let ghost prev = self.turns@;
            self.turns = Ghost(prev.push(turn));
            assert(self.turns@.drop_last() == prev);
            self.decided = if turn.condition_ready {
                Some(Outcome::Completed)
            } else if turn.timer_fired {
                Some(Outcome::Elapsed)
            } else {
                None
            };
        }
        self.decided
    }

    /// Plays one turn: while the race is undecided, evaluates the condition
    /// exactly once and feeds what it returned together with `timer_fired`.
    /// A decided race does not evaluate the condition again.
    pub fn advance<F: Fn() -> bool>(
        &mut self,
        condition: &PollingCondition<F>,
        timer_fired: bool,
    ) -> (r: Option<Outcome>)
        requires
            old(self).wf(),
            condition.condition.requires(()),
        ensures
            final(self).wf(),
            r == verdict(final(self)@),
            verdict(old(self)@) is Some ==> final(self)@ == old(self)@,
            verdict(old(self)@) is None ==> exists|ready: bool|
                {
                    &&& condition.condition.ensures((), ready)
                    &&& final(self)@ == old(self)@.push((Turn { condition_ready: ready, timer_fired }))
                    &&& r == turn_outcome((Turn { condition_ready: ready, timer_fired }))
                },
    {
        if self.decided.is_some() {
            return self.decided;
        }
        let condition_ready = condition.poll() == PollStep::Ready;
        let turn = Turn { condition_ready, timer_fired };
        self.step(turn)
    }
}

impl Outcome {
    /// The result that a caller of a deadline-bounded wait receives.
    pub fn into_result(self) -> (r: Result<(), DeadlineElapsed>)
        ensures
            self == Outcome::Completed <==> r is Ok,
            self == Outcome::Elapsed <==> r is Err,
    {
        match self {
            Outcome::Completed => Ok(()),
            Outcome::Elapsed => Err(DeadlineElapsed),
        }
    }
}

/// Once a prefix of the turns has decided the race, later turns change nothing.
pub proof fn lemma_verdict_kept(turns: Seq<Turn>, n: int)
    requires
        0 <= n <= turns.len(),
        verdict(turns.take(n)) is Some,
    ensures
        verdict(turns) == verdict(turns.take(n)),
    decreases turns.len() - n,
{
    if n < turns.len() {
        assert(turns.take(n + 1).drop_last() == turns.take(n));
        lemma_verdict_kept(turns, n + 1);
    } else {
        assert(turns.take(n) == turns);
    }
}

/// While no turn decides anything, the race stays undecided.
proof fn lemma_undecided(turns: Seq<Turn>)
    requires
        forall|i: int| 0 <= i < turns.len() ==> turn_outcome(#[trigger] turns[i]) is None,
    ensures
        verdict(turns) is None,
    decreases turns.len(),
{
    if turns.len() > 0 {
        lemma_undecided(turns.drop_last());
    }
}

/// The verdict of a prefix that ends with its first deciding turn.
proof fn lemma_first_decision(turns: Seq<Turn>, k: int)
    requires
        0 <= k < turns.len(),
        forall|i: int| 0 <= i < k ==> turn_outcome(#[trigger] turns[i]) is None,
        turn_outcome(turns[k]) is Some,
    ensures
        verdict(turns.take(k)) is None,
        verdict(turns.take(k + 1)) == turn_outcome(turns[k]),
        verdict(turns) == turn_outcome(turns[k]),
{
    let pre = turns.take(k);
    assert forall|i: int| 0 <= i < pre.len() implies turn_outcome(#[trigger] pre[i]) is None by {
        assert(pre[i] == turns[i]);
    }
    lemma_undecided(pre);
    assert(turns.take(k + 1).drop_last() == pre);
    lemma_verdict_kept(turns, k + 1);
}

/// A condition that already holds on the first turn completes the race on
/// that turn, whether or not the timer has fired (a zero wait limit included).
pub proof fn lemma_ready_at_once(turns: Seq<Turn>)
    requires
        turns.len() > 0,
        turns[0].condition_ready,
    ensures
        verdict(turns.take(1)) == Some(Outcome::Completed),
        verdict(turns) == Some(Outcome::Completed),
{
    lemma_first_decision(turns, 0);
}

/// A condition that holds on turn `t`, while the timer has not fired on any
/// turn up to `t`, completes the race no later than turn `t`: the race does
/// not wait out the rest of the budget.
pub proof fn lemma_completes_before_deadline(turns: Seq<Turn>, t: int)
    requires
        0 <= t < turns.len(),
        turns[t].condition_ready,
        forall|i: int| 0 <= i <= t ==> !(#[trigger] turns[i]).timer_fired,
    ensures
        verdict(turns.take(t + 1)) == Some(Outcome::Completed),
        verdict(turns) == Some(Outcome::Completed),
    decreases t,
{
    if exists|i: int| 0 <= i < t && (#[trigger] turns[i]).condition_ready {
        let i = choose|i: int| 0 <= i < t && (#[trigger] turns[i]).condition_ready;
        lemma_completes_before_deadline(turns, i);
        lemma_verdict_kept(turns.take(t + 1), i + 1);
        assert(turns.take(t + 1).take(i + 1) == turns.take(i + 1));
    } else {
        lemma_first_decision(turns, t);
    }
}

/// A condition that stays false while the timer first fires on turn `k`
/// makes the race elapse on turn `k`, and not on any earlier turn.
pub proof fn lemma_elapses_at_deadline(turns: Seq<Turn>, k: int)
    requires
        0 <= k < turns.len(),
        forall|i: int| 0 <= i <= k ==> !(#[trigger] turns[i]).condition_ready,
        forall|i: int| 0 <= i < k ==> !(#[trigger] turns[i]).timer_fired,
        turns[k].timer_fired,
    ensures
        forall|j: int| 0 <= j <= k ==> verdict(#[trigger] turns.take(j)) is None,
        verdict(turns.take(k + 1)) == Some(Outcome::Elapsed),
        verdict(turns) == Some(Outcome::Elapsed),
{
    lemma_first_decision(turns, k);
    assert forall|j: int| 0 <= j <= k implies verdict(#[trigger] turns.take(j)) is None by {
        let pre = turns.take(j);
        assert forall|i: int| 0 <= i < pre.len() implies turn_outcome(#[trigger] pre[i]) is None by {
            assert(pre[i] == turns[i]);
        }
        lemma_undecided(pre);
    }
}

/// A run in which the condition holds on every turn.
pub open spec fn always_ready(run: Seq<Turn>) -> bool {
    run.len() > 0 && forall|i: int| 0 <= i < run.len() ==> (#[trigger] run[i]).condition_ready
}

/// A run in which the condition never holds and the timer fires at some turn.
pub open spec fn never_ready(run: Seq<Turn>) -> bool {
    &&& forall|i: int| 0 <= i < run.len() ==> !(#[trigger] run[i]).condition_ready
    &&& exists|i: int| 0 <= i < run.len() && (#[trigger] run[i]).timer_fired
}

/// Running the race again gives the same outcome: every run of a condition
/// that always holds completes, and every run of a condition that never holds
/// elapses once its timer fires.
pub proof fn lemma_repeated_runs(runs: Seq<Seq<Turn>>)
    ensures
        forall|r: int|
            0 <= r < runs.len() && always_ready(#[trigger] runs[r]) ==> verdict(runs[r]) == Some(
                Outcome::Completed,
            ),
        forall|r: int|
            0 <= r < runs.len() && never_ready(#[trigger] runs[r]) ==> verdict(runs[r]) == Some(
                Outcome::Elapsed,
            ),
{
    assert forall|r: int| 0 <= r < runs.len() && always_ready(#[trigger] runs[r]) implies verdict(
        runs[r],
    ) == Some(Outcome::Completed) by {
        lemma_ready_at_once(runs[r]);
    }
    assert forall|r: int| 0 <= r < runs.len() && never_ready(#[trigger] runs[r]) implies verdict(
        runs[r],
    ) == Some(Outcome::Elapsed) by {
        let k = first_firing(runs[r]);
        lemma_elapses_at_deadline(runs[r], k);
    }
}

/// The first turn on which the timer has fired, in a run where it fires.
proof fn first_firing(run: Seq<Turn>) -> (k: int)
    requires
        exists|i: int| 0 <= i < run.len() && (#[trigger] run[i]).timer_fired,
    ensures
        0 <= k < run.len(),
        run[k].timer_fired,
        forall|i: int| 0 <= i < k ==> !(#[trigger] run[i]).timer_fired,
    decreases run.len(),
{
    if run[0].timer_fired {
        0
    } else {
        let rest = run.drop_first();
        let witness = choose|i: int| 0 <= i < run.len() && (#[trigger] run[i]).timer_fired;
        assert(rest[witness - 1] == run[witness]);
        let k = first_firing(rest);
        assert forall|i: int| 0 <= i < k + 1 implies !(#[trigger] run[i]).timer_fired by {
            if i > 0 {
                assert(run[i] == rest[i - 1]);
            }
        }
        k + 1
    }
}

} // verus!
