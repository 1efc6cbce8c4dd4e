use std::cell::Cell;

use deadline::{DeadlineElapsed, Outcome, PollingCondition, Race, Turn};

fn turn(condition_ready: bool, timer_fired: bool) -> Turn {
    Turn { condition_ready, timer_fired }
}

/// Feeds the turns one by one and returns what each step reported.
fn run(turns: &[Turn]) -> Vec<Option<Outcome>> {
    let mut race = Race::new();
    turns.iter().map(|t| race.step(*t)).collect()
}

#[test]
fn ready_on_first_turn_completes_even_with_zero_wait_limit() {
    // A zero wait limit fires the timer on the very first turn.
    assert_eq!(run(&[turn(true, true)]), vec![Some(Outcome::Completed)]);
    assert_eq!(run(&[turn(true, false)]), vec![Some(Outcome::Completed)]);
}

#[test]
fn condition_and_timer_on_same_turn_prefers_completed() {
    let steps = run(&[turn(false, false), turn(false, false), turn(true, true)]);
    assert_eq!(steps, vec![None, None, Some(Outcome::Completed)]);
}

#[test]
fn completes_as_soon_as_condition_holds() {
    // The condition flips on turn 5 of a budget that would last 1000 turns.
    let mut turns = Vec::new();
    for i in 0..1000 {
        turns.push(turn(i >= 5, i == 999));
    }
    let steps = run(&turns);
    assert!(steps[..5].iter().all(|s| s.is_none()));
    assert_eq!(steps[5], Some(Outcome::Completed));
}

#[test]
fn false_condition_elapses_when_timer_fires_and_not_before() {
    let steps = run(&[turn(false, false), turn(false, false), turn(false, true)]);
    assert_eq!(steps, vec![None, None, Some(Outcome::Elapsed)]);
}

#[test]
fn decided_race_ignores_later_turns() {
    let mut race = Race::new();
    assert_eq!(race.outcome(), None);
    assert_eq!(race.step(turn(false, true)), Some(Outcome::Elapsed));
    assert_eq!(race.step(turn(true, false)), Some(Outcome::Elapsed));
    assert_eq!(race.outcome(), Some(Outcome::Elapsed));
}

#[test]
fn repeated_runs_give_the_same_outcome() {
    for _ in 0..3 {
        assert_eq!(run(&[turn(true, false)])[0], Some(Outcome::Completed));
        assert_eq!(run(&[turn(false, false), turn(false, true)])[1], Some(Outcome::Elapsed));
    }
}

#[test]
fn outcome_into_result() {
    assert_eq!(Outcome::Completed.into_result(), Ok(()));
    assert_eq!(Outcome::Elapsed.into_result(), Err(DeadlineElapsed));
}

#[test]
fn advance_stops_evaluating_once_decided() {
    let calls = Cell::new(0u32);
    let c = PollingCondition::new(|| {
        calls.set(calls.get() + 1);
        false
    });
    let mut race = Race::new();
    assert_eq!(race.advance(&c, false), None);
    assert_eq!(race.advance(&c, true), Some(Outcome::Elapsed));
    assert_eq!(race.advance(&c, true), Some(Outcome::Elapsed));
    assert_eq!(calls.get(), 2);
}

#[test]
fn advance_prefers_condition_on_deadline_turn() {
    let c = PollingCondition::new(|| true);
    let mut race = Race::new();
    assert_eq!(race.advance(&c, true), Some(Outcome::Completed));
}
