//! Deadline-bounded polling of a boolean condition.
//!
//! The verified core is split in three parts:
//! - [`condition`]: one evaluation of the predicate per scheduler turn;
//! - [`race`]: the race between the condition and a deadline timer, as a
//!   state machine over observed turns, with the laws it obeys;
//! - [`message`]: the diagnostic text shown when a deadline elapses.
pub mod condition;
pub mod message;
pub mod race;

pub use condition::{PollStep, PollingCondition};
pub use message::{describe_condition, elapsed_message};
pub use race::{DeadlineElapsed, Outcome, Race, Turn};
