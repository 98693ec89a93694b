//! The competition clock: the idempotent per-tick decision that fires the
//! assignment engine once after the submission window closes and the
//! scoring engine once after the voting window closes.
//!
//! Each rule is evaluated on every tick, so one phase never blocks the
//! other. The one-shot flags (`assigned`, `created_scores`) make a tick
//! idempotent; here they are written back to the configuration when a
//! phase fires, so a later tick sees the phase as done.

use vstd::prelude::*;

use crate::types::Config;

verus! {

/// The assignment engine is due: the submission window has an end, it has
/// passed, and assignment has not run this cycle.
pub open spec fn should_assign(c: Config, now: i64) -> bool {
    &&& c.submission_end is Some
    &&& now > c.submission_end.unwrap()
    &&& !c.assigned
}

/// The scoring engine is due: the voting window has an end, it has passed,
/// and scoring has not run this cycle.
pub open spec fn should_score(c: Config, now: i64) -> bool {
    &&& c.voting_end is Some
    &&& now > c.voting_end.unwrap()
    &&& !c.created_scores
}

/// The pure per-tick decision: whether to run the assignment engine and
/// whether to run the scoring engine at instant `now`.
pub fn tick_decision(c: &Config, now: i64) -> (r: (bool, bool))
    ensures
        r.0 == should_assign(*c, now),
        r.1 == should_score(*c, now),
{
    let run_assignment = match c.submission_end {
        Some(e) => now > e && !c.assigned,
        None => false,
    };
    let run_scoring = match c.voting_end {
        Some(e) => now > e && !c.created_scores,
        None => false,
    };
    (run_assignment, run_scoring)
}

} // verus!
