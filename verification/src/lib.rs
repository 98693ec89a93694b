//! Peer-review design contest core: windowed submission and voting policy,
//! deterministic peer-assignment rotation, and median-based score aggregation
//! with Bayesian smoothing.

use vstd::prelude::*;

pub mod assign;
mod external;
pub mod gate;
pub mod orchestrator;
pub mod scoring;
pub mod store;
pub mod timing;
pub mod types;
pub mod users;

verus! {

/// Number of peer submissions each user receives, when enough exist.
pub const MAX_ASSIGNMENTS_PER_USER: usize = 6;

/// The review cap: each user gets `min(6, n - 1)` targets out of `n` submissions.
pub open spec fn review_quota(n_submissions: int) -> int {
    if n_submissions <= 0 {
        0
    } else if n_submissions - 1 < MAX_ASSIGNMENTS_PER_USER as int {
        n_submissions - 1
    } else {
        MAX_ASSIGNMENTS_PER_USER as int
    }
}

/// Executable form of [`review_quota`].
pub fn compute_review_quota(n_submissions: usize) -> (k: usize)
    ensures
        k == review_quota(n_submissions as int),
{
    if n_submissions == 0 {
        0
    } else if n_submissions - 1 < MAX_ASSIGNMENTS_PER_USER {
        n_submissions - 1
    } else {
        MAX_ASSIGNMENTS_PER_USER
    }
}

} // verus!
