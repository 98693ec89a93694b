//! The crate's trusted boundary: the two places where the library calls an
//! outside crate. Each wrapper's contract states only what holds of every
//! outcome; everything downstream of these calls is verified for every
//! value they may return.

use vstd::prelude::*;

use rand::seq::SliceRandom;

use crate::assign::SubmissionRef;

verus! {

/// Relies on rand's `SliceRandom::shuffle` (thread-local generator): it
/// permutes the slice in place, uniformly at random. A permutation keeps
/// the elements as a multiset and the length; nothing is promised about
/// the resulting order.
#[verifier::external_body]
pub(crate) fn shuffle_submissions(subs: &mut Vec<SubmissionRef>)
    ensures
        final(subs)@.to_multiset() == old(subs)@.to_multiset(),
        final(subs)@.len() == old(subs)@.len(),
{
    subs.as_mut_slice().shuffle(&mut rand::rng());
}

/// Relies on chrono's `Utc::now`: the current instant, in milliseconds
/// since the Unix epoch. The clock's value depends on when it is read, so
/// nothing is promised of it; callers state what holds for every instant.
/// (`Utc::now` itself panics on a host clock set before the epoch — an
/// environment fault no argument could exclude.)
#[verifier::external_body]
pub(crate) fn now_millis() -> i64 {
    chrono::Utc::now().timestamp_millis()
}

} // verus!
