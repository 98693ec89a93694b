//! Admin timing updates: a bundle of optional window bounds to write into
//! the configuration, and the auto-generated ladder of four consecutive
//! windows used when timings are produced from a period.

use vstd::prelude::*;

verus! {

/// New values for the four window bounds; a `None` leaves the stored
/// bound as it is when applied by the timing task.
#[derive(Clone, Copy, Debug, PartialEq, Eq, Structural)]
pub struct TimingUpdate {
    pub submission_start: Option<i64>,
    pub submission_end: Option<i64>,
    pub voting_start: Option<i64>,
    pub voting_end: Option<i64>,
}

/// Auto-generated timings: a ladder of four bounds one period `p` apart,
/// starting one period from `now`. The submission window is
/// `[now + p, now + 2p]` and the voting window is `[now + 3p, now + 4p]`.
pub fn sequential_windows(now: i64, period: i64) -> (r: TimingUpdate)
    requires
        0 <= period,
        now + 4 * period <= i64::MAX,
        i64::MIN <= now,
    ensures
        r.submission_start matches Some(b) && b == now + period,
        r.submission_end matches Some(b) && b == now + 2 * period,
        r.voting_start matches Some(b) && b == now + 3 * period,
        r.voting_end matches Some(b) && b == now + 4 * period,
{
    let ss = now + period;
    let se = ss + period;
    let vs = se + period;
    let ve = vs + period;
    TimingUpdate {
        submission_start: Some(ss),
        submission_end: Some(se),
        voting_start: Some(vs),
        voting_end: Some(ve),
    }
}

} // verus!
