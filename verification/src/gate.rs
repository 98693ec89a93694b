//! The request-time policy: time-window checks for submitting and voting,
//! and validation of the five criterion scores of a vote request.

use vstd::prelude::*;

use crate::types::{Config, Criterion, GateError, VoteParams};

verus! {

/// A window is open at `now` only when both bounds are present and
/// `start <= now <= end`; a missing bound closes the window.
pub open spec fn window_open(start: Option<i64>, end: Option<i64>, now: i64) -> bool {
    &&& start is Some
    &&& end is Some
    &&& start.unwrap() <= now
    &&& now <= end.unwrap()
}

/// The submission window of a configuration contains `now`.
pub open spec fn submission_window_open(c: Config, now: i64) -> bool {
    window_open(c.submission_start, c.submission_end, now)
}

/// The voting window of a configuration contains `now`.
pub open spec fn voting_window_open(c: Config, now: i64) -> bool {
    window_open(c.voting_start, c.voting_end, now)
}

/// Executable window check.
pub fn check_window(start: &Option<i64>, end: &Option<i64>, now: i64) -> (r: bool)
    ensures
        r == window_open(*start, *end, now),
{
    match (start, end) {
        (Some(s), Some(e)) => *s <= now && now <= *e,
        _ => false,
    }
}

/// The first out-of-range criterion of a vote request, in the order the
/// fields are listed, if any.
pub open spec fn first_invalid(p: VoteParams) -> Option<Criterion> {
    if !(0 <= p.problem_fit_score <= 5) {
        Some(Criterion::ProblemFit)
    } else if !(0 <= p.clarity_score <= 5) {
        Some(Criterion::Clarity)
    } else if !(0 <= p.style_interpretation_score <= 5) {
        Some(Criterion::StyleInterpretation)
    } else if !(0 <= p.originality_score <= 5) {
        Some(Criterion::Originality)
    } else if !(0 <= p.overall_quality_score <= 5) {
        Some(Criterion::OverallQuality)
    } else {
        None
    }
}

/// Checks that every criterion score of a vote request lies in `[0, 5]`;
/// the error names the first offending field and its value.
pub fn validate_scores(p: &VoteParams) -> (r: Result<(), GateError>)
    ensures
        r is Ok <==> first_invalid(*p) is None,
        r is Ok ==> forall|c: Criterion| 0 <= #[trigger] p.spec_score(c) <= 5,
        r is Err ==> (first_invalid(*p) matches Some(c) && r == Err::<(), GateError>(
            GateError::ScoreOutOfRange { field: c, value: p.spec_score(c) },
        )),
{
    if !(0 <= p.problem_fit_score && p.problem_fit_score <= 5) {
        return Err(
            GateError::ScoreOutOfRange { field: Criterion::ProblemFit, value: p.problem_fit_score },
        );
    }
    if !(0 <= p.clarity_score && p.clarity_score <= 5) {
        return Err(
            GateError::ScoreOutOfRange { field: Criterion::Clarity, value: p.clarity_score },
        );
    }
    if !(0 <= p.style_interpretation_score && p.style_interpretation_score <= 5) {
        return Err(
            GateError::ScoreOutOfRange {
                field: Criterion::StyleInterpretation,
                value: p.style_interpretation_score,
            },
        );
    }
    if !(0 <= p.originality_score && p.originality_score <= 5) {
        return Err(
            GateError::ScoreOutOfRange { field: Criterion::Originality, value: p.originality_score },
        );
    }
    if !(0 <= p.overall_quality_score && p.overall_quality_score <= 5) {
        return Err(
            GateError::ScoreOutOfRange {
                field: Criterion::OverallQuality,
                value: p.overall_quality_score,
            },
        );
    }
    proof {
        assert forall|c: Criterion| 0 <= #[trigger] p.spec_score(c) <= 5 by {
            match c {
                Criterion::ProblemFit => {},
                Criterion::Clarity => {},
                Criterion::StyleInterpretation => {},
                Criterion::Originality => {},
                Criterion::OverallQuality => {},
            }
        }
    }
    Ok(())
}

} // verus!
