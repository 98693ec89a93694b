//! Domain records: the competition configuration, submissions, votes,
//! review assignments and computed scores, together with the request
//! parameter bundles and the error kinds that the request-time policy
//! reports.

use vstd::prelude::*;

verus! {

/// The singleton competition configuration: four optional window bounds,
/// the leaderboard visibility flag and the two one-shot phase flags.
///
/// Timestamps are integer instants (milliseconds since the Unix epoch as
/// produced by the clock wrapper); the library only compares and adds them.
#[derive(Clone, Copy, Debug, PartialEq, Eq, Structural)]
pub struct Config {
    pub submission_start: Option<i64>,
    pub submission_end: Option<i64>,
    pub voting_start: Option<i64>,
    pub voting_end: Option<i64>,
    pub show_leaderboard: bool,
    pub assigned: bool,
    pub created_scores: bool,
}

impl Config {
    /// A fresh configuration: no windows, leaderboard hidden, no phase done.
    pub fn new() -> (c: Config)
        ensures
            c.submission_start.is_none(),
            c.submission_end.is_none(),
            c.voting_start.is_none(),
            c.voting_end.is_none(),
            !c.show_leaderboard,
            !c.assigned,
            !c.created_scores,
    {
        Config {
            submission_start: None,
            submission_end: None,
            voting_start: None,
            voting_end: None,
            show_leaderboard: false,
            assigned: false,
            created_scores: false,
        }
    }
}

/// A design entry. Exactly one per user (enforced by the store).
#[derive(Clone, Debug)]
pub struct Submission {
    pub id: i64,
    pub user_id: i64,
    pub content: SubmissionParams,
}

/// The free-text rationale fields and confirmation flags of a submission,
/// as supplied by its owner.
#[derive(Clone, Debug)]
pub struct SubmissionParams {
    pub figma_link: String,
    pub design_image: String,
    pub target_user_and_goal: String,
    pub layout_explanation: String,
    pub style_interpretation: String,
    pub key_trade_off: String,
    pub originality_confirmed: bool,
    pub template_compliance_confirmed: bool,
    pub future_improvements: Option<String>,
}

/// A user-to-submission pairing produced by the assignment engine.
#[derive(Clone, Copy, Debug, PartialEq, Eq, Structural)]
pub struct VoteAssignment {
    pub user_id: i64,
    pub submission_id: i64,
}

/// One user's rating of one submission: five criterion scores, each in `[0, 5]`.
#[derive(Clone, Copy, Debug, PartialEq, Eq, Structural)]
pub struct Vote {
    pub id: i64,
    pub user_id: i64,
    pub submission_id: i64,
    pub problem_fit_score: i64,
    pub clarity_score: i64,
    pub style_interpretation_score: i64,
    pub originality_score: i64,
    pub overall_quality_score: i64,
}

/// The body of a vote request: the target submission and the five scores.
#[derive(Clone, Copy, Debug, PartialEq, Eq, Structural)]
pub struct VoteParams {
    pub submission_id: i64,
    pub problem_fit_score: i64,
    pub clarity_score: i64,
    pub style_interpretation_score: i64,
    pub originality_score: i64,
    pub overall_quality_score: i64,
}

/// A computed leaderboard row: per-criterion smoothed scores on the 0-1000
/// scale and the weighted composite on the 0-10000 scale.
#[derive(Clone, Copy, Debug, PartialEq, Eq, Structural)]
pub struct Score {
    pub submission_id: i64,
    pub problem_fit_score: i64,
    pub visual_clarity_score: i64,
    pub style_interpretation_score: i64,
    pub originality_score: i64,
    pub overall_quality_score: i64,
    pub final_score: i64,
}

/// The five vote criteria.
#[derive(Clone, Copy, Debug, PartialEq, Eq, Structural)]
pub enum Criterion {
    ProblemFit,
    Clarity,
    StyleInterpretation,
    Originality,
    OverallQuality,
}

impl Vote {
    /// The score this vote gives for one criterion.
    pub open spec fn spec_score(self, c: Criterion) -> i64 {
        match c {
            Criterion::ProblemFit => self.problem_fit_score,
            Criterion::Clarity => self.clarity_score,
            Criterion::StyleInterpretation => self.style_interpretation_score,
            Criterion::Originality => self.originality_score,
            Criterion::OverallQuality => self.overall_quality_score,
        }
    }

    /// Executable form of [`Vote::spec_score`].
    pub fn score(&self, c: Criterion) -> (r: i64)
        ensures
            r == self.spec_score(c),
    {
        match c {
            Criterion::ProblemFit => self.problem_fit_score,
            Criterion::Clarity => self.clarity_score,
            Criterion::StyleInterpretation => self.style_interpretation_score,
            Criterion::Originality => self.originality_score,
            Criterion::OverallQuality => self.overall_quality_score,
        }
    }

    /// All five criterion scores lie in `[0, 5]`.
    pub open spec fn valid(self) -> bool {
        forall|c: Criterion| 0 <= #[trigger] self.spec_score(c) <= 5
    }
}

impl VoteParams {
    /// The requested score for one criterion.
    pub open spec fn spec_score(self, c: Criterion) -> i64 {
        match c {
            Criterion::ProblemFit => self.problem_fit_score,
            Criterion::Clarity => self.clarity_score,
            Criterion::StyleInterpretation => self.style_interpretation_score,
            Criterion::Originality => self.originality_score,
            Criterion::OverallQuality => self.overall_quality_score,
        }
    }

    /// The vote these parameters describe, for a given voter and vote id.
    pub open spec fn spec_to_vote(self, id: i64, user_id: i64) -> Vote {
        Vote {
            id,
            user_id,
            submission_id: self.submission_id,
            problem_fit_score: self.problem_fit_score,
            clarity_score: self.clarity_score,
            style_interpretation_score: self.style_interpretation_score,
            originality_score: self.originality_score,
            overall_quality_score: self.overall_quality_score,
        }
    }

    /// Executable form of [`VoteParams::spec_to_vote`].
    pub fn to_vote(&self, id: i64, user_id: i64) -> (v: Vote)
        ensures
            v == self.spec_to_vote(id, user_id),
    {
        Vote {
            id,
            user_id,
            submission_id: self.submission_id,
            problem_fit_score: self.problem_fit_score,
            clarity_score: self.clarity_score,
            style_interpretation_score: self.style_interpretation_score,
            originality_score: self.originality_score,
            overall_quality_score: self.overall_quality_score,
        }
    }
}

/// Why a request was refused, mirroring the HTTP statuses of the service:
/// a missing record, an ownership or role failure, and the bad-request
/// conditions of the submission and voting gates.
#[derive(Clone, Copy, Debug, PartialEq, Eq, Structural)]
pub enum GateError {
    /// The addressed record (configuration, submission or vote) does not exist.
    NotFound,
    /// The requester is neither the owner nor allowed by role.
    Unauthorized,
    /// The requester already has a submission, or already voted on this submission.
    Duplicate,
    /// The relevant window is not open (a bound is missing or now is outside).
    WindowClosed,
    /// A criterion score lies outside `[0, 5]`; carries the field and the value.
    ScoreOutOfRange { field: Criterion, value: i64 },
}

} // verus!
