//! Median, smoothing and scoring-run behaviour on concrete vote data.

use bit_by_design::scoring::{
    compute_scores, criterion_scaled_score, median_doubled, sort_values, WEIGHT_CLARITY,
    WEIGHT_DENOMINATOR, WEIGHT_ORIGINALITY, WEIGHT_OVERALL, WEIGHT_PROBLEM_FIT, WEIGHT_STYLE,
};
use bit_by_design::types::{Submission, SubmissionParams, Vote};

fn content(tag: &str) -> SubmissionParams {
    SubmissionParams {
        figma_link: format!("https://figma.com/file/{tag}"),
        design_image: format!("https://example.com/{tag}.png"),
        target_user_and_goal: format!("{tag} target"),
        layout_explanation: format!("{tag} layout"),
        style_interpretation: format!("{tag} style"),
        key_trade_off: format!("{tag} trade-off"),
        originality_confirmed: true,
        template_compliance_confirmed: true,
        future_improvements: None,
    }
}

fn submission(id: i64, user_id: i64) -> Submission {
    Submission { id, user_id, content: content("s") }
}

fn uniform_vote(id: i64, user_id: i64, submission_id: i64, value: i64) -> Vote {
    Vote {
        id,
        user_id,
        submission_id,
        problem_fit_score: value,
        clarity_score: value,
        style_interpretation_score: value,
        originality_score: value,
        overall_quality_score: value,
    }
}

/// The median of `[4, 5]` is 4.5, of `[3]` is 3, and of `[]` absent.
#[test]
fn median_values() {
    assert_eq!(median_doubled(&vec![4, 5]), Some(9));
    assert_eq!(median_doubled(&vec![4, 5]).unwrap() as f64 / 2.0, 4.5);
    assert_eq!(median_doubled(&vec![3]), Some(6));
    assert_eq!(median_doubled(&vec![3]).unwrap() as f64 / 2.0, 3.0);
    assert_eq!(median_doubled(&vec![]), None);
}

#[test]
fn median_sorts_before_picking() {
    // unsorted input; even count averages the two middle values
    assert_eq!(median_doubled(&vec![5, 1, 4, 2]), Some(6)); // median 3
    // odd count takes the middle value
    assert_eq!(median_doubled(&vec![5, 0, 3]), Some(6)); // median 3
    assert_eq!(sort_values(&vec![3, 1, 2]), vec![1, 2, 3]);
}

/// The five composite weights sum to exactly one.
#[test]
fn weights_sum_to_one() {
    assert_eq!(
        WEIGHT_PROBLEM_FIT + WEIGHT_CLARITY + WEIGHT_STYLE + WEIGHT_ORIGINALITY + WEIGHT_OVERALL,
        WEIGHT_DENOMINATOR
    );
    let sum = (WEIGHT_PROBLEM_FIT + WEIGHT_CLARITY + WEIGHT_STYLE + WEIGHT_ORIGINALITY
        + WEIGHT_OVERALL) as f64
        / WEIGHT_DENOMINATOR as f64;
    assert_eq!(sum, 1.0);
}

/// With two votes of all-4s and all-5s, each criterion's local median is
/// 4.5, the smoothed value stays 4.5 (the global mean is also 4.5), the
/// stored per-criterion score is 4.5 * 200 = 900 and the composite is
/// 4.5 * 2000 = 9000.
#[test]
fn two_vote_score_scale() {
    let subs = vec![submission(1, 10)];
    let votes = vec![uniform_vote(1, 20, 1, 4), uniform_vote(2, 30, 1, 5)];
    let scores = compute_scores(&subs, &votes);
    assert_eq!(scores.len(), 1);
    let s = &scores[0];
    assert_eq!(s.submission_id, 1);
    assert_eq!(s.problem_fit_score, 900);
    assert_eq!(s.visual_clarity_score, 900);
    assert_eq!(s.style_interpretation_score, 900);
    assert_eq!(s.originality_score, 900);
    assert_eq!(s.overall_quality_score, 900);
    assert_eq!(s.final_score, 9000);
}

/// Smoothing pulls lightly-voted submissions toward the global mean:
/// with one all-5s vote on one entry and one all-1s vote on another, the
/// global mean is 3 and each single-vote entry lands a third of the way
/// from its own median toward it (exact integer values derived from the
/// formula with v = 1, two phantom votes).
#[test]
fn smoothing_blends_with_global_mean() {
    let subs = vec![submission(1, 10), submission(2, 11)];
    let votes = vec![uniform_vote(1, 20, 1, 5), uniform_vote(2, 21, 2, 1)];
    let scores = compute_scores(&subs, &votes);
    assert_eq!(scores.len(), 2);
    // entry 1: smoothed = (1/3)*5 + (2/3)*3 = 11/3; *200 = 733.33 -> 733
    assert_eq!(scores[0].submission_id, 1);
    assert_eq!(scores[0].problem_fit_score, 733);
    assert_eq!(scores[0].final_score, 7333);
    // entry 2: smoothed = (1/3)*1 + (2/3)*3 = 7/3; *200 = 466.66 -> 466
    assert_eq!(scores[1].submission_id, 2);
    assert_eq!(scores[1].problem_fit_score, 466);
    assert_eq!(scores[1].final_score, 4666);
}

/// A submission with no votes gets no score row at all.
#[test]
fn unvoted_submissions_are_skipped() {
    let subs = vec![submission(1, 10), submission(2, 11)];
    let votes = vec![uniform_vote(1, 20, 2, 4)];
    let scores = compute_scores(&subs, &votes);
    assert_eq!(scores.len(), 1);
    assert_eq!(scores[0].submission_id, 2);
}

/// No votes at all: the run produces an empty table.
#[test]
fn empty_votes_empty_scores() {
    let subs = vec![submission(1, 10)];
    let votes: Vec<Vote> = vec![];
    assert!(compute_scores(&subs, &votes).is_empty());
}

/// As a submission's vote count grows with its median fixed, the score
/// approaches 200 times the median: the global mean's pull vanishes.
#[test]
fn smoothing_converges_to_local_median() {
    // doubled median 8 (median 4), global mean fixed at 2 per criterion
    let med2: i64 = 8;
    let mut last_gap: i64 = i64::MAX;
    for v in [1usize, 2, 5, 10, 100, 1000] {
        let gcount = 10_000usize;
        let gsum: i64 = 2 * gcount as i64;
        let scaled = criterion_scaled_score(med2, gsum, gcount, v);
        let gap = (100 * med2 - scaled).abs();
        assert!(gap <= 2000 / (v as i64 + 2) + 1);
        assert!(gap <= last_gap);
        last_gap = gap;
    }
    // at v = 1000 the score is within a unit of 200 * median
    assert!(last_gap <= 2);
}
