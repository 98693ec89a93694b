//! Orchestrator ticks and the end-to-end competition lifecycle.

use std::collections::HashSet;

use bit_by_design::orchestrator::tick_decision;
use bit_by_design::store::Store;
use bit_by_design::timing::TimingUpdate;
use bit_by_design::types::{Config, GateError, SubmissionParams, VoteParams};
use bit_by_design::MAX_ASSIGNMENTS_PER_USER;

const HOUR: i64 = 3_600_000;
const NOW: i64 = 1_700_000_000_000;

fn content(tag: &str) -> SubmissionParams {
    SubmissionParams {
        figma_link: format!("https://figma.com/file/{tag}"),
        design_image: format!("https://example.com/{tag}.png"),
        target_user_and_goal: format!("{tag}'s target users and goal"),
        layout_explanation: format!("{tag}'s layout explanation"),
        style_interpretation: format!("{tag}'s style interpretation"),
        key_trade_off: format!("{tag}'s key trade-off"),
        originality_confirmed: true,
        template_compliance_confirmed: true,
        future_improvements: Some(format!("{tag}'s future improvements")),
    }
}

fn vote(submission_id: i64, base: i64) -> VoteParams {
    VoteParams {
        submission_id,
        problem_fit_score: base,
        clarity_score: (base + 1).min(5),
        style_interpretation_score: base,
        originality_score: (base - 1).max(0),
        overall_quality_score: base,
    }
}

#[test]
fn tick_without_config_is_noop() {
    let mut store = Store::new();
    store.tick_at(NOW);
    assert!(store.config_get().is_err());
    assert!(store.assignments.is_empty());
    assert!(store.scores.is_empty());
}

#[test]
fn tick_before_deadlines_changes_nothing() {
    let mut store = Store::new();
    store.apply_timings(TimingUpdate {
        submission_start: Some(NOW - HOUR),
        submission_end: Some(NOW + HOUR),
        voting_start: Some(NOW + 2 * HOUR),
        voting_end: Some(NOW + 3 * HOUR),
    });
    store.tick_at(NOW);
    let c = store.config_get().unwrap();
    assert!(!c.assigned);
    assert!(!c.created_scores);
    assert!(store.assignments.is_empty());
    assert!(store.scores.is_empty());
}

#[test]
fn tick_after_submission_end_assigns_once() {
    let mut store = Store::new();
    store.apply_timings(TimingUpdate {
        submission_start: Some(NOW - 3 * HOUR),
        submission_end: Some(NOW - 2 * HOUR),
        voting_start: Some(NOW - HOUR),
        voting_end: Some(NOW + HOUR),
    });
    for u in 1..=3i64 {
        store
            .submit_at(NOW - 3 * HOUR + u, u, content(&format!("u{u}")))
            .expect("submission in window");
    }
    store.tick_at(NOW);
    assert!(store.config_get().unwrap().assigned);
    assert!(!store.config_get().unwrap().created_scores);
    assert_eq!(store.assignments.len(), 3 * 2);
    // a second tick is idempotent: the table is not rebuilt
    let before: Vec<_> = store.assignments.clone();
    store.tick_at(NOW + 1);
    assert_eq!(store.assignments, before);
}

#[test]
fn tick_after_voting_end_scores_once() {
    let mut store = Store::new();
    store.apply_timings(TimingUpdate {
        submission_start: Some(NOW - 4 * HOUR),
        submission_end: Some(NOW - 3 * HOUR),
        voting_start: Some(NOW - 2 * HOUR),
        voting_end: Some(NOW - HOUR),
    });
    for u in 1..=2i64 {
        store
            .submit_at(NOW - 4 * HOUR + u, u, content(&format!("u{u}")))
            .expect("submission in window");
    }
    let sid = store.submission_mine(1).unwrap().id;
    store.vote_add_at(NOW - 2 * HOUR + 1, 2, vote(sid, 4)).expect("vote in window");
    store.tick_at(NOW);
    let c = store.config_get().unwrap();
    assert!(c.assigned, "both phases fire in the same tick once both deadlines have passed");
    assert!(c.created_scores);
    assert_eq!(store.scores.len(), 1);
    assert_eq!(store.scores[0].submission_id, sid);
    // a second tick leaves the score table as it is
    let before = store.scores.clone();
    store.tick_at(NOW + 1);
    assert_eq!(store.scores, before);
}

#[test]
fn tick_decision_matches_flags() {
    let c = Config {
        submission_start: Some(0),
        submission_end: Some(10),
        voting_start: Some(20),
        voting_end: Some(30),
        show_leaderboard: false,
        assigned: false,
        created_scores: false,
    };
    assert_eq!(tick_decision(&c, 5), (false, false));
    assert_eq!(tick_decision(&c, 11), (true, false));
    assert_eq!(tick_decision(&c, 31), (true, true));
    let done = Config { assigned: true, created_scores: true, ..c };
    assert_eq!(tick_decision(&done, 31), (false, false));
    let missing = Config { submission_end: None, voting_end: None, ..c };
    assert_eq!(tick_decision(&missing, 31), (false, false));
}

/// With two votes of all-4s and all-5s on one submission, the composite
/// score is exactly 4.5 * 2000 = 9000 (each criterion's median is 4.5 and
/// equals the global mean, so smoothing leaves it unchanged).
#[test]
fn test_scoring_calculation() {
    let mut store = Store::new();
    store.apply_timings(TimingUpdate {
        submission_start: Some(NOW - 3 * HOUR),
        submission_end: Some(NOW - 2 * HOUR),
        voting_start: Some(NOW - HOUR),
        voting_end: Some(NOW + HOUR),
    });
    let sid = store
        .submit_at(NOW - 3 * HOUR + 1, 1, content("user1"))
        .expect("submission in window");
    let all = |v: i64| VoteParams {
        submission_id: sid,
        problem_fit_score: v,
        clarity_score: v,
        style_interpretation_score: v,
        originality_score: v,
        overall_quality_score: v,
    };
    store.vote_add_at(NOW, 2, all(4)).expect("vote accepted");
    store.vote_add_at(NOW, 3, all(5)).expect("vote accepted");
    store.run_scoring();
    assert_eq!(store.scores.len(), 1);
    let score = &store.scores[0];
    assert!(score.final_score > 0, "Score should be positive");
    assert_eq!(score.final_score, 9000);
    assert_eq!(score.problem_fit_score, 900);
}

/// Fifty users submit, assignment and voting run, scoring produces fifty
/// rows, and the leaderboard flips from hidden to visible.
#[test]
fn test_full_competition_flow() {
    const NUM_USERS: i64 = 50;
    let mut store = Store::new();
    store.apply_timings(TimingUpdate {
        submission_start: Some(NOW - HOUR),
        submission_end: Some(NOW + HOUR),
        voting_start: Some(NOW + 2 * HOUR),
        voting_end: Some(NOW + 3 * HOUR),
    });
    store.add_admin(1);

    // submission period: every user submits once
    for u in 1..=NUM_USERS {
        store
            .submit_at(NOW, u, content(&format!("user{u}")))
            .unwrap_or_else(|_| panic!("User {u} should create submission successfully"));
    }
    assert_eq!(store.submissions.len(), NUM_USERS as usize, "Should have 50 submissions");

    // assignment after the submission period
    store.run_assignment();
    assert!(!store.assignments.is_empty(), "Should have vote assignments");
    let k = MAX_ASSIGNMENTS_PER_USER;
    for u in 1..=NUM_USERS {
        let mine = store.assignments_mine(u);
        assert!(mine.len() <= k, "User should have at most {k} assignments");
        for a in &mine {
            let target = store.submissions.iter().find(|s| s.id == a.submission_id).unwrap();
            assert_ne!(target.user_id, u, "User should not be assigned their own submission");
        }
    }

    // voting period: every user votes on each assignment
    let voting_now = NOW + 2 * HOUR + 1;
    for u in 1..=NUM_USERS {
        let mine = store.assignments_mine(u);
        for (i, a) in mine.iter().enumerate() {
            let base = 3 + ((i as i64 + u) % 3);
            store
                .vote_add_at(voting_now, u, vote(a.submission_id, base))
                .unwrap_or_else(|_| panic!("User {u} should vote on their assignments"));
        }
        assert_eq!(store.votes_mine(u).len(), mine.len());
    }
    assert!(!store.votes.is_empty(), "Should have votes");
    // every submission received votes: each is assigned to 6 other users
    let voted: HashSet<i64> = store.votes.iter().map(|v| v.submission_id).collect();
    assert_eq!(voted.len(), NUM_USERS as usize);

    // scoring after the voting period
    store.run_scoring();
    assert_eq!(store.scores.len(), NUM_USERS as usize, "Should have scores for all submissions");
    for s in &store.scores {
        assert!(s.final_score >= 0);
        assert!(s.final_score <= 10_000);
    }

    // leaderboard hidden until the flag is set
    assert_eq!(store.scores_view().err(), Some(GateError::NotFound));
    store.set_show_leaderboard(Some(true)).expect("config exists");
    let visible = store.scores_view().expect("Scores should be visible when leaderboard enabled");
    assert_eq!(visible.len(), NUM_USERS as usize, "Should return all scores");
}
