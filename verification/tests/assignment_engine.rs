//! Assignment engine behaviour: quotas, no self-review, full replacement.

use std::collections::HashSet;

use bit_by_design::assign::{assign_reviewers, SubmissionRef};
use bit_by_design::store::Store;
use bit_by_design::types::{SubmissionParams, VoteAssignment};
use bit_by_design::MAX_ASSIGNMENTS_PER_USER;

fn content(tag: &str) -> SubmissionParams {
    SubmissionParams {
        figma_link: format!("https://figma.com/file/{tag}"),
        design_image: format!("https://example.com/{tag}.png"),
        target_user_and_goal: format!("{tag} target"),
        layout_explanation: format!("{tag} layout"),
        style_interpretation: format!("{tag} style"),
        key_trade_off: format!("{tag} trade-off"),
        originality_confirmed: true,
        template_compliance_confirmed: true,
        future_improvements: Some(format!("{tag} improvements")),
    }
}

/// A store holding one submission per user for `n` users, ids 1..=n,
/// owners 101..=100+n.
fn store_with_submissions(n: usize) -> Store {
    let mut store = Store::new();
    store.apply_timings(bit_by_design::timing::TimingUpdate {
        submission_start: Some(0),
        submission_end: Some(1_000),
        voting_start: Some(2_000),
        voting_end: Some(3_000),
    });
    for i in 0..n {
        let user = 101 + i as i64;
        store
            .submit_at(500, user, content(&format!("u{user}")))
            .expect("submission should be accepted inside the window");
    }
    store
}

fn check_assignments(store: &Store, n: usize) {
    let k = MAX_ASSIGNMENTS_PER_USER.min(n.saturating_sub(1));
    assert_eq!(store.assignments.len(), n * k);
    for i in 0..n {
        let user = 101 + i as i64;
        let mine: Vec<VoteAssignment> = store.assignments_mine(user);
        assert_eq!(mine.len(), k, "user {user} should have exactly {k} assignments");
        assert!(mine.len() <= MAX_ASSIGNMENTS_PER_USER);
        let mut targets = HashSet::new();
        for a in &mine {
            // target exists and is not the voter's own submission
            let target = store
                .submissions
                .iter()
                .find(|s| s.id == a.submission_id)
                .expect("assignment should point at a stored submission");
            assert_ne!(target.user_id, user, "no user reviews their own submission");
            assert!(targets.insert(a.submission_id), "targets should be distinct");
        }
    }
}

/// Every user gets exactly `min(6, n - 1)` distinct targets, never their
/// own entry.
#[test]
fn every_user_gets_quota() {
    for n in [2usize, 3, 5, 7, 8, 20] {
        let mut store = store_with_submissions(n);
        store.run_assignment();
        check_assignments(&store, n);
    }
}

/// Fifty submitters: everyone gets at most six assignments, none their
/// own.
#[test]
fn fifty_users_bounded_quota() {
    let mut store = store_with_submissions(50);
    store.run_assignment();
    check_assignments(&store, 50);
}

/// With no submissions the run is a no-op that leaves nothing assigned.
#[test]
fn no_submissions_assigns_nothing() {
    let mut store = Store::new();
    store.run_assignment();
    assert!(store.assignments.is_empty());
}

/// A single submission yields a quota of zero: nobody can review their
/// own entry.
#[test]
fn single_submission_assigns_nothing() {
    let mut store = store_with_submissions(1);
    store.run_assignment();
    assert!(store.assignments.is_empty());
}

/// Running the engine twice replaces the first run's table outright: the
/// count afterwards is `u * k`, not `2 * u * k`.
#[test]
fn rerun_replaces_assignments() {
    let n = 10usize;
    let k = 6usize;
    let mut store = store_with_submissions(n);
    store.run_assignment();
    assert_eq!(store.assignments.len(), n * k);
    store.run_assignment();
    assert_eq!(store.assignments.len(), n * k);
    check_assignments(&store, n);
}

/// The engine is callable directly on shuffled refs; the order of users
/// is preserved positionally in the output blocks.
#[test]
fn direct_engine_small_case() {
    let subs = vec![
        SubmissionRef { id: 1, user_id: 101 },
        SubmissionRef { id: 2, user_id: 102 },
        SubmissionRef { id: 3, user_id: 103 },
    ];
    let users = vec![101, 102, 103];
    let asgs = assign_reviewers(&users, &subs);
    // k = min(6, 2) = 2: each user reviews both other submissions
    assert_eq!(asgs.len(), 6);
    for u in &users {
        let mine: Vec<&VoteAssignment> = asgs.iter().filter(|a| a.user_id == *u).collect();
        assert_eq!(mine.len(), 2);
        let own_id = subs.iter().find(|s| s.user_id == *u).unwrap().id;
        assert!(mine.iter().all(|a| a.submission_id != own_id));
        assert_ne!(mine[0].submission_id, mine[1].submission_id);
    }
}
