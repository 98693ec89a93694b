//! Configuration, leaderboard visibility, submission access control and
//! assignment listings.

use bit_by_design::store::Store;
use bit_by_design::timing::{sequential_windows, TimingUpdate};
use bit_by_design::types::{GateError, Score, SubmissionParams};

const HOUR: i64 = 3_600_000;
const NOW: i64 = 1_700_000_000_000;

fn content(tag: &str) -> SubmissionParams {
    SubmissionParams {
        figma_link: format!("https://figma.com/file/{tag}"),
        design_image: format!("https://example.com/{tag}.png"),
        target_user_and_goal: format!("{tag} target"),
        layout_explanation: format!("{tag} layout"),
        style_interpretation: format!("{tag} style"),
        key_trade_off: format!("{tag} trade-off"),
        originality_confirmed: true,
        template_compliance_confirmed: true,
        future_improvements: None,
    }
}

fn updated_content() -> SubmissionParams {
    SubmissionParams {
        figma_link: "https://figma.com/file/updated".to_string(),
        design_image: "https://example.com/updated.png".to_string(),
        target_user_and_goal: "Updated target".to_string(),
        layout_explanation: "Updated layout".to_string(),
        style_interpretation: "Updated style".to_string(),
        key_trade_off: "Updated trade-off".to_string(),
        originality_confirmed: true,
        template_compliance_confirmed: true,
        future_improvements: Some("Updated improvements".to_string()),
    }
}

fn open_submission_window(store: &mut Store) {
    store.apply_timings(TimingUpdate {
        submission_start: Some(NOW - HOUR),
        submission_end: Some(NOW + HOUR),
        voting_start: Some(NOW + 2 * HOUR),
        voting_end: Some(NOW + 3 * HOUR),
    });
}

fn demo_score(submission_id: i64) -> Score {
    Score {
        submission_id,
        problem_fit_score: 4,
        visual_clarity_score: 5,
        style_interpretation_score: 3,
        originality_score: 4,
        overall_quality_score: 4,
        final_score: 800,
    }
}

#[test]
fn can_get_config() {
    let mut store = Store::new();
    open_submission_window(&mut store);
    let c = store.config_get().expect("Should get config");
    assert!(!c.show_leaderboard, "Should have show_leaderboard field defaulting to hidden");
    assert_eq!(c.submission_start, Some(NOW - HOUR));
}

#[test]
fn config_returns_404_when_no_config() {
    let store = Store::new();
    assert_eq!(
        store.config_get().err(),
        Some(GateError::NotFound),
        "Should return 404 when no config"
    );
}

#[test]
fn admin_can_update_config() {
    let mut store = Store::new();
    open_submission_window(&mut store);
    store.add_admin(1);
    let t = TimingUpdate {
        submission_start: Some(1_735_689_600_000), // 2025-01-01T00:00:00Z
        submission_end: Some(1_736_899_200_000),   // 2025-01-15T00:00:00Z
        voting_start: Some(1_736_985_600_000),     // 2025-01-16T00:00:00Z
        voting_end: Some(1_738_195_200_000),       // 2025-01-30T00:00:00Z
    };
    let c = store.config_update(1, t).expect("Admin should update config");
    assert_eq!(
        c.submission_start,
        Some(1_735_689_600_000),
        "submission_start should be set correctly"
    );
    assert_eq!(c.voting_end, Some(1_738_195_200_000));
}

#[test]
fn non_admin_cannot_update_config() {
    let mut store = Store::new();
    open_submission_window(&mut store);
    let t = TimingUpdate {
        submission_start: Some(NOW),
        submission_end: Some(NOW + HOUR),
        voting_start: None,
        voting_end: None,
    };
    assert_eq!(
        store.config_update(2, t),
        Err(GateError::Unauthorized),
        "Non-admin should not update config"
    );
}

#[test]
fn config_update_requires_existing_config() {
    let mut store = Store::new();
    store.add_admin(1);
    let t = TimingUpdate {
        submission_start: None,
        submission_end: None,
        voting_start: None,
        voting_end: None,
    };
    assert_eq!(store.config_update(1, t), Err(GateError::NotFound));
}

#[test]
fn config_update_replaces_all_bounds() {
    let mut store = Store::new();
    open_submission_window(&mut store);
    store.add_admin(1);
    // an absent bound clears the stored one outright
    let t = TimingUpdate {
        submission_start: Some(NOW),
        submission_end: None,
        voting_start: None,
        voting_end: None,
    };
    let c = store.config_update(1, t).expect("admin update accepted");
    assert_eq!(c.submission_start, Some(NOW));
    assert_eq!(c.submission_end, None);
    assert_eq!(c.voting_start, None);
}

#[test]
fn apply_timings_merges_and_upserts() {
    let mut store = Store::new();
    // creates the configuration lazily
    store.apply_timings(TimingUpdate {
        submission_start: Some(1),
        submission_end: None,
        voting_start: None,
        voting_end: None,
    });
    let c = store.config_get().expect("config created");
    assert_eq!(c.submission_start, Some(1));
    assert_eq!(c.submission_end, None);
    // a later partial update keeps what it does not mention
    store.apply_timings(TimingUpdate {
        submission_start: None,
        submission_end: Some(2),
        voting_start: None,
        voting_end: None,
    });
    let c = store.config_get().expect("config kept");
    assert_eq!(c.submission_start, Some(1));
    assert_eq!(c.submission_end, Some(2));
}

#[test]
fn sequential_windows_ladder() {
    let t = sequential_windows(1_000, 60_000);
    assert_eq!(t.submission_start, Some(61_000));
    assert_eq!(t.submission_end, Some(121_000));
    assert_eq!(t.voting_start, Some(181_000));
    assert_eq!(t.voting_end, Some(241_000));
}

#[test]
fn can_get_scores_when_leaderboard_enabled() {
    let mut store = Store::new();
    open_submission_window(&mut store);
    store.scores.push(demo_score(1));
    store.set_show_leaderboard(Some(true)).expect("config exists");
    let scores = store.scores_view().expect("Should get scores when leaderboard enabled");
    assert_eq!(scores.len(), 1, "Should have one score");
    assert_eq!(scores[0].final_score, 800);
}

#[test]
fn returns_404_when_leaderboard_disabled() {
    let mut store = Store::new();
    open_submission_window(&mut store);
    store.scores.push(demo_score(1));
    assert_eq!(
        store.scores_view().err(),
        Some(GateError::NotFound),
        "Should return 404 when leaderboard disabled"
    );
}

#[test]
fn scores_returns_404_when_no_config() {
    let store = Store::new();
    assert_eq!(
        store.scores_view().err(),
        Some(GateError::NotFound),
        "Should return 404 when no config"
    );
}

#[test]
fn returns_empty_array_when_no_scores() {
    let mut store = Store::new();
    open_submission_window(&mut store);
    store.set_show_leaderboard(Some(true)).expect("config exists");
    let scores = store.scores_view().expect("Should return 200");
    assert!(scores.is_empty(), "Should return empty array");
}

#[test]
fn test_can_run_show_leaderboard() {
    let mut store = Store::new();
    open_submission_window(&mut store);
    // no argument given: the task turns the leaderboard on
    store.set_show_leaderboard(Some(true)).expect("config exists");
    assert!(store.config_get().unwrap().show_leaderboard, "show_leaderboard should be set");
    // an explicit false turns it off again
    store.set_show_leaderboard(Some(false)).expect("config exists");
    assert!(!store.config_get().unwrap().show_leaderboard);
    // an unusable argument changes nothing
    store.set_show_leaderboard(None).expect("config exists");
    assert!(!store.config_get().unwrap().show_leaderboard);
}

#[test]
fn show_leaderboard_without_config_fails() {
    let mut store = Store::new();
    assert_eq!(store.set_show_leaderboard(Some(true)), Err(GateError::NotFound));
}

fn store_with_two_submissions() -> (Store, i64, i64) {
    let mut store = Store::new();
    open_submission_window(&mut store);
    let s1 = store.submit_at(NOW, 1, content("user1")).expect("submission 1");
    let s2 = store.submit_at(NOW, 2, content("user2")).expect("submission 2");
    (store, s1, s2)
}

#[test]
fn can_update_own_submission() {
    let (mut store, s1, _) = store_with_two_submissions();
    store.submission_update(1, s1, updated_content()).expect("Should update submission");
    let mine = store.submission_mine(1).expect("submission kept");
    assert_eq!(mine.content.figma_link, "https://figma.com/file/updated");
    assert_eq!(mine.content.target_user_and_goal, "Updated target");
}

#[test]
fn cannot_update_others_submission() {
    let (mut store, s1, _) = store_with_two_submissions();
    let r = store.submission_update(2, s1, updated_content());
    assert_eq!(r, Err(GateError::Unauthorized), "Should reject unauthorized update");
}

#[test]
fn admin_can_update_any_submission() {
    let (mut store, s1, _) = store_with_two_submissions();
    store.add_admin(9);
    store.submission_update(9, s1, updated_content()).expect("Admin should update any submission");
    let owned = store.submission_mine(1).expect("submission kept");
    assert_eq!(owned.content.layout_explanation, "Updated layout");
}

#[test]
fn update_missing_submission_not_found() {
    let (mut store, _, _) = store_with_two_submissions();
    assert_eq!(store.submission_update(1, 999, updated_content()), Err(GateError::NotFound));
}

#[test]
fn can_get_assigned_submission() {
    let (mut store, s1, _) = store_with_two_submissions();
    store.assignments.push(bit_by_design::types::VoteAssignment { user_id: 2, submission_id: s1 });
    let s = store.submission_get(2, s1).expect("Should get assigned submission");
    assert_eq!(s.id, s1);
}

#[test]
fn cannot_get_unassigned_submission() {
    let (store, s1, _) = store_with_two_submissions();
    assert_eq!(
        store.submission_get(2, s1).err(),
        Some(GateError::Unauthorized),
        "Should reject unauthorized access"
    );
}

#[test]
fn admin_can_get_any_submission() {
    let (mut store, s1, _) = store_with_two_submissions();
    store.add_admin(9);
    let s = store.submission_get(9, s1).expect("Admin should access any submission");
    assert_eq!(s.id, s1);
}

#[test]
fn owner_can_get_own_submission() {
    let (store, s1, _) = store_with_two_submissions();
    let s = store.submission_get(1, s1).expect("owner may read");
    assert_eq!(s.user_id, 1);
}

#[test]
fn get_missing_submission_not_found() {
    let (store, _, _) = store_with_two_submissions();
    assert_eq!(store.submission_get(1, 999).err(), Some(GateError::NotFound));
}

#[test]
fn can_get_own_assignments() {
    let (mut store, s1, _) = store_with_two_submissions();
    store.assignments.push(bit_by_design::types::VoteAssignment { user_id: 2, submission_id: s1 });
    let mine = store.assignments_mine(2);
    assert_eq!(mine.len(), 1, "Should have one assignment");
    assert_eq!(mine[0].submission_id, s1);
}

#[test]
fn mine_returns_empty_when_no_assignments() {
    let (store, _, _) = store_with_two_submissions();
    assert!(store.assignments_mine(2).is_empty(), "Should return empty array");
}

#[test]
fn can_get_multiple_assignments() {
    let (mut store, s1, s2) = store_with_two_submissions();
    store.assignments.push(bit_by_design::types::VoteAssignment { user_id: 3, submission_id: s1 });
    store.assignments.push(bit_by_design::types::VoteAssignment { user_id: 3, submission_id: s2 });
    let mine = store.assignments_mine(3);
    assert_eq!(mine.len(), 2, "Should have two assignments");
}
