//! Roster import selection: complete rows only, no duplicate emails.

use bit_by_design::users::{select_new_users, UserRow};

fn row(complete: bool, name: &str, email: &str) -> UserRow {
    UserRow { complete, name: name.to_string(), email: email.to_string() }
}

#[test]
fn selects_complete_rows_only() {
    let rows = vec![
        row(true, "Ada", "ada@example.com"),
        row(false, "Ben", "ben@example.com"),
        row(true, "Cleo", "cleo@example.com"),
    ];
    let picked = select_new_users(&rows, &vec![]);
    assert_eq!(picked.len(), 2);
    assert_eq!(picked[0].name, "Ada");
    assert_eq!(picked[1].email, "cleo@example.com");
}

#[test]
fn skips_existing_emails() {
    let rows = vec![row(true, "Ada", "ada@example.com"), row(true, "Ben", "ben@example.com")];
    let existing = vec!["ada@example.com".to_string()];
    let picked = select_new_users(&rows, &existing);
    assert_eq!(picked.len(), 1);
    assert_eq!(picked[0].name, "Ben");
}

#[test]
fn deduplicates_within_roster() {
    let rows = vec![
        row(true, "Ada", "ada@example.com"),
        row(true, "Ada again", "ada@example.com"),
        row(true, "Ben", "ben@example.com"),
    ];
    let picked = select_new_users(&rows, &vec![]);
    assert_eq!(picked.len(), 2);
    assert_eq!(picked[0].name, "Ada");
    assert_eq!(picked[1].name, "Ben");
}

#[test]
fn empty_roster_selects_nothing() {
    let picked = select_new_users(&vec![], &vec!["someone@example.com".to_string()]);
    assert!(picked.is_empty());
}
