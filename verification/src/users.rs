//! User import: which rows of an uploaded roster become new users. A row
//! is taken when it is marked complete and its email is not already
//! present — neither among the stored users nor earlier in the same
//! roster, so one upload never creates the same user twice.

use vstd::prelude::*;

verus! {

/// One roster row: the completion mark and the would-be user's name and
/// email, as decoded from the upload.
pub struct UserRow {
    pub complete: bool,
    pub name: String,
    pub email: String,
}

/// A user to create: name and email.
pub struct NewUser {
    pub name: String,
    pub email: String,
}

/// `e` occurs among the listed emails.
pub open spec fn email_listed(emails: Seq<Seq<char>>, e: Seq<char>) -> bool {
    exists|i: int| 0 <= i < emails.len() && emails[i] == e
}

/// The users the roster yields from row `i` on, given the emails taken so
/// far: complete rows whose email is fresh, each claiming its email for
/// the rows after it.
pub open spec fn select_from(rows: Seq<UserRow>, taken: Seq<Seq<char>>, i: int) -> Seq<
    (Seq<char>, Seq<char>),
>
    decreases rows.len() - i,
{
    if i < 0 || i >= rows.len() {
        Seq::empty()
    } else if rows[i].complete && !email_listed(taken, rows[i].email@) {
        seq![(rows[i].name@, rows[i].email@)] + select_from(
            rows,
            taken.push(rows[i].email@),
            i + 1,
        )
    } else {
        select_from(rows, taken, i + 1)
    }
}

/// `e` occurs among the stored emails.
fn email_seen(seen: &Vec<String>, e: &String) -> (r: bool)
    ensures
        r == email_listed(seen@.map_values(|s: String| s@), e@),
{
    let n = seen.len();
    let mut i: usize = 0;
    while i < n
        invariant
            n == seen@.len(),
            i <= n,
            forall|j: int| 0 <= j < i ==> (#[trigger] seen@[j])@ != e@,
        decreases n - i,
    {
        if seen[i].eq(e) {
            proof {
                assert((seen@.map_values(|s: String| s@))[i as int] == e@);
            }
            return true;
        }
        i = i + 1;
    }
    proof {
        let emails = seen@.map_values(|s: String| s@);
        assert forall|j: int| 0 <= j < emails.len() implies #[trigger] emails[j] != e@ by {
            assert(emails[j] == seen@[j]@);
        }
    }
    false
}

/// Walks the roster once and returns the users to create, in roster
/// order: complete rows whose email is neither stored already nor taken
/// by an earlier roster row.
pub fn select_new_users(rows: &Vec<UserRow>, existing: &Vec<String>) -> (r: Vec<NewUser>)
    ensures
        r@.map_values(|u: NewUser| (u.name@, u.email@)) == select_from(
            rows@,
            existing@.map_values(|s: String| s@),
            0,
        ),
{
    let mut out: Vec<NewUser> = Vec::new();
    let mut seen: Vec<String> = Vec::new();
    let n0 = existing.len();
    let mut i: usize = 0;
    while i < n0
        invariant
            n0 == existing@.len(),
            i <= n0,
            seen@.len() == i,
            forall|j: int| 0 <= j < i ==> (#[trigger] seen@[j])@ == existing@[j]@,
        decreases n0 - i,
    {
        seen.push(existing[i].clone());
        i = i + 1;
    }
    proof {
        assert(seen@.map_values(|s: String| s@) =~= existing@.map_values(|s: String| s@));
    }
    let ghost taken0 = existing@.map_values(|s: String| s@);
    let n = rows.len();
    let mut k: usize = 0;
    while k < n
        invariant
            n == rows@.len(),
            k <= n,
            select_from(rows@, taken0, 0) == out@.map_values(|u: NewUser| (u.name@, u.email@))
                + select_from(rows@, seen@.map_values(|s: String| s@), k as int),
        decreases n - k,
    {
        let row = &rows[k];
        let ghost taken = seen@.map_values(|s: String| s@);
        if row.complete && !email_seen(&seen, &row.email) {
            out.push(NewUser { name: row.name.clone(), email: row.email.clone() });
            seen.push(row.email.clone());
            proof {
                assert(seen@.map_values(|s: String| s@) =~= taken.push(rows@[k as int].email@));
                assert(out@.map_values(|u: NewUser| (u.name@, u.email@)) =~= out@.drop_last(
                ).map_values(|u: NewUser| (u.name@, u.email@)).push(
                    (rows@[k as int].name@, rows@[k as int].email@),
                ));
                assert(select_from(rows@, taken, k as int) == seq![
                    (rows@[k as int].name@, rows@[k as int].email@),
                ] + select_from(rows@, taken.push(rows@[k as int].email@), k + 1));
                assert(select_from(rows@, taken0, 0) =~= out@.map_values(
                    |u: NewUser| (u.name@, u.email@),
                ) + select_from(rows@, seen@.map_values(|s: String| s@), k + 1));
            }
        } else {
            proof {
                assert(select_from(rows@, taken, k as int) == select_from(rows@, taken, k + 1));
            }
        }
        k = k + 1;
    }
    proof {
        assert(select_from(rows@, seen@.map_values(|s: String| s@), n as int) =~= Seq::<
            (Seq<char>, Seq<char>),
        >::empty());
        assert(select_from(rows@, taken0, 0) =~= out@.map_values(|u: NewUser| (u.name@, u.email@)));
    }
    out
}

} // verus!
