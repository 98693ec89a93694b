//! The peer-assignment engine: a deterministic rotation that hands each
//! user a bounded set of distinct submissions to review, never their own.
//!
//! The submissions arrive already shuffled (the caller permutes them once
//! per run); users are walked in their stable listing order. For user
//! index `u`, candidate targets are scanned at `(u + offset) mod n` for
//! `offset = 0, 1, 2, ...`, skipping the user's own submission, until the
//! quota `min(6, n - 1)` is reached. Because each user owns at most one
//! submission, at most one scan position per cycle is skipped, so the scan
//! never wraps past a full cycle.

use vstd::prelude::*;

use crate::review_quota;
use crate::types::VoteAssignment;

verus! {

/// A submission as the assignment engine sees it: its id and its owner.
#[derive(Clone, Copy, Debug, PartialEq, Eq, Structural)]
pub struct SubmissionRef {
    pub id: i64,
    pub user_id: i64,
}

/// No two submissions share an id.
pub open spec fn distinct_ids(subs: Seq<SubmissionRef>) -> bool {
    forall|a: int, b: int| 0 <= a < b < subs.len() ==> (#[trigger] subs[a]).id != (
    #[trigger] subs[b]).id
}

/// No two submissions share an owner: each user submitted at most once.
pub open spec fn distinct_owners(subs: Seq<SubmissionRef>) -> bool {
    forall|a: int, b: int| 0 <= a < b < subs.len() ==> (#[trigger] subs[a]).user_id != (
    #[trigger] subs[b]).user_id
}

/// No user is listed twice.
pub open spec fn distinct_users(users: Seq<i64>) -> bool {
    forall|a: int, b: int| 0 <= a < b < users.len() ==> users[a] != users[b]
}

/// `sid` names a listed submission that `user` does not own.
pub open spec fn is_valid_target(subs: Seq<SubmissionRef>, user: i64, sid: i64) -> bool {
    exists|t: int| 0 <= t < subs.len() && (#[trigger] subs[t]).id == sid && subs[t].user_id != user
}

/// The scan position reached `m` steps after `start`, walking the `n`
/// submissions cyclically (`(start + m) mod n`, for `m < n`).
pub open spec fn wrap_pos(start: int, m: int, n: int) -> int {
    if start + m < n {
        start + m
    } else {
        start + m - n
    }
}

/// One user's assignments: the first `k` submissions at scan positions
/// `(start + 0) mod n, (start + 1) mod n, ...` that the user does not own.
fn assign_targets_for_user(user: i64, start: usize, subs: &Vec<SubmissionRef>, k: usize) -> (r:
    Vec<VoteAssignment>)
    requires
        subs@.len() >= 1,
        start < subs@.len(),
        k + 1 <= subs@.len(),
        distinct_owners(subs@),
        distinct_ids(subs@),
    ensures
        r@.len() == k,
        forall|j: int| 0 <= j < k ==> (#[trigger] r@[j]).user_id == user,
        forall|j: int|
            0 <= j < k ==> is_valid_target(subs@, user, (#[trigger] r@[j]).submission_id),
        forall|j1: int, j2: int|
            0 <= j1 < j2 < k ==> (#[trigger] r@[j1]).submission_id != (
            #[trigger] r@[j2]).submission_id,
{
    let n = subs.len();
    let mut r: Vec<VoteAssignment> = Vec::new();
    let mut pos: usize = start;
    let mut scanned: usize = 0;
    let ghost mut positions: Seq<int> = Seq::empty();
    let ghost mut scan_of: Seq<int> = Seq::empty();
    let ghost mut own_scan: int = 0;
    while r.len() < k
        invariant
            n == subs@.len(),
            start < n,
            k + 1 <= n,
            distinct_owners(subs@),
            distinct_ids(subs@),
            r@.len() <= k,
            r@.len() <= scanned <= r@.len() + 1,
            scanned <= n,
            r@.len() < k ==> scanned < n,
            pos == wrap_pos(start as int, scanned as int, n as int),
            positions.len() == r@.len(),
            scan_of.len() == r@.len(),
            forall|m: int| 0 <= m < scan_of.len() ==> 0 <= #[trigger] scan_of[m] < scanned,
            forall|m1: int, m2: int|
                0 <= m1 < m2 < scan_of.len() ==> #[trigger] scan_of[m1] < #[trigger] scan_of[m2],
            forall|m: int|
                0 <= m < positions.len() ==> #[trigger] positions[m] == wrap_pos(
                    start as int,
                    scan_of[m],
                    n as int,
                ),
            forall|m: int| 0 <= m < positions.len() ==> 0 <= #[trigger] positions[m] < n,
            forall|m: int|
                0 <= m < r@.len() ==> (#[trigger] r@[m]).submission_id == subs@[positions[m]].id
                    && subs@[positions[m]].user_id != user,
            forall|m: int| 0 <= m < r@.len() ==> (#[trigger] r@[m]).user_id == user,
            scanned == r@.len() + 1 ==> 0 <= own_scan < scanned && subs@[wrap_pos(
                start as int,
                own_scan,
                n as int,
            )].user_id == user,
        decreases 2 * (k as int) - r@.len() - scanned + 1,
    {
        let target = subs[pos];
        if target.user_id != user {
            r.push(
                VoteAssignment { user_id: user, submission_id: target.id },
            );
            proof {
                positions = positions.push(pos as int);
                scan_of = scan_of.push(scanned as int);
            }
        } else {
            proof {
                if scanned == r@.len() + 1 {
                    let p_own = wrap_pos(start as int, own_scan, n as int);
                    let p_cur = wrap_pos(start as int, scanned as int, n as int);
                    assert(0 <= p_own < n && 0 <= p_cur < n);
                    assert(p_own != p_cur);
                    assert(subs@[p_own].user_id == user && subs@[p_cur].user_id == user);
                    assert(false);
                }
                own_scan = scanned as int;
            }
        }
        scanned = scanned + 1;
        pos = if pos + 1 == n {
            0
        } else {
            pos + 1
        };
        proof {
            if r@.len() < k && scanned == n {
                assert(scanned <= r@.len() + 1);
                assert(r@.len() >= n - 1 >= k);
                assert(false);
            }
        }
    }
    proof {
        assert forall|j1: int, j2: int| 0 <= j1 < j2 < k implies (#[trigger] r@[j1]).submission_id
            != (#[trigger] r@[j2]).submission_id by {
            assert(positions[j1] == wrap_pos(start as int, scan_of[j1], n as int));
            assert(positions[j2] == wrap_pos(start as int, scan_of[j2], n as int));
            assert(scan_of[j1] < scan_of[j2] < scanned <= n as int);
            assert(positions[j1] != positions[j2]);
            if positions[j1] < positions[j2] {
                assert(subs@[positions[j1]].id != subs@[positions[j2]].id);
            } else {
                assert(subs@[positions[j2]].id != subs@[positions[j1]].id);
            }
        }
        assert forall|j: int| 0 <= j < k implies is_valid_target(
            subs@,
            user,
            (#[trigger] r@[j]).submission_id,
        ) by {
            assert(subs@[positions[j]].id == r@[j].submission_id && subs@[positions[j]].user_id
                != user);
        }
    }
    r
}

/// The assignments held by one user, in order.
pub open spec fn assignments_of(r: Seq<VoteAssignment>, user: i64) -> Seq<VoteAssignment> {
    r.filter(|a: VoteAssignment| a.user_id == user)
}

/// Filtering keeps a sequence whole when every element satisfies the predicate.
proof fn lemma_filter_all(s: Seq<VoteAssignment>, pred: spec_fn(VoteAssignment) -> bool)
    requires
        forall|j: int| 0 <= j < s.len() ==> pred(#[trigger] s[j]),
    ensures
        s.filter(pred) == s,
    decreases s.len(),
{
    reveal(Seq::filter);
    if s.len() > 0 {
        lemma_filter_all(s.drop_last(), pred);
        assert(s.filter(pred) =~= s);
    }
}

/// Filtering drops a sequence entirely when no element satisfies the predicate.
proof fn lemma_filter_none(s: Seq<VoteAssignment>, pred: spec_fn(VoteAssignment) -> bool)
    requires
        forall|j: int| 0 <= j < s.len() ==> !pred(#[trigger] s[j]),
    ensures
        s.filter(pred) == Seq::<VoteAssignment>::empty(),
    decreases s.len(),
{
    reveal(Seq::filter);
    if s.len() > 0 {
        lemma_filter_none(s.drop_last(), pred);
    }
}

/// An element of a sequence occurs in any sequence with the same multiset.
proof fn lemma_perm_elem(a: Seq<SubmissionRef>, b: Seq<SubmissionRef>, x: int)
    requires
        a.to_multiset() == b.to_multiset(),
        0 <= x < b.len(),
    ensures
        exists|w: int| 0 <= w < a.len() && a[w] == b[x],
{
    vstd::seq_lib::to_multiset_contains(b, b[x]);
    vstd::seq_lib::to_multiset_contains(a, b[x]);
    assert(b.contains(b[x]));
}

/// A value held at two positions of a sequence is held at two positions
/// of any sequence with the same multiset.
proof fn lemma_perm_dup(a: Seq<SubmissionRef>, b: Seq<SubmissionRef>, x: int, y: int)
    requires
        a.to_multiset() == b.to_multiset(),
        0 <= x < y < b.len(),
        b[x] == b[y],
    ensures
        exists|w1: int, w2: int|
            0 <= w1 < a.len() && 0 <= w2 < a.len() && w1 != w2 && a[w1] == b[x] && a[w2] == b[x],
{
    broadcast use vstd::multiset::group_multiset_axioms;

    let e = b[x];
    vstd::seq_lib::to_multiset_remove(b, x);
    assert(b.remove(x)[y - 1] == e);
    assert(b.remove(x).contains(e));
    vstd::seq_lib::to_multiset_contains(b.remove(x), e);
    assert(b.to_multiset().remove(e).count(e) > 0);
    assert(a.to_multiset().count(e) >= 2);
    vstd::seq_lib::to_multiset_contains(a, e);
    assert(a.contains(e));
    let w1 = choose|w: int| 0 <= w < a.len() && a[w] == e;
    vstd::seq_lib::to_multiset_remove(a, w1);
    assert(a.remove(w1).to_multiset().count(e) > 0);
    vstd::seq_lib::to_multiset_contains(a.remove(w1), e);
    assert(a.remove(w1).contains(e));
    let v = choose|v: int| 0 <= v < a.remove(w1).len() && a.remove(w1)[v] == e;
    let w2: int = if v < w1 {
        v
    } else {
        v + 1
    };
    assert(a[w2] == e && w2 != w1);
}

/// Pairwise distinctness of submission ids and of owners carries across
/// a permutation of the submissions.
pub proof fn lemma_perm_distinct(a: Seq<SubmissionRef>, b: Seq<SubmissionRef>)
    requires
        a.to_multiset() == b.to_multiset(),
        distinct_ids(a),
        distinct_owners(a),
    ensures
        distinct_ids(b),
        distinct_owners(b),
{
    assert forall|x: int, y: int| 0 <= x < y < b.len() implies (#[trigger] b[x]).id != (
    #[trigger] b[y]).id && b[x].user_id != b[y].user_id by {
        if b[x] == b[y] {
            lemma_perm_dup(a, b, x, y);
            let (w1, w2) = choose|w1: int, w2: int|
                0 <= w1 < a.len() && 0 <= w2 < a.len() && w1 != w2 && a[w1] == b[x] && a[w2]
                    == b[x];
            if w1 < w2 {
                assert(a[w1].id != a[w2].id);
            } else {
                assert(a[w2].id != a[w1].id);
            }
            assert(false);
        } else {
            lemma_perm_elem(a, b, x);
            lemma_perm_elem(a, b, y);
            let w1 = choose|w: int| 0 <= w < a.len() && a[w] == b[x];
            let w2 = choose|w: int| 0 <= w < a.len() && a[w] == b[y];
            assert(w1 != w2);
            if w1 < w2 {
                assert(a[w1].id != a[w2].id && a[w1].user_id != a[w2].user_id);
            } else {
                assert(a[w2].id != a[w1].id && a[w2].user_id != a[w1].user_id);
            }
        }
    }
}

/// A valid target with respect to a permutation of the submissions is a
/// valid target with respect to the original listing.
pub proof fn lemma_valid_target_perm(
    a: Seq<SubmissionRef>,
    b: Seq<SubmissionRef>,
    user: i64,
    sid: i64,
)
    requires
        a.to_multiset() == b.to_multiset(),
        is_valid_target(b, user, sid),
    ensures
        is_valid_target(a, user, sid),
{
    let t = choose|t: int| 0 <= t < b.len() && (#[trigger] b[t]).id == sid && b[t].user_id != user;
    lemma_perm_elem(a, b, t);
    let w = choose|w: int| 0 <= w < a.len() && a[w] == b[t];
    assert(a[w].id == sid && a[w].user_id != user);
}

/// `uid` is one of the first `bound` listed users.
pub open spec fn user_listed(users: Seq<i64>, bound: int, uid: i64) -> bool {
    exists|u: int| 0 <= u < bound && users[u] == uid
}

/// The assignment engine proper. Given the users in stable listing order
/// and the (already shuffled) submissions, every listed user receives
/// exactly `min(6, n - 1)` distinct targets, never their own submission;
/// with no submissions the run assigns nothing.
pub fn assign_reviewers(users: &Vec<i64>, subs: &Vec<SubmissionRef>) -> (r: Vec<VoteAssignment>)
    requires
        distinct_owners(subs@),
        distinct_ids(subs@),
        distinct_users(users@),
        users@.len() * review_quota(subs@.len() as int) <= usize::MAX,
    ensures
        r@.len() == users@.len() * review_quota(subs@.len() as int),
        forall|i: int|
            0 <= i < users@.len() ==> assignments_of(r@, #[trigger] users@[i]).len()
                == review_quota(subs@.len() as int),
        forall|j: int|
            0 <= j < r@.len() ==> is_valid_target(subs@, (#[trigger] r@[j]).user_id, r@[j].submission_id),
        forall|j: int|
            0 <= j < r@.len() ==> user_listed(users@, users@.len() as int, (#[trigger] r@[j]).user_id),
        forall|j1: int, j2: int|
            0 <= j1 < j2 < r@.len() && (#[trigger] r@[j1]).user_id == (#[trigger] r@[j2]).user_id
                ==> r@[j1].submission_id != r@[j2].submission_id,
{
    let n = subs.len();
    let nu = users.len();
    let mut out: Vec<VoteAssignment> = Vec::new();
    if n == 0 {
        proof {
            reveal(Seq::filter);
            assert(users@.len() * review_quota(subs@.len() as int) == 0) by (nonlinear_arith)
                requires
                    review_quota(subs@.len() as int) == 0,
            ;
            assert forall|i: int| 0 <= i < users@.len() implies assignments_of(
                out@,
                #[trigger] users@[i],
            ).len() == review_quota(subs@.len() as int) by {
                lemma_filter_none(out@, |a: VoteAssignment| a.user_id == users@[i]);
            }
        }
        return out;
    }
    let k = crate::compute_review_quota(n);
    proof {
        assert(0 * (k as int) == 0) by (nonlinear_arith);
    }
    for i in 0..nu
        invariant
            n == subs@.len() >= 1,
            nu == users@.len(),
            k == review_quota(n as int),
            k + 1 <= n,
            distinct_owners(subs@),
            distinct_ids(subs@),
            distinct_users(users@),
            nu * (k as int) <= usize::MAX,
            out@.len() == i * (k as int),
            forall|u: int|
                0 <= u < i ==> assignments_of(out@, #[trigger] users@[u]).len() == k as int,
            forall|j: int|
                0 <= j < out@.len() ==> user_listed(users@, i as int, (#[trigger] out@[j]).user_id),
            forall|j: int|
                0 <= j < out@.len() ==> is_valid_target(
                    subs@,
                    (#[trigger] out@[j]).user_id,
                    out@[j].submission_id,
                ),
            forall|j1: int, j2: int|
                0 <= j1 < j2 < out@.len() && (#[trigger] out@[j1]).user_id == (
                #[trigger] out@[j2]).user_id ==> out@[j1].submission_id != out@[j2].submission_id,
    {
        let user = users[i];
        let start = i % n;
        proof {
            assert(i * (k as int) + (k as int) <= nu * (k as int)) by (nonlinear_arith)
                requires
                    0 <= i < nu,
                    0 <= k,
            ;
        }
        let mut block = assign_targets_for_user(user, start, subs, k);
        let ghost old_out = out@;
        let ghost block_view = block@;
        out.append(&mut block);
        proof {
            assert(out@ == old_out + block_view);
            assert(out@.len() == (i + 1) * (k as int)) by (nonlinear_arith)
                requires
                    out@.len() == old_out.len() + block_view.len(),
                    old_out.len() == i * (k as int),
                    block_view.len() == k as int,
            ;
            assert forall|u: int| 0 <= u < i + 1 implies assignments_of(
                out@,
                #[trigger] users@[u],
            ).len() == k as int by {
                let pred = |a: VoteAssignment| a.user_id == users@[u];
                Seq::filter_distributes_over_add(old_out, block_view, pred);
                if u < i {
                    assert forall|j: int| 0 <= j < block_view.len() implies !pred(
                        #[trigger] block_view[j],
                    ) by {
                        assert(block_view[j].user_id == users@[i as int]);
                        assert(users@[u] != users@[i as int]);
                    }
                    lemma_filter_none(block_view, pred);
                    assert(assignments_of(out@, users@[u]) =~= assignments_of(
                        old_out,
                        users@[u],
                    ));
                } else {
                    assert forall|j: int| 0 <= j < old_out.len() implies !pred(
                        #[trigger] old_out[j],
                    ) by {
                        assert(user_listed(users@, i as int, old_out[j].user_id));
                        let w = choose|w: int| 0 <= w < i && users@[w] == old_out[j].user_id;
                        assert(users@[w] != users@[i as int]);
                    }
                    lemma_filter_none(old_out, pred);
                    assert forall|j: int| 0 <= j < block_view.len() implies pred(
                        #[trigger] block_view[j],
                    ) by {
                        assert(block_view[j].user_id == users@[i as int]);
                    }
                    lemma_filter_all(block_view, pred);
                    assert(assignments_of(out@, users@[u]) =~= block_view);
                }
            }
            assert forall|j: int| 0 <= j < out@.len() implies user_listed(
                users@,
                i + 1,
                (#[trigger] out@[j]).user_id,
            ) by {
                if j < old_out.len() {
                    assert(user_listed(users@, i as int, old_out[j].user_id));
                    let w = choose|w: int| 0 <= w < i && users@[w] == old_out[j].user_id;
                    assert(0 <= w < i + 1 && users@[w] == out@[j].user_id);
                } else {
                    assert(users@[i as int] == out@[j].user_id);
                }
            }
            assert forall|j1: int, j2: int|
                0 <= j1 < j2 < out@.len() && (#[trigger] out@[j1]).user_id == (
                #[trigger] out@[j2]).user_id implies out@[j1].submission_id
                != out@[j2].submission_id by {
                if j1 < old_out.len() && j2 >= old_out.len() {
                    assert(user_listed(users@, i as int, old_out[j1].user_id));
                    let w = choose|w: int| 0 <= w < i && users@[w] == old_out[j1].user_id;
                    assert(out@[j2].user_id == users@[i as int]);
                    assert(users@[w] != users@[i as int]);
                } else if j1 >= old_out.len() {
                    assert(block_view[j1 - old_out.len()].submission_id != block_view[j2
                        - old_out.len()].submission_id);
                }
            }
        }
    }
    out
}

} // verus!
