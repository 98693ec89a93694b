//! The in-memory competition state and every operation on it: the
//! request-time endpoints behind their gate checks, the two engines, and
//! the orchestrator tick. All mutation goes through the methods here,
//! which keep the store well formed.

use vstd::prelude::*;

use crate::assign::{assignments_of, distinct_users, is_valid_target, SubmissionRef};
use crate::gate::{
    check_window, first_invalid, submission_window_open, validate_scores, voting_window_open,
};
use crate::orchestrator::{should_assign, should_score, tick_decision};
use crate::review_quota;
use crate::scoring::{compute_scores, score_in_range, scores_spec, votes_valid, MAX_VOTES};
use crate::timing::TimingUpdate;
use crate::types::{
    Config, GateError, Score, Submission, SubmissionParams, Vote, VoteAssignment, VoteParams,
};

verus! {

/// Largest number of submissions the store accepts; keeps the assignment
/// table's size within `usize` on every platform.
pub const MAX_SUBMISSIONS: usize = 0x0aaa_aaaa;

/// No two stored submissions share an id.
pub open spec fn submission_ids_distinct(subs: Seq<Submission>) -> bool {
    forall|a: int, b: int| 0 <= a < b < subs.len() ==> (#[trigger] subs[a]).id != (
    #[trigger] subs[b]).id
}

/// No two stored submissions share an owner: one submission per user.
pub open spec fn submission_owners_distinct(subs: Seq<Submission>) -> bool {
    forall|a: int, b: int| 0 <= a < b < subs.len() ==> (#[trigger] subs[a]).user_id != (
    #[trigger] subs[b]).user_id
}

/// No two stored votes share an id.
pub open spec fn vote_ids_distinct(votes: Seq<Vote>) -> bool {
    forall|a: int, b: int| 0 <= a < b < votes.len() ==> (#[trigger] votes[a]).id != (
    #[trigger] votes[b]).id
}

/// Some stored submission belongs to `uid`.
pub open spec fn has_submission_by(subs: Seq<Submission>, uid: i64) -> bool {
    exists|i: int| 0 <= i < subs.len() && (#[trigger] subs[i]).user_id == uid
}

/// Some stored vote was cast by `uid` on submission `sid`.
pub open spec fn has_vote_by(votes: Seq<Vote>, uid: i64, sid: i64) -> bool {
    exists|i: int|
        0 <= i < votes.len() && (#[trigger] votes[i]).user_id == uid && votes[i].submission_id
            == sid
}

/// Some assignment pairs user `uid` with submission `sid`.
pub open spec fn has_assignment(asgs: Seq<VoteAssignment>, uid: i64, sid: i64) -> bool {
    exists|i: int|
        0 <= i < asgs.len() && (#[trigger] asgs[i]).user_id == uid && asgs[i].submission_id == sid
}

/// The first submission at or after index `i` owned by `uid`, if any.
pub open spec fn find_submission_from(subs: Seq<Submission>, uid: i64, i: int) -> Option<
    Submission,
>
    decreases subs.len() - i,
{
    if i < 0 || i >= subs.len() {
        None
    } else if subs[i].user_id == uid {
        Some(subs[i])
    } else {
        find_submission_from(subs, uid, i + 1)
    }
}

/// What a search for a user's submission yields, related back to the
/// stored sequence.
pub proof fn lemma_find_submission_from(subs: Seq<Submission>, uid: i64, i: int)
    requires
        0 <= i <= subs.len(),
    ensures
        match find_submission_from(subs, uid, i) {
            Option::None => forall|j: int|
                i <= j < subs.len() ==> (#[trigger] subs[j]).user_id != uid,
            Option::Some(s) => s.user_id == uid && exists|j: int|
                i <= j < subs.len() && #[trigger] subs[j] == s,
        },
    decreases subs.len() - i,
{
    if i < subs.len() {
        lemma_find_submission_from(subs, uid, i + 1);
    }
}

/// The index of the vote with id `vid` at or after index `i`, if any.
pub open spec fn find_vote_from(votes: Seq<Vote>, vid: i64, i: int) -> Option<int>
    decreases votes.len() - i,
{
    if i < 0 || i >= votes.len() {
        None
    } else if votes[i].id == vid {
        Some(i)
    } else {
        find_vote_from(votes, vid, i + 1)
    }
}

/// What a search for a vote id yields, related back to the stored sequence.
pub proof fn lemma_find_vote_from(votes: Seq<Vote>, vid: i64, i: int)
    requires
        0 <= i <= votes.len(),
    ensures
        match find_vote_from(votes, vid, i) {
            Option::None => forall|j: int| i <= j < votes.len() ==> (#[trigger] votes[j]).id != vid,
            Option::Some(j) => i <= j < votes.len() && votes[j].id == vid,
        },
    decreases votes.len() - i,
{
    if i < votes.len() {
        lemma_find_vote_from(votes, vid, i + 1);
    }
}

/// The index of the submission with id `sid` at or after index `i`, if any.
pub open spec fn find_sub_index_from(subs: Seq<Submission>, sid: i64, i: int) -> Option<int>
    decreases subs.len() - i,
{
    if i < 0 || i >= subs.len() {
        None
    } else if subs[i].id == sid {
        Some(i)
    } else {
        find_sub_index_from(subs, sid, i + 1)
    }
}

/// What a search for a submission id yields, related back to the stored
/// sequence.
pub proof fn lemma_find_sub_index_from(subs: Seq<Submission>, sid: i64, i: int)
    requires
        0 <= i <= subs.len(),
    ensures
        match find_sub_index_from(subs, sid, i) {
            Option::None => forall|j: int| i <= j < subs.len() ==> (#[trigger] subs[j]).id != sid,
            Option::Some(j) => i <= j < subs.len() && subs[j].id == sid,
        },
    decreases subs.len() - i,
{
    if i < subs.len() {
        lemma_find_sub_index_from(subs, sid, i + 1);
    }
}

/// A configuration overwritten with the bounds an update provides,
/// keeping the stored value wherever the update is silent.
pub open spec fn merged_config(base: Config, t: TimingUpdate) -> Config {
    Config {
        submission_start: if t.submission_start is Some {
            t.submission_start
        } else {
            base.submission_start
        },
        submission_end: if t.submission_end is Some {
            t.submission_end
        } else {
            base.submission_end
        },
        voting_start: if t.voting_start is Some {
            t.voting_start
        } else {
            base.voting_start
        },
        voting_end: if t.voting_end is Some {
            t.voting_end
        } else {
            base.voting_end
        },
        show_leaderboard: base.show_leaderboard,
        assigned: base.assigned,
        created_scores: base.created_scores,
    }
}

/// The owners of the stored submissions, in listing order: the users
/// eligible for review assignments.
pub open spec fn owner_seq(subs: Seq<Submission>) -> Seq<i64> {
    subs.map_values(|s: Submission| s.user_id)
}

/// The stored submissions as the assignment engine sees them.
pub open spec fn sub_refs(subs: Seq<Submission>) -> Seq<SubmissionRef> {
    subs.map_values(|s: Submission| SubmissionRef { id: s.id, user_id: s.user_id })
}

/// What one assignment engine run leaves behind, stated against the
/// submissions it ran over: the table holds exactly `min(6, n - 1)`
/// assignments for each of the `n` submitters, in place of whatever was
/// there before. Every entry names a submitter and one stored submission
/// that is not the voter's own, and no user sees a submission
/// twice.
pub open spec fn fresh_assignment_table(subs: Seq<Submission>, asgs: Seq<VoteAssignment>) -> bool {
    &&& asgs.len() == subs.len() * review_quota(subs.len() as int)
    &&& forall|i: int|
        0 <= i < subs.len() ==> assignments_of(asgs, (#[trigger] subs[i]).user_id).len()
            == review_quota(subs.len() as int)
    &&& forall|j: int|
        0 <= j < asgs.len() ==> is_valid_target(
            sub_refs(subs),
            (#[trigger] asgs[j]).user_id,
            asgs[j].submission_id,
        )
    &&& forall|j: int, t: int|
        0 <= j < asgs.len() && 0 <= t < subs.len() && (#[trigger] subs[t]).id == (
        #[trigger] asgs[j]).submission_id ==> subs[t].user_id != asgs[j].user_id
    &&& forall|j: int|
        0 <= j < asgs.len() ==> crate::assign::user_listed(
            owner_seq(subs),
            subs.len() as int,
            (#[trigger] asgs[j]).user_id,
        )
    &&& forall|j1: int, j2: int|
        0 <= j1 < j2 < asgs.len() && (#[trigger] asgs[j1]).user_id == (
        #[trigger] asgs[j2]).user_id ==> asgs[j1].submission_id != asgs[j2].submission_id
}

/// The whole competition state: the singleton configuration and the five
/// record tables, plus the id counters the store hands out from.
pub struct Store {
    pub config: Option<Config>,
    pub submissions: Vec<Submission>,
    pub votes: Vec<Vote>,
    pub assignments: Vec<VoteAssignment>,
    pub scores: Vec<Score>,
    pub admins: Vec<i64>,
    pub next_submission_id: i64,
    pub next_vote_id: i64,
}

impl Store {
    /// The store's invariant: ids are unique and below their counters,
    /// each user owns at most one submission, every stored vote is valid,
    /// and the tables stay within the sizes the arithmetic is exact for.
    pub open spec fn wf(self) -> bool {
        &&& submission_ids_distinct(self.submissions@)
        &&& submission_owners_distinct(self.submissions@)
        &&& forall|i: int|
            0 <= i < self.submissions@.len() ==> (#[trigger] self.submissions@[i]).id
                < self.next_submission_id
        &&& vote_ids_distinct(self.votes@)
        &&& forall|i: int|
            0 <= i < self.votes@.len() ==> (#[trigger] self.votes@[i]).id < self.next_vote_id
        &&& votes_valid(self.votes@)
        &&& self.submissions@.len() <= MAX_SUBMISSIONS
        &&& self.votes@.len() <= MAX_VOTES
    }

    /// An empty store: no configuration, no records, counters at one.
    pub fn new() -> (s: Store)
        ensures
            s.wf(),
            s.config is None,
            s.submissions@.len() == 0,
            s.votes@.len() == 0,
            s.assignments@.len() == 0,
            s.scores@.len() == 0,
            s.admins@.len() == 0,
            s.next_submission_id == 1,
            s.next_vote_id == 1,
    {
        Store {
            config: None,
            submissions: Vec::new(),
            votes: Vec::new(),
            assignments: Vec::new(),
            scores: Vec::new(),
            admins: Vec::new(),
            next_submission_id: 1,
            next_vote_id: 1,
        }
    }

    /// Records `user_id` as an admin.
    pub fn add_admin(&mut self, user_id: i64)
        requires
            old(self).wf(),
        ensures
            final(self).wf(),
            final(self).admins@ == old(self).admins@.push(user_id),
            final(self).config == old(self).config,
            final(self).submissions == old(self).submissions,
            final(self).votes == old(self).votes,
            final(self).assignments == old(self).assignments,
            final(self).scores == old(self).scores,
            final(self).next_submission_id == old(self).next_submission_id,
            final(self).next_vote_id == old(self).next_vote_id,
    {
        self.admins.push(user_id);
    }

    /// A user is an admin exactly when an admin record names them.
    pub fn is_admin(&self, user_id: i64) -> (r: bool)
        ensures
            r == self.admins@.contains(user_id),
    {
        let n = self.admins.len();
        let mut i: usize = 0;
        while i < n
            invariant
                n == self.admins@.len(),
                i <= n,
                forall|j: int| 0 <= j < i ==> self.admins@[j] != user_id,
            decreases n - i,
        {
            if self.admins[i] == user_id {
                return true;
            }
            i = i + 1;
        }
        false
    }

    /// The submission owned by `user_id`, if any.
    pub fn find_by_userid(&self, user_id: i64) -> (r: Option<&Submission>)
        ensures
            match r {
                Option::Some(s) => Some(*s) == find_submission_from(self.submissions@, user_id, 0),
                Option::None => find_submission_from(self.submissions@, user_id, 0) is None,
            },
            r is Some <==> has_submission_by(self.submissions@, user_id),
    {
        proof {
            lemma_find_submission_from(self.submissions@, user_id, 0);
        }
        let n = self.submissions.len();
        let mut i: usize = 0;
        while i < n
            invariant
                n == self.submissions@.len(),
                i <= n,
                find_submission_from(self.submissions@, user_id, 0) == find_submission_from(
                    self.submissions@,
                    user_id,
                    i as int,
                ),
            decreases n - i,
        {
            if self.submissions[i].user_id == user_id {
                return Some(&self.submissions[i]);
            }
            i = i + 1;
        }
        None
    }

    /// The caller's own submission; absent when they have none.
    pub fn submission_mine(&self, user_id: i64) -> (r: Result<&Submission, GateError>)
        ensures
            r is Ok <==> has_submission_by(self.submissions@, user_id),
            r matches Ok(s) ==> Some(*s) == find_submission_from(self.submissions@, user_id, 0),
            r is Err ==> r == Err::<&Submission, GateError>(GateError::NotFound),
    {
        match self.find_by_userid(user_id) {
            Some(s) => Ok(s),
            None => Err(GateError::NotFound),
        }
    }

    /// The caller's votes, in casting order.
    pub fn votes_mine(&self, user_id: i64) -> (r: Vec<Vote>)
        ensures
            r@ == self.votes@.filter(|v: Vote| v.user_id == user_id),
    {
        let pred = |v: Vote| v.user_id == user_id;
        let mut r: Vec<Vote> = Vec::new();
        proof {
            reveal(Seq::filter);
            assert(self.votes@.take(0) =~= Seq::<Vote>::empty());
            assert(r@ =~= self.votes@.take(0).filter(|v: Vote| v.user_id == user_id));
        }
        let n = self.votes.len();
        let mut i: usize = 0;
        while i < n
            invariant
                n == self.votes@.len(),
                i <= n,
                r@ == self.votes@.take(i as int).filter(|v: Vote| v.user_id == user_id),
            decreases n - i,
        {
            let v = self.votes[i];
            if v.user_id == user_id {
                r.push(v);
            }
            proof {
                let spred = |v: Vote| v.user_id == user_id;
                self.votes@.take(i as int).lemma_filter_push(self.votes@[i as int], spred);
                assert(self.votes@.take(i + 1) =~= self.votes@.take(i as int).push(
                    self.votes@[i as int],
                ));
            }
            i = i + 1;
        }
        proof {
            assert(self.votes@.take(n as int) =~= self.votes@);
        }
        r
    }

    /// The caller's review assignments, in order.
    pub fn assignments_mine(&self, user_id: i64) -> (r: Vec<VoteAssignment>)
        ensures
            r@ == assignments_of(self.assignments@, user_id),
    {
        let mut r: Vec<VoteAssignment> = Vec::new();
        proof {
            reveal(Seq::filter);
            assert(self.assignments@.take(0) =~= Seq::<VoteAssignment>::empty());
            assert(r@ =~= assignments_of(self.assignments@.take(0), user_id));
        }
        let n = self.assignments.len();
        let mut i: usize = 0;
        while i < n
            invariant
                n == self.assignments@.len(),
                i <= n,
                r@ == assignments_of(self.assignments@.take(i as int), user_id),
            decreases n - i,
        {
            let a = self.assignments[i];
            if a.user_id == user_id {
                r.push(a);
            }
            proof {
                let spred = |a: VoteAssignment| a.user_id == user_id;
                self.assignments@.take(i as int).lemma_filter_push(
                    self.assignments@[i as int],
                    spred,
                );
                assert(self.assignments@.take(i + 1) =~= self.assignments@.take(i as int).push(
                    self.assignments@[i as int],
                ));
            }
            i = i + 1;
        }
        proof {
            assert(self.assignments@.take(n as int) =~= self.assignments@);
        }
        r
    }

    /// The current configuration; absent until first written.
    pub fn config_get(&self) -> (r: Result<Config, GateError>)
        ensures
            r is Ok <==> self.config is Some,
            r matches Ok(c) ==> Some(c) == self.config,
            r is Err ==> r == Err::<Config, GateError>(GateError::NotFound),
    {
        match &self.config {
            Some(c) => Ok(*c),
            None => Err(GateError::NotFound),
        }
    }

    /// The leaderboard: the stored scores, but only once a configuration
    /// exists and has made the leaderboard visible.
    pub fn scores_view(&self) -> (r: Result<Vec<Score>, GateError>)
        ensures
            r is Ok <==> (self.config matches Some(c) && c.show_leaderboard),
            r matches Ok(v) ==> v@ == self.scores@,
            r is Err ==> r == Err::<Vec<Score>, GateError>(GateError::NotFound),
    {
        let visible = match &self.config {
            Some(c) => c.show_leaderboard,
            None => false,
        };
        if !visible {
            return Err(GateError::NotFound);
        }
        let mut out: Vec<Score> = Vec::new();
        proof {
            assert(out@ =~= self.scores@.take(0));
        }
        let n = self.scores.len();
        let mut i: usize = 0;
        while i < n
            invariant
                n == self.scores@.len(),
                i <= n,
                out@ == self.scores@.take(i as int),
            decreases n - i,
        {
            out.push(self.scores[i]);
            proof {
                assert(self.scores@.take(i + 1) =~= self.scores@.take(i as int).push(
                    self.scores@[i as int],
                ));
            }
            i = i + 1;
        }
        proof {
            assert(self.scores@.take(n as int) =~= self.scores@);
        }
        Ok(out)
    }

    /// A stored vote by `user_id` on `sid` exists.
    fn has_vote(&self, user_id: i64, sid: i64) -> (r: bool)
        ensures
            r == has_vote_by(self.votes@, user_id, sid),
    {
        let n = self.votes.len();
        let mut i: usize = 0;
        while i < n
            invariant
                n == self.votes@.len(),
                i <= n,
                forall|j: int|
                    0 <= j < i ==> !((#[trigger] self.votes@[j]).user_id == user_id
                        && self.votes@[j].submission_id == sid),
            decreases n - i,
        {
            if self.votes[i].user_id == user_id && self.votes[i].submission_id == sid {
                return true;
            }
            i = i + 1;
        }
        false
    }

    /// The position of the vote with id `vote_id`, if stored.
    fn vote_index(&self, vote_id: i64) -> (r: Option<usize>)
        ensures
            match r {
                Option::Some(j) => Some(j as int) == find_vote_from(self.votes@, vote_id, 0),
                Option::None => find_vote_from(self.votes@, vote_id, 0) is None,
            },
    {
        let n = self.votes.len();
        let mut i: usize = 0;
        while i < n
            invariant
                n == self.votes@.len(),
                i <= n,
                find_vote_from(self.votes@, vote_id, 0) == find_vote_from(
                    self.votes@,
                    vote_id,
                    i as int,
                ),
            decreases n - i,
        {
            if self.votes[i].id == vote_id {
                return Some(i);
            }
            i = i + 1;
        }
        None
    }

    /// An assignment pairing `user_id` with submission `sid` exists.
    fn assignment_exists(&self, user_id: i64, sid: i64) -> (r: bool)
        ensures
            r == has_assignment(self.assignments@, user_id, sid),
    {
        let n = self.assignments.len();
        let mut i: usize = 0;
        while i < n
            invariant
                n == self.assignments@.len(),
                i <= n,
                forall|j: int|
                    0 <= j < i ==> !((#[trigger] self.assignments@[j]).user_id == user_id
                        && self.assignments@[j].submission_id == sid),
            decreases n - i,
        {
            if self.assignments[i].user_id == user_id && self.assignments[i].submission_id == sid {
                return true;
            }
            i = i + 1;
        }
        false
    }

    /// Creates the caller's submission at instant `now`: refused when the
    /// caller already has one, and when the submission window is missing a
    /// bound or does not contain `now`.
    pub fn submit_at(&mut self, now: i64, user_id: i64, params: SubmissionParams) -> (r: Result<
        i64,
        GateError,
    >)
        requires
            old(self).wf(),
            old(self).submissions@.len() < MAX_SUBMISSIONS,
            old(self).next_submission_id < i64::MAX,
        ensures
            final(self).wf(),
            r is Ok <==> (!has_submission_by(old(self).submissions@, user_id) && (old(
                self,
            ).config matches Some(c) && submission_window_open(c, now))),
            has_submission_by(old(self).submissions@, user_id) ==> r == Err::<i64, GateError>(
                GateError::Duplicate,
            ),
            (!has_submission_by(old(self).submissions@, user_id) && !(old(
                self,
            ).config matches Some(c) && submission_window_open(c, now))) ==> r == Err::<
                i64,
                GateError,
            >(GateError::WindowClosed),
            r is Err ==> *final(self) == *old(self),
            r matches Ok(id) ==> id == old(self).next_submission_id && final(self).submissions@
                == old(self).submissions@.push(
                (Submission { id, user_id, content: params }),
            ) && final(self).next_submission_id == old(self).next_submission_id + 1,
            final(self).config == old(self).config,
            final(self).votes == old(self).votes,
            final(self).assignments == old(self).assignments,
            final(self).scores == old(self).scores,
            final(self).admins == old(self).admins,
            final(self).next_vote_id == old(self).next_vote_id,
    {
        let dup = match self.find_by_userid(user_id) {
            Some(_) => true,
            None => false,
        };
        if dup {
            return Err(GateError::Duplicate);
        }
        let open = match &self.config {
            Some(c) => check_window(&c.submission_start, &c.submission_end, now),
            None => false,
        };
        if !open {
            return Err(GateError::WindowClosed);
        }
        let id = self.next_submission_id;
        self.next_submission_id = id + 1;
        self.submissions.push(Submission { id, user_id, content: params });
        proof {
            assert forall|a: int, b: int|
                0 <= a < b < self.submissions@.len() implies (#[trigger] self.submissions@[a]).user_id
                != (#[trigger] self.submissions@[b]).user_id by {
                if b == self.submissions@.len() - 1 {
                    assert(!has_submission_by(old(self).submissions@, user_id));
                    assert(old(self).submissions@[a].user_id != user_id);
                }
            }
        }
        Ok(id)
    }

    /// Casts a vote at instant `now`: scores must lie in `[0, 5]`, the
    /// caller must not have voted on this submission before, and the
    /// voting window must contain `now`. The error precedence follows the
    /// checks: score range, then duplicate, then window.
    pub fn vote_add_at(&mut self, now: i64, user_id: i64, params: VoteParams) -> (r: Result<
        i64,
        GateError,
    >)
        requires
            old(self).wf(),
            old(self).votes@.len() < MAX_VOTES,
            old(self).next_vote_id < i64::MAX,
        ensures
            final(self).wf(),
            r is Ok <==> (first_invalid(params) is None && !has_vote_by(
                old(self).votes@,
                user_id,
                params.submission_id,
            ) && (old(self).config matches Some(c) && voting_window_open(c, now))),
            first_invalid(params) matches Some(c) ==> r == Err::<i64, GateError>(
                (GateError::ScoreOutOfRange { field: c, value: params.spec_score(c) }),
            ),
            (first_invalid(params) is None && has_vote_by(
                old(self).votes@,
                user_id,
                params.submission_id,
            )) ==> r == Err::<i64, GateError>(GateError::Duplicate),
            (first_invalid(params) is None && !has_vote_by(
                old(self).votes@,
                user_id,
                params.submission_id,
            ) && !(old(self).config matches Some(c) && voting_window_open(c, now))) ==> r == Err::<
                i64,
                GateError,
            >(GateError::WindowClosed),
            r is Err ==> *final(self) == *old(self),
            r matches Ok(id) ==> id == old(self).next_vote_id && final(self).votes@ == old(
                self,
            ).votes@.push(params.spec_to_vote(id, user_id)) && final(self).next_vote_id == old(
                self,
            ).next_vote_id + 1,
            final(self).config == old(self).config,
            final(self).submissions == old(self).submissions,
            final(self).assignments == old(self).assignments,
            final(self).scores == old(self).scores,
            final(self).admins == old(self).admins,
            final(self).next_submission_id == old(self).next_submission_id,
    {
        match validate_scores(&params) {
            Ok(_) => {},
            Err(e) => {
                return Err(e);
            },
        }
        if self.has_vote(user_id, params.submission_id) {
            return Err(GateError::Duplicate);
        }
        let open = match &self.config {
            Some(c) => check_window(&c.voting_start, &c.voting_end, now),
            None => false,
        };
        if !open {
            return Err(GateError::WindowClosed);
        }
        let id = self.next_vote_id;
        self.next_vote_id = id + 1;
        let vote = params.to_vote(id, user_id);
        proof {
            assert forall|c: crate::types::Criterion| 0 <= #[trigger] vote.spec_score(c) <= 5 by {
                assert(vote.spec_score(c) == params.spec_score(c));
            }
        }
        self.votes.push(vote);
        Ok(id)
    }

    /// Rewrites the caller's own vote at instant `now`, under the same
    /// score validation and window check as casting. The error precedence
    /// follows the checks: missing vote, then ownership, then score range,
    /// then window.
    pub fn vote_update_at(&mut self, now: i64, user_id: i64, vote_id: i64, params: VoteParams) -> (
    r: Result<(), GateError>)
        requires
            old(self).wf(),
        ensures
            final(self).wf(),
            find_vote_from(old(self).votes@, vote_id, 0) is None ==> r == Err::<(), GateError>(
                GateError::NotFound,
            ),
            (find_vote_from(old(self).votes@, vote_id, 0) matches Some(j) && old(
                self,
            ).votes@[j].user_id != user_id) ==> r == Err::<(), GateError>(GateError::Unauthorized),
            (find_vote_from(old(self).votes@, vote_id, 0) matches Some(j) && old(
                self,
            ).votes@[j].user_id == user_id && first_invalid(params) is Some) ==> (first_invalid(
                params,
            ) matches Some(c) && r == Err::<(), GateError>(
                (GateError::ScoreOutOfRange { field: c, value: params.spec_score(c) }),
            )),
            (find_vote_from(old(self).votes@, vote_id, 0) matches Some(j) && old(
                self,
            ).votes@[j].user_id == user_id && first_invalid(params) is None && !(old(
                self,
            ).config matches Some(c) && voting_window_open(c, now))) ==> r == Err::<(), GateError>(
                GateError::WindowClosed,
            ),
            r is Ok <==> (find_vote_from(old(self).votes@, vote_id, 0) matches Some(j) && old(
                self,
            ).votes@[j].user_id == user_id && first_invalid(params) is None && (old(
                self,
            ).config matches Some(c) && voting_window_open(c, now))),
            r is Err ==> *final(self) == *old(self),
            r is Ok ==> (find_vote_from(old(self).votes@, vote_id, 0) matches Some(j) && final(self).votes@ == old(self).votes@.update(j, params.spec_to_vote(vote_id, user_id))),
            final(self).config == old(self).config,
            final(self).submissions == old(self).submissions,
            final(self).assignments == old(self).assignments,
            final(self).scores == old(self).scores,
            final(self).admins == old(self).admins,
            final(self).next_submission_id == old(self).next_submission_id,
            final(self).next_vote_id == old(self).next_vote_id,
    {
        let idx = match self.vote_index(vote_id) {
            Some(j) => j,
            None => {
                return Err(GateError::NotFound);
            },
        };
        proof {
            lemma_find_vote_from(self.votes@, vote_id, 0);
        }
        if self.votes[idx].user_id != user_id {
            return Err(GateError::Unauthorized);
        }
        match validate_scores(&params) {
            Ok(_) => {},
            Err(e) => {
                return Err(e);
            },
        }
        let open = match &self.config {
            Some(c) => check_window(&c.voting_start, &c.voting_end, now),
            None => false,
        };
        if !open {
            return Err(GateError::WindowClosed);
        }
        let vote = params.to_vote(vote_id, user_id);
        proof {
            assert forall|c: crate::types::Criterion| 0 <= #[trigger] vote.spec_score(c) <= 5 by {
                assert(vote.spec_score(c) == params.spec_score(c));
            }
        }
        self.votes[idx] = vote;
        proof {
            assert(self.votes@ =~= old(self).votes@.update(idx as int, vote));
            assert forall|a: int, b: int|
                0 <= a < b < self.votes@.len() implies (#[trigger] self.votes@[a]).id != (
            #[trigger] self.votes@[b]).id by {
                assert(old(self).votes@[a].id != old(self).votes@[b].id);
            }
        }
        Ok(())
    }

    /// The vote with the given id.
    pub fn vote_get(&self, vote_id: i64) -> (r: Result<Vote, GateError>)
        ensures
            r is Ok <==> find_vote_from(self.votes@, vote_id, 0) is Some,
            r matches Ok(v) ==> (find_vote_from(self.votes@, vote_id, 0) matches Some(j) && v
                == self.votes@[j]),
            r is Err ==> r == Err::<Vote, GateError>(GateError::NotFound),
    {
        proof {
            lemma_find_vote_from(self.votes@, vote_id, 0);
        }
        match self.vote_index(vote_id) {
            Some(j) => Ok(self.votes[j]),
            None => Err(GateError::NotFound),
        }
    }

    /// Deletes the vote with the given id.
    pub fn vote_remove(&mut self, vote_id: i64) -> (r: Result<Vote, GateError>)
        requires
            old(self).wf(),
        ensures
            final(self).wf(),
            r is Ok <==> find_vote_from(old(self).votes@, vote_id, 0) is Some,
            r is Err ==> r == Err::<Vote, GateError>(GateError::NotFound) && *final(self) == *old(
                self,
            ),
            r matches Ok(v) ==> (find_vote_from(old(self).votes@, vote_id, 0) matches Some(j) && v
                == old(self).votes@[j] && final(self).votes@ == old(self).votes@.remove(j)),
            final(self).config == old(self).config,
            final(self).submissions == old(self).submissions,
            final(self).assignments == old(self).assignments,
            final(self).scores == old(self).scores,
            final(self).admins == old(self).admins,
            final(self).next_submission_id == old(self).next_submission_id,
            final(self).next_vote_id == old(self).next_vote_id,
    {
        let idx = match self.vote_index(vote_id) {
            Some(j) => j,
            None => {
                return Err(GateError::NotFound);
            },
        };
        proof {
            lemma_find_vote_from(self.votes@, vote_id, 0);
        }
        let v = self.votes.remove(idx);
        proof {
            assert forall|a: int, b: int|
                0 <= a < b < self.votes@.len() implies (#[trigger] self.votes@[a]).id != (
            #[trigger] self.votes@[b]).id by {
                let a0: int = if a < idx as int {
                    a
                } else {
                    a + 1
                };
                let b0: int = if b < idx as int {
                    b
                } else {
                    b + 1
                };
                assert(self.votes@[a] == old(self).votes@[a0]);
                assert(self.votes@[b] == old(self).votes@[b0]);
                assert(old(self).votes@[a0].id != old(self).votes@[b0].id);
            }
            assert forall|i: int| 0 <= i < self.votes@.len() implies (
            #[trigger] self.votes@[i]).valid() && self.votes@[i].id < self.next_vote_id by {
                let i0: int = if i < idx as int {
                    i
                } else {
                    i + 1
                };
                assert(self.votes@[i] == old(self).votes@[i0]);
                assert(old(self).votes@[i0].valid());
            }
        }
        Ok(v)
    }

    /// Reads one submission: the owner, an admin, or a user assigned
    /// to it may see it.
    pub fn submission_get(&self, actor: i64, id: i64) -> (r: Result<&Submission, GateError>)
        ensures
            find_sub_index_from(self.submissions@, id, 0) is None ==> r == Err::<
                &Submission,
                GateError,
            >(GateError::NotFound),
            r is Ok <==> (find_sub_index_from(self.submissions@, id, 0) matches Some(j) && (
            self.submissions@[j].user_id == actor || self.admins@.contains(actor) || has_assignment(
                self.assignments@,
                actor,
                id,
            ))),
            r matches Ok(s) ==> (find_sub_index_from(self.submissions@, id, 0) matches Some(j) && *s
                == self.submissions@[j]),
            (find_sub_index_from(self.submissions@, id, 0) matches Some(j) && !(
            self.submissions@[j].user_id == actor || self.admins@.contains(actor) || has_assignment(
                self.assignments@,
                actor,
                id,
            ))) ==> r == Err::<&Submission, GateError>(GateError::Unauthorized),
    {
        let n = self.submissions.len();
        let mut i: usize = 0;
        while i < n
            invariant
                n == self.submissions@.len(),
                i <= n,
                find_sub_index_from(self.submissions@, id, 0) == find_sub_index_from(
                    self.submissions@,
                    id,
                    i as int,
                ),
            decreases n - i,
        {
            if self.submissions[i].id == id {
                let allowed = self.submissions[i].user_id == actor || self.is_admin(actor)
                    || self.assignment_exists(actor, id);
                if allowed {
                    return Ok(&self.submissions[i]);
                } else {
                    return Err(GateError::Unauthorized);
                }
            }
            i = i + 1;
        }
        Err(GateError::NotFound)
    }

    /// Rewrites a submission's content: its owner or an admin may, at any
    /// time.
    pub fn submission_update(&mut self, actor: i64, id: i64, params: SubmissionParams) -> (r:
        Result<(), GateError>)
        requires
            old(self).wf(),
        ensures
            final(self).wf(),
            find_sub_index_from(old(self).submissions@, id, 0) is None ==> r == Err::<
                (),
                GateError,
            >(GateError::NotFound),
            r is Ok <==> (find_sub_index_from(old(self).submissions@, id, 0) matches Some(j) && (
            old(self).submissions@[j].user_id == actor || old(self).admins@.contains(actor))),
            (find_sub_index_from(old(self).submissions@, id, 0) matches Some(j) && !(old(
                self,
            ).submissions@[j].user_id == actor || old(self).admins@.contains(actor))) ==> r
                == Err::<(), GateError>(GateError::Unauthorized),
            r is Err ==> *final(self) == *old(self),
            r is Ok ==> (find_sub_index_from(old(self).submissions@, id, 0) matches Some(j)
                && final(self).submissions@ == old(self).submissions@.update(
                j,
                (Submission {
                    id: old(self).submissions@[j].id,
                    user_id: old(self).submissions@[j].user_id,
                    content: params,
                }),
            )),
            final(self).config == old(self).config,
            final(self).votes == old(self).votes,
            final(self).assignments == old(self).assignments,
            final(self).scores == old(self).scores,
            final(self).admins == old(self).admins,
            final(self).next_submission_id == old(self).next_submission_id,
            final(self).next_vote_id == old(self).next_vote_id,
    {
        let n = self.submissions.len();
        let mut i: usize = 0;
        while i < n
            invariant
                n == self.submissions@.len(),
                i <= n,
                find_sub_index_from(self.submissions@, id, 0) == find_sub_index_from(
                    self.submissions@,
                    id,
                    i as int,
                ),
                *self == *old(self),
                old(self).wf(),
            decreases n - i,
        {
            if self.submissions[i].id == id {
                let allowed = self.submissions[i].user_id == actor || self.is_admin(actor);
                if !allowed {
                    return Err(GateError::Unauthorized);
                }
                let sub_id = self.submissions[i].id;
                let owner = self.submissions[i].user_id;
                self.submissions[i] = Submission { id: sub_id, user_id: owner, content: params };
                proof {
                    assert(self.submissions@ =~= old(self).submissions@.update(
                        i as int,
                        (Submission { id: sub_id, user_id: owner, content: params }),
                    ));
                    assert forall|a: int, b: int|
                        0 <= a < b < self.submissions@.len() implies (
                    #[trigger] self.submissions@[a]).id != (#[trigger] self.submissions@[b]).id && (
                    self.submissions@[a]).user_id != (self.submissions@[b]).user_id by {
                        assert(old(self).submissions@[a].id != old(self).submissions@[b].id);
                        assert(old(self).submissions@[a].user_id != old(
                            self,
                        ).submissions@[b].user_id);
                    }
                }
                return Ok(());
            }
            i = i + 1;
        }
        Err(GateError::NotFound)
    }

    /// An admin rewrites the four window bounds; the values given replace
    /// the stored ones outright, absent bounds clearing them.
    pub fn config_update(&mut self, actor: i64, t: TimingUpdate) -> (r: Result<Config, GateError>)
        requires
            old(self).wf(),
        ensures
            final(self).wf(),
            !old(self).admins@.contains(actor) ==> r == Err::<Config, GateError>(
                GateError::Unauthorized,
            ),
            (old(self).admins@.contains(actor) && old(self).config is None) ==> r == Err::<
                Config,
                GateError,
            >(GateError::NotFound),
            r is Ok <==> (old(self).admins@.contains(actor) && old(self).config is Some),
            r is Err ==> *final(self) == *old(self),
            r matches Ok(c) ==> (old(self).config matches Some(b) && c == (Config {
                submission_start: t.submission_start,
                submission_end: t.submission_end,
                voting_start: t.voting_start,
                voting_end: t.voting_end,
                show_leaderboard: b.show_leaderboard,
                assigned: b.assigned,
                created_scores: b.created_scores,
            }) && final(self).config == Some(c)),
            final(self).submissions == old(self).submissions,
            final(self).votes == old(self).votes,
            final(self).assignments == old(self).assignments,
            final(self).scores == old(self).scores,
            final(self).admins == old(self).admins,
            final(self).next_submission_id == old(self).next_submission_id,
            final(self).next_vote_id == old(self).next_vote_id,
    {
        if !self.is_admin(actor) {
            return Err(GateError::Unauthorized);
        }
        let base = match &self.config {
            Some(c) => *c,
            None => {
                return Err(GateError::NotFound);
            },
        };
        let c = Config {
            submission_start: t.submission_start,
            submission_end: t.submission_end,
            voting_start: t.voting_start,
            voting_end: t.voting_end,
            show_leaderboard: base.show_leaderboard,
            assigned: base.assigned,
            created_scores: base.created_scores,
        };
        self.config = Some(c);
        Ok(c)
    }

    /// The timing task's write: creates the configuration on first use,
    /// then overwrites exactly the bounds the update provides.
    pub fn apply_timings(&mut self, t: TimingUpdate)
        requires
            old(self).wf(),
        ensures
            final(self).wf(),
            old(self).config matches Some(b) ==> final(self).config == Some(merged_config(b, t)),
            old(self).config is None ==> final(self).config == Some(
                merged_config(
                    (Config {
                        submission_start: None,
                        submission_end: None,
                        voting_start: None,
                        voting_end: None,
                        show_leaderboard: false,
                        assigned: false,
                        created_scores: false,
                    }),
                    t,
                ),
            ),
            final(self).submissions == old(self).submissions,
            final(self).votes == old(self).votes,
            final(self).assignments == old(self).assignments,
            final(self).scores == old(self).scores,
            final(self).admins == old(self).admins,
            final(self).next_submission_id == old(self).next_submission_id,
            final(self).next_vote_id == old(self).next_vote_id,
    {
        let base = match &self.config {
            Some(c) => *c,
            None => Config::new(),
        };
        let c = Config {
            submission_start: match t.submission_start {
                Some(v) => Some(v),
                None => base.submission_start,
            },
            submission_end: match t.submission_end {
                Some(v) => Some(v),
                None => base.submission_end,
            },
            voting_start: match t.voting_start {
                Some(v) => Some(v),
                None => base.voting_start,
            },
            voting_end: match t.voting_end {
                Some(v) => Some(v),
                None => base.voting_end,
            },
            show_leaderboard: base.show_leaderboard,
            assigned: base.assigned,
            created_scores: base.created_scores,
        };
        self.config = Some(c);
    }

    /// The visibility task's write: sets the leaderboard flag when a value
    /// is given, and leaves it as stored when none is (an unusable value
    /// at the surface changes nothing). Fails when no configuration
    /// exists yet.
    pub fn set_show_leaderboard(&mut self, show: Option<bool>) -> (r: Result<(), GateError>)
        requires
            old(self).wf(),
        ensures
            final(self).wf(),
            r is Ok <==> old(self).config is Some,
            r is Err ==> r == Err::<(), GateError>(GateError::NotFound) && *final(self) == *old(
                self,
            ),
            (old(self).config is Some && show is Some) ==> (old(self).config matches Some(b)
                && show matches Some(v) && final(self).config == Some(
                (Config { show_leaderboard: v, ..b }),
            )),
            (old(self).config is Some && show is None) ==> final(self).config == old(self).config,
            final(self).submissions == old(self).submissions,
            final(self).votes == old(self).votes,
            final(self).assignments == old(self).assignments,
            final(self).scores == old(self).scores,
            final(self).admins == old(self).admins,
            final(self).next_submission_id == old(self).next_submission_id,
            final(self).next_vote_id == old(self).next_vote_id,
    {
        let base = match &self.config {
            Some(c) => *c,
            None => {
                return Err(GateError::NotFound);
            },
        };
        let c = match show {
            Some(v) => Config { show_leaderboard: v, ..base },
            None => base,
        };
        self.config = Some(c);
        Ok(())
    }

    /// The assignment engine run: discards every existing assignment,
    /// shuffles the submissions once, and rebuilds the whole table by the
    /// rotation scan — a full replace, never a merge.
    pub fn run_assignment(&mut self)
        requires
            old(self).wf(),
        ensures
            final(self).wf(),
            fresh_assignment_table(old(self).submissions@, final(self).assignments@),
            final(self).config == old(self).config,
            final(self).submissions == old(self).submissions,
            final(self).votes == old(self).votes,
            final(self).scores == old(self).scores,
            final(self).admins == old(self).admins,
            final(self).next_submission_id == old(self).next_submission_id,
            final(self).next_vote_id == old(self).next_vote_id,
    {
        let n = self.submissions.len();
        let mut refs: Vec<SubmissionRef> = Vec::new();
        let mut users: Vec<i64> = Vec::new();
        proof {
            assert(refs@ =~= sub_refs(self.submissions@.take(0)));
            assert(users@ =~= owner_seq(self.submissions@.take(0)));
        }
        let mut i: usize = 0;
        while i < n
            invariant
                n == self.submissions@.len(),
                i <= n,
                refs@ == sub_refs(self.submissions@.take(i as int)),
                users@ == owner_seq(self.submissions@.take(i as int)),
            decreases n - i,
        {
            let id = self.submissions[i].id;
            let owner = self.submissions[i].user_id;
            refs.push(SubmissionRef { id, user_id: owner });
            users.push(owner);
            proof {
                assert(self.submissions@.take(i + 1) =~= self.submissions@.take(i as int).push(
                    self.submissions@[i as int],
                ));
                assert(refs@ =~= sub_refs(self.submissions@.take(i + 1)));
                assert(users@ =~= owner_seq(self.submissions@.take(i + 1)));
            }
            i = i + 1;
        }
        proof {
            assert(self.submissions@.take(n as int) =~= self.submissions@);
        }
        let ghost orig_refs = sub_refs(self.submissions@);
        proof {
            assert forall|a: int, b: int| 0 <= a < b < orig_refs.len() implies (
            #[trigger] orig_refs[a]).id != (#[trigger] orig_refs[b]).id && (
            orig_refs[a]).user_id != (orig_refs[b]).user_id by {
                assert(self.submissions@[a].id != self.submissions@[b].id);
                assert(self.submissions@[a].user_id != self.submissions@[b].user_id);
            }
            assert(distinct_users(users@));
        }
        crate::external::shuffle_submissions(&mut refs);
        proof {
            crate::assign::lemma_perm_distinct(orig_refs, refs@);
            crate::assign::lemma_perm_distinct(refs@, orig_refs);
            let k = review_quota(refs@.len() as int);
            assert(0 <= k <= 6);
            assert(users@.len() * k <= 0x0aaa_aaaa * 6) by (nonlinear_arith)
                requires
                    0 <= k <= 6,
                    users@.len() <= 0x0aaa_aaaa,
            ;
        }
        let asgs = crate::assign::assign_reviewers(&users, &refs);
        self.assignments = asgs;
        proof {
            let subs = self.submissions@;
            let table = self.assignments@;
            let k = review_quota(subs.len() as int);
            assert forall|idx: int| 0 <= idx < subs.len() implies assignments_of(
                table,
                (#[trigger] subs[idx]).user_id,
            ).len() == k by {
                assert(users@[idx] == subs[idx].user_id);
            }
            assert forall|j: int| 0 <= j < table.len() implies is_valid_target(
                orig_refs,
                (#[trigger] table[j]).user_id,
                table[j].submission_id,
            ) by {
                crate::assign::lemma_valid_target_perm(
                    orig_refs,
                    refs@,
                    table[j].user_id,
                    table[j].submission_id,
                );
            }
            assert forall|j: int, t: int|
                0 <= j < table.len() && 0 <= t < subs.len() && (#[trigger] subs[t]).id == (
                #[trigger] table[j]).submission_id implies subs[t].user_id != table[j].user_id by {
                let t2 = choose|t2: int|
                    0 <= t2 < orig_refs.len() && (#[trigger] orig_refs[t2]).id
                        == table[j].submission_id && orig_refs[t2].user_id != table[j].user_id;
                if t < t2 {
                    assert(orig_refs[t].id != orig_refs[t2].id);
                } else if t2 < t {
                    assert(orig_refs[t2].id != orig_refs[t].id);
                }
            }
            assert forall|j: int| 0 <= j < table.len() implies crate::assign::user_listed(
                owner_seq(subs),
                subs.len() as int,
                (#[trigger] table[j]).user_id,
            ) by {
                assert(crate::assign::user_listed(users@, users@.len() as int, table[j].user_id));
            }
        }
    }

    /// The scoring engine run: discards every existing score row and
    /// rebuilds the table from all current votes — a full rebuild, never
    /// an upsert.
    pub fn run_scoring(&mut self)
        requires
            old(self).wf(),
        ensures
            final(self).wf(),
            final(self).scores@ == scores_spec(old(self).submissions@, old(self).votes@),
            forall|i: int|
                0 <= i < final(self).scores@.len() ==> score_in_range(
                    #[trigger] final(self).scores@[i],
                ),
            final(self).config == old(self).config,
            final(self).submissions == old(self).submissions,
            final(self).votes == old(self).votes,
            final(self).assignments == old(self).assignments,
            final(self).admins == old(self).admins,
            final(self).next_submission_id == old(self).next_submission_id,
            final(self).next_vote_id == old(self).next_vote_id,
    {
        let new_scores = compute_scores(&self.submissions, &self.votes);
        self.scores = new_scores;
    }

    /// One orchestrator tick at instant `now`. With no configuration the
    /// tick is a no-op. Otherwise each rule fires independently — the
    /// assignment engine once the submission window's end has passed, the
    /// scoring engine once the voting window's end has passed — and the
    /// fired rule's one-shot flag is written back, which is what makes
    /// the next tick skip that phase.
    pub fn tick_at(&mut self, now: i64)
        requires
            old(self).wf(),
        ensures
            final(self).wf(),
            old(self).config is None ==> *final(self) == *old(self),
            final(self).submissions == old(self).submissions,
            final(self).votes == old(self).votes,
            final(self).admins == old(self).admins,
            final(self).next_submission_id == old(self).next_submission_id,
            final(self).next_vote_id == old(self).next_vote_id,
            old(self).config matches Some(c) ==> (final(self).config matches Some(c2)
                && c2.submission_start == c.submission_start && c2.submission_end
                == c.submission_end && c2.voting_start == c.voting_start && c2.voting_end
                == c.voting_end && c2.show_leaderboard == c.show_leaderboard && c2.assigned == (
            c.assigned || should_assign(c, now)) && c2.created_scores == (c.created_scores
                || should_score(c, now))),
            (old(self).config matches Some(c) && should_assign(c, now)) ==> fresh_assignment_table(
                old(self).submissions@,
                final(self).assignments@,
            ),
            (old(self).config matches Some(c) && !should_assign(c, now)) ==> final(self).assignments == old(self).assignments,
            (old(self).config matches Some(c) && should_score(c, now)) ==> final(self).scores@
                == scores_spec(old(self).submissions@, old(self).votes@),
            (old(self).config matches Some(c) && !should_score(c, now)) ==> final(self).scores
                == old(self).scores,
    {
        let c = match &self.config {
            Some(c) => *c,
            None => {
                return ;
            },
        };
        let (run_assign, run_score) = tick_decision(&c, now);
        if run_assign {
            self.run_assignment();
        }
        if run_score {
            self.run_scoring();
        }
        let updated = Config {
            assigned: c.assigned || run_assign,
            created_scores: c.created_scores || run_score,
            ..c
        };
        self.config = Some(updated);
    }

    /// Creates the caller's submission at the current instant; see
    /// [`Store::submit_at`], which this runs at the clock's value. Only
    /// the window check depends on the instant: a duplicate is always
    /// refused as such, a missing configuration always closes the window,
    /// and no other error can come back.
    pub fn submit(&mut self, user_id: i64, params: SubmissionParams) -> (r: Result<i64, GateError>)
        requires
            old(self).wf(),
            old(self).submissions@.len() < MAX_SUBMISSIONS,
            old(self).next_submission_id < i64::MAX,
        ensures
            final(self).wf(),
            r == Err::<i64, GateError>(GateError::Duplicate) <==> has_submission_by(
                old(self).submissions@,
                user_id,
            ),
            (!has_submission_by(old(self).submissions@, user_id) && old(self).config is None) ==> r
                == Err::<i64, GateError>(GateError::WindowClosed),
            r is Err ==> r == Err::<i64, GateError>(GateError::Duplicate) || r == Err::<
                i64,
                GateError,
            >(GateError::WindowClosed),
            r is Err ==> *final(self) == *old(self),
            r matches Ok(id) ==> id == old(self).next_submission_id && final(self).submissions@
                == old(self).submissions@.push(
                (Submission { id, user_id, content: params }),
            ) && final(self).next_submission_id == old(self).next_submission_id + 1,
            final(self).config == old(self).config,
            final(self).votes == old(self).votes,
            final(self).assignments == old(self).assignments,
            final(self).scores == old(self).scores,
            final(self).admins == old(self).admins,
            final(self).next_vote_id == old(self).next_vote_id,
    {
        let now = crate::external::now_millis();
        self.submit_at(now, user_id, params)
    }

    /// Casts a vote at the current instant; see [`Store::vote_add_at`],
    /// which this runs at the clock's value. Only the window check
    /// depends on the instant: an out-of-range score and a duplicate are
    /// always refused as such, a missing configuration always closes the
    /// window, and no other error can come back.
    pub fn vote_add(&mut self, user_id: i64, params: VoteParams) -> (r: Result<i64, GateError>)
        requires
            old(self).wf(),
            old(self).votes@.len() < MAX_VOTES,
            old(self).next_vote_id < i64::MAX,
        ensures
            final(self).wf(),
            first_invalid(params) matches Some(c) ==> r == Err::<i64, GateError>(
                (GateError::ScoreOutOfRange { field: c, value: params.spec_score(c) }),
            ),
            first_invalid(params) is Some <==> (r matches Err(e) && e is ScoreOutOfRange),
            first_invalid(params) is None ==> (r == Err::<i64, GateError>(GateError::Duplicate)
                <==> has_vote_by(old(self).votes@, user_id, params.submission_id)),
            (first_invalid(params) is None && !has_vote_by(
                old(self).votes@,
                user_id,
                params.submission_id,
            ) && old(self).config is None) ==> r == Err::<i64, GateError>(GateError::WindowClosed),
            r is Err ==> (r matches Err(e) && (e is ScoreOutOfRange || e == GateError::Duplicate
                || e == GateError::WindowClosed)),
            r is Err ==> *final(self) == *old(self),
            r matches Ok(id) ==> id == old(self).next_vote_id && final(self).votes@ == old(
                self,
            ).votes@.push(params.spec_to_vote(id, user_id)) && final(self).next_vote_id == old(
                self,
            ).next_vote_id + 1,
            final(self).config == old(self).config,
            final(self).submissions == old(self).submissions,
            final(self).assignments == old(self).assignments,
            final(self).scores == old(self).scores,
            final(self).admins == old(self).admins,
            final(self).next_submission_id == old(self).next_submission_id,
    {
        let now = crate::external::now_millis();
        self.vote_add_at(now, user_id, params)
    }

    /// Rewrites the caller's own vote at the current instant; see
    /// [`Store::vote_update_at`], which this runs at the clock's value.
    /// Only the window check depends on the instant: a missing vote, a
    /// foreign vote and an out-of-range score are always refused as such,
    /// and no other error can come back.
    pub fn vote_update(&mut self, user_id: i64, vote_id: i64, params: VoteParams) -> (r: Result<
        (),
        GateError,
    >)
        requires
            old(self).wf(),
        ensures
            final(self).wf(),
            r == Err::<(), GateError>(GateError::NotFound) <==> find_vote_from(
                old(self).votes@,
                vote_id,
                0,
            ) is None,
            (find_vote_from(old(self).votes@, vote_id, 0) matches Some(j) && old(
                self,
            ).votes@[j].user_id != user_id) <==> r == Err::<(), GateError>(GateError::Unauthorized),
            (find_vote_from(old(self).votes@, vote_id, 0) matches Some(j) && old(
                self,
            ).votes@[j].user_id == user_id && first_invalid(params) is Some) ==> (first_invalid(
                params,
            ) matches Some(c) && r == Err::<(), GateError>(
                (GateError::ScoreOutOfRange { field: c, value: params.spec_score(c) }),
            )),
            (find_vote_from(old(self).votes@, vote_id, 0) matches Some(j) && old(
                self,
            ).votes@[j].user_id == user_id && first_invalid(params) is Some) <==> (r matches Err(e)
                && e is ScoreOutOfRange),
            (find_vote_from(old(self).votes@, vote_id, 0) matches Some(j) && old(
                self,
            ).votes@[j].user_id == user_id && first_invalid(params) is None && old(
                self,
            ).config is None) ==> r == Err::<(), GateError>(GateError::WindowClosed),
            (find_vote_from(old(self).votes@, vote_id, 0) matches Some(j) && old(
                self,
            ).votes@[j].user_id == user_id && first_invalid(params) is None && r is Err) ==> r
                == Err::<(), GateError>(GateError::WindowClosed),
            r is Err ==> *final(self) == *old(self),
            r is Ok ==> (find_vote_from(old(self).votes@, vote_id, 0) matches Some(j) && old(
                self,
            ).votes@[j].user_id == user_id && final(self).votes@ == old(self).votes@.update(
                j,
                params.spec_to_vote(vote_id, user_id),
            )),
            final(self).config == old(self).config,
            final(self).submissions == old(self).submissions,
            final(self).assignments == old(self).assignments,
            final(self).scores == old(self).scores,
            final(self).admins == old(self).admins,
            final(self).next_submission_id == old(self).next_submission_id,
            final(self).next_vote_id == old(self).next_vote_id,
    {
        let now = crate::external::now_millis();
        self.vote_update_at(now, user_id, vote_id, params)
    }

    /// One orchestrator tick at the current instant; see
    /// [`Store::tick_at`], which this runs at the clock's value. Whatever
    /// the instant: the window bounds, the visibility flag and every
    /// record table other than assignments and scores are untouched; a
    /// one-shot flag never goes back from done to pending; and each of
    /// the two tables is either left alone with its flag, or rebuilt to
    /// its engine's full contract exactly when its flag flips.
    pub fn tick(&mut self)
        requires
            old(self).wf(),
        ensures
            final(self).wf(),
            old(self).config is None ==> *final(self) == *old(self),
            final(self).config is Some <==> old(self).config is Some,
            old(self).config matches Some(c) ==> (final(self).config matches Some(c2)
                && c2.submission_start == c.submission_start && c2.submission_end
                == c.submission_end && c2.voting_start == c.voting_start && c2.voting_end
                == c.voting_end && c2.show_leaderboard == c.show_leaderboard && (c.assigned
                ==> c2.assigned) && (c.created_scores ==> c2.created_scores) && (c2.assigned
                == c.assigned ==> final(self).assignments == old(self).assignments) && (c2.assigned
                != c.assigned ==> fresh_assignment_table(
                old(self).submissions@,
                final(self).assignments@,
            )) && (c2.created_scores == c.created_scores ==> final(self).scores == old(
                self,
            ).scores) && (c2.created_scores != c.created_scores ==> final(self).scores@
                == scores_spec(old(self).submissions@, old(self).votes@))),
            final(self).submissions == old(self).submissions,
            final(self).votes == old(self).votes,
            final(self).admins == old(self).admins,
            final(self).next_submission_id == old(self).next_submission_id,
            final(self).next_vote_id == old(self).next_vote_id,
    {
        let now = crate::external::now_millis();
        self.tick_at(now);
    }
}

} // verus!
