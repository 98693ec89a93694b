//! Score aggregation: per-criterion medians over a submission's votes,
//! Bayesian smoothing toward the global per-criterion mean, and the
//! weighted composite, all carried out in exact integer arithmetic.
//!
//! Raw criterion scores live on the 0-5 scale. Because a median of an even
//! number of integers can end in one half, medians are handled doubled
//! (`median_doubled`), and the smoothing formula is evaluated as one exact
//! fraction before the final truncating scale by 200 (per criterion) or
//! 2000 (composite).

use vstd::prelude::*;
use vstd::relations::{sorted_by, total_ordering};
use vstd::seq_lib::lemma_sorted_unique;
use vstd::seq_lib::{to_multiset_contains, to_multiset_insert};

use crate::types::{Criterion, Score, Submission, Vote};

verus! {

/// A sequence of values in ascending order.
pub open spec fn sorted(s: Seq<i64>) -> bool {
    forall|i: int, j: int| 0 <= i < j < s.len() ==> #[trigger] s[i] <= #[trigger] s[j]
}

/// The ascending rearrangement of a sequence of values.
pub open spec fn sorted_form(s: Seq<i64>) -> Seq<i64> {
    s.sort_by(|x: i64, y: i64| x <= y)
}

/// `<=` on values is a total ordering, so `Seq::sort_by` is well behaved under it.
pub proof fn lemma_value_order_total()
    ensures
        total_ordering(|x: i64, y: i64| x <= y),
{
}

/// Twice the median of a non-empty sequence: sort ascending, take the middle
/// element doubled (odd length) or the sum of the two middle elements (even
/// length).
pub open spec fn med2_of(s: Seq<i64>) -> int
    recommends
        s.len() > 0,
{
    let t = sorted_form(s);
    let h = s.len() as int / 2;
    if s.len() % 2 == 1 {
        2 * t[h]
    } else {
        t[h - 1] + t[h]
    }
}

/// Every element of one sequence also occurs in another with the same
/// multiset of elements, so bounds on the elements carry over.
proof fn lemma_multiset_elem_bounds(a: Seq<i64>, b: Seq<i64>, lo: int, hi: int)
    requires
        a.to_multiset() == b.to_multiset(),
        forall|j: int| 0 <= j < a.len() ==> lo <= #[trigger] a[j] <= hi,
    ensures
        forall|j: int| 0 <= j < b.len() ==> lo <= #[trigger] b[j] <= hi,
{
    assert forall|j: int| 0 <= j < b.len() implies lo <= #[trigger] b[j] <= hi by {
        assert(b.contains(b[j]));
        to_multiset_contains(b, b[j]);
        to_multiset_contains(a, b[j]);
        assert(a.contains(b[j]));
        let w = choose|w: int| 0 <= w < a.len() && a[w] == b[j];
        assert(lo <= a[w] <= hi);
    }
}

/// Sorts values ascending by insertion into a fresh vector.
pub fn sort_values(v: &Vec<i64>) -> (r: Vec<i64>)
    ensures
        sorted(r@),
        r@.to_multiset() == v@.to_multiset(),
        r@ == sorted_form(v@),
        r@.len() == v@.len(),
{
    let mut out: Vec<i64> = Vec::new();
    proof {
        assert(out@ =~= v@.take(0));
    }
    let n = v.len();
    for i in 0..n
        invariant
            n == v@.len(),
            sorted(out@),
            out@.to_multiset() == v@.take(i as int).to_multiset(),
    {
        let x = v[i];
        let mut pos: usize = 0;
        while pos < out.len() && out[pos] <= x
            invariant
                pos <= out@.len(),
                forall|j: int| 0 <= j < pos ==> #[trigger] out@[j] <= x,
            decreases out@.len() - pos,
        {
            pos = pos + 1;
        }
        let ghost prev = out@;
        out.insert(pos, x);
        proof {
            assert(out@ =~= prev.insert(pos as int, x));
            to_multiset_insert(prev, pos as int, x);
            assert(v@.take(i + 1) =~= v@.take(i as int).push(v@[i as int]));
            vstd::seq_lib::to_multiset_build(v@.take(i as int), v@[i as int]);
            assert(out@.to_multiset() =~= v@.take(i + 1).to_multiset());
            assert forall|a: int, b: int| 0 <= a < b < out@.len() implies #[trigger] out@[a]
                <= #[trigger] out@[b] by {
                if b < pos {
                    assert(out@[a] == prev[a] && out@[b] == prev[b]);
                } else if b == pos {
                    assert(out@[a] == prev[a] && out@[b] == x);
                } else {
                    assert(out@[b] == prev[b - 1] && pos <= b - 1 < prev.len());
                    if a < pos {
                        assert(out@[a] == prev[a]);
                        assert(prev[a] <= x);
                        if pos < prev.len() {
                            assert(!(prev[pos as int] <= x));
                            if a < b - 1 {
                                assert(prev[a] <= prev[b - 1]);
                            }
                        }
                    } else if a == pos {
                        assert(out@[a] == x);
                        assert(!(prev[pos as int] <= x));
                        if pos < b - 1 {
                            assert(prev[pos as int] <= prev[b - 1]);
                        }
                    } else {
                        assert(out@[a] == prev[a - 1]);
                        assert(prev[a - 1] <= prev[b - 1]);
                    }
                }
            }
        }
    }
    proof {
        assert(v@.take(n as int) =~= v@);
        lemma_value_order_total();
        v@.lemma_sort_by_ensures(|x: i64, y: i64| x <= y);
        assert(sorted_by(out@, |x: i64, y: i64| x <= y)) by {
            assert forall|i: int, j: int| 0 <= i < j < out@.len() implies (|x: i64, y: i64|
                x <= y)(out@[i], out@[j]) by {
                assert(out@[i] <= out@[j]);
            }
        }
        lemma_sorted_unique(out@, sorted_form(v@), |x: i64, y: i64| x <= y);
        vstd::seq_lib::to_multiset_len(out@);
        vstd::seq_lib::to_multiset_len(v@);
    }
    out
}

/// Twice the median of the given values; `None` exactly when there are none.
///
/// Doubling keeps the half-steps of even-length medians exact: a median of
/// 4.5 is reported as 9.
pub fn median_doubled(values: &Vec<i64>) -> (r: Option<i64>)
    requires
        forall|j: int| 0 <= j < values@.len() ==> -0x2000_0000_0000_0000 <= #[trigger] values@[j]
            <= 0x2000_0000_0000_0000,
    ensures
        r.is_none() <==> values@.len() == 0,
        values@.len() > 0 ==> r == Some(med2_of(values@) as i64) && r.unwrap() == med2_of(
            values@,
        ),
{
    if values.len() == 0 {
        return None;
    }
    let s = sort_values(values);
    proof {
        lemma_multiset_elem_bounds(
            values@,
            s@,
            -0x2000_0000_0000_0000,
            0x2000_0000_0000_0000,
        );
    }
    let n = s.len();
    if n % 2 == 1 {
        Some(2 * s[n / 2])
    } else {
        Some(s[n / 2 - 1] + s[n / 2])
    }
}

/// The doubled median of values drawn from `[lo, hi]` lies in `[2 lo, 2 hi]`.
pub proof fn lemma_med2_bounds(s: Seq<i64>, lo: int, hi: int)
    requires
        s.len() > 0,
        forall|j: int| 0 <= j < s.len() ==> lo <= #[trigger] s[j] <= hi,
    ensures
        2 * lo <= med2_of(s) <= 2 * hi,
{
    lemma_value_order_total();
    s.lemma_sort_by_ensures(|x: i64, y: i64| x <= y);
    let t = sorted_form(s);
    vstd::seq_lib::to_multiset_len(s);
    vstd::seq_lib::to_multiset_len(t);
    lemma_multiset_elem_bounds(s, t, lo, hi);
}

/// Largest number of votes the scoring arithmetic is exact for; matches a
/// store whose row identifiers are 32-bit.
pub const MAX_VOTES: usize = 0x7fff_ffff;

/// Composite weight of the problem-fit criterion, in hundredths.
pub const WEIGHT_PROBLEM_FIT: u64 = 25;

/// Composite weight of the clarity criterion, in hundredths.
pub const WEIGHT_CLARITY: u64 = 20;

/// Composite weight of the style-interpretation criterion, in hundredths.
pub const WEIGHT_STYLE: u64 = 20;

/// Composite weight of the originality criterion, in hundredths.
pub const WEIGHT_ORIGINALITY: u64 = 15;

/// Composite weight of the overall-quality criterion, in hundredths.
pub const WEIGHT_OVERALL: u64 = 20;

/// The denominator of the composite weights: they are fractions of this.
pub const WEIGHT_DENOMINATOR: u64 = 100;

/// The composite weight of one criterion, in hundredths.
pub open spec fn spec_weight(c: Criterion) -> u64 {
    match c {
        Criterion::ProblemFit => WEIGHT_PROBLEM_FIT,
        Criterion::Clarity => WEIGHT_CLARITY,
        Criterion::StyleInterpretation => WEIGHT_STYLE,
        Criterion::Originality => WEIGHT_ORIGINALITY,
        Criterion::OverallQuality => WEIGHT_OVERALL,
    }
}

/// The five composite weights sum to exactly one: as hundredths, to the
/// full denominator.
pub proof fn lemma_weights_sum_to_one()
    ensures
        WEIGHT_PROBLEM_FIT + WEIGHT_CLARITY + WEIGHT_STYLE + WEIGHT_ORIGINALITY + WEIGHT_OVERALL
            == WEIGHT_DENOMINATOR,
{
}

/// All criterion scores of every vote lie in `[0, 5]`.
pub open spec fn votes_valid(votes: Seq<Vote>) -> bool {
    forall|i: int| 0 <= i < votes.len() ==> (#[trigger] votes[i]).valid()
}

/// The votes cast on one submission, in casting order.
pub open spec fn votes_for(votes: Seq<Vote>, sid: i64) -> Seq<Vote> {
    votes.filter(|v: Vote| v.submission_id == sid)
}

/// One criterion's values across a sequence of votes.
pub open spec fn criterion_values(vs: Seq<Vote>, c: Criterion) -> Seq<i64> {
    vs.map_values(|v: Vote| v.spec_score(c))
}

/// The sum of a sequence of values.
pub open spec fn sum_of(s: Seq<i64>) -> int
    decreases s.len(),
{
    if s.len() == 0 {
        0
    } else {
        sum_of(s.drop_last()) + s.last()
    }
}

/// System-wide sum of one criterion over all votes; divided by the vote
/// count this is the global baseline mean of the criterion.
pub open spec fn global_sum(votes: Seq<Vote>, c: Criterion) -> int {
    sum_of(criterion_values(votes, c))
}

/// Numerator of the smoothed criterion value, over [`smooth_den`]: the
/// exact fraction form of `(v/(v+2))*(med2/2) + (2/(v+2))*(gsum/gcount)`,
/// a Bayesian blend of the local median with the global mean under two
/// phantom votes.
pub open spec fn smooth_num(med2: int, gsum: int, gcount: int, v: int) -> int {
    v * med2 * gcount + 4 * gsum
}

/// Denominator of the smoothed criterion value.
pub open spec fn smooth_den(gcount: int, v: int) -> int {
    2 * gcount * (v + 2)
}

/// A smoothed criterion value scaled by 200 and truncated: raw range 1-5
/// maps to 200-1000.
pub open spec fn criterion_scaled(med2: int, gsum: int, gcount: int, v: int) -> int {
    200 * smooth_num(med2, gsum, gcount, v) / smooth_den(gcount, v)
}

/// The weighted composite of the five smoothed values (each given as a
/// numerator over the shared denominator), scaled by 2000 and truncated:
/// raw range 1-5 maps to 2000-10000.
pub open spec fn composite_scaled(
    n_fit: int,
    n_clarity: int,
    n_style: int,
    n_orig: int,
    n_overall: int,
    den: int,
) -> int {
    20 * (WEIGHT_PROBLEM_FIT * n_fit + WEIGHT_CLARITY * n_clarity + WEIGHT_STYLE * n_style
        + WEIGHT_ORIGINALITY * n_orig + WEIGHT_OVERALL * n_overall) / den
}

/// Sums one criterion over a sequence of valid votes.
pub fn criterion_sum(votes: &Vec<Vote>, c: Criterion) -> (s: i64)
    requires
        votes_valid(votes@),
        votes@.len() <= MAX_VOTES,
    ensures
        s == global_sum(votes@, c),
        0 <= s <= 5 * votes@.len(),
{
    let mut s: i64 = 0;
    let n = votes.len();
    proof {
        assert(criterion_values(votes@.take(0), c) =~= Seq::<i64>::empty());
    }
    for i in 0..n
        invariant
            n == votes@.len() <= MAX_VOTES,
            votes_valid(votes@),
            s == sum_of(criterion_values(votes@.take(i as int), c)),
            0 <= s <= 5 * i,
    {
        let x = votes[i].score(c);
        proof {
            assert(votes@[i as int].valid());
            assert(0 <= votes@[i as int].spec_score(c) <= 5);
            let pre = criterion_values(votes@.take(i as int), c);
            let post = criterion_values(votes@.take(i + 1), c);
            assert(post =~= pre.push(votes@[i as int].spec_score(c)));
            assert(post.drop_last() =~= pre);
            assert(sum_of(post) == sum_of(pre) + x);
        }
        s = s + x;
    }
    proof {
        assert(votes@.take(n as int) =~= votes@);
    }
    s
}

/// Range facts about the smoothing fraction: the numerator is at most five
/// times the denominator, and both stay far below the 128-bit limit.
proof fn lemma_smooth_bounds(m: int, g: int, gcount: int, v: int) by (nonlinear_arith)
    requires
        0 <= m <= 10,
        0 <= g <= 5 * gcount,
        1 <= gcount <= 0x7fff_ffff,
        1 <= v <= gcount,
    ensures
        0 <= v * m <= 0x7fff_ffff * 10,
        0 <= v * m * gcount <= 0x7fff_ffff * 10 * 0x7fff_ffff,
        0 <= v * m * gcount + 4 * g <= 5 * (2 * gcount * (v + 2)),
        0 < 2 * gcount <= 2 * 0x7fff_ffff,
        0 < 2 * gcount * (v + 2) <= 2 * 0x7fff_ffff * (0x7fff_ffff + 2),
{
}

/// `a / d <= q` follows from `a <= q * d` for positive `d`.
proof fn lemma_div_le(a: int, q: int, d: int)
    requires
        0 <= a,
        0 <= q,
        0 < d,
        a <= q * d,
    ensures
        a / d <= q,
{
    vstd::arithmetic::div_mod::lemma_div_by_multiple(q, d);
    vstd::arithmetic::div_mod::lemma_div_is_ordered(a, q * d, d);
}

/// One smoothed, scaled criterion score, computed exactly.
///
/// `med2` is the doubled local median, `gsum` the system-wide criterion sum,
/// `gcount` the system-wide vote count and `v` the submission's vote count.
pub fn criterion_scaled_score(med2: i64, gsum: i64, gcount: usize, v: usize) -> (r: i64)
    requires
        0 <= med2 <= 10,
        0 <= gsum <= 5 * gcount,
        1 <= gcount <= MAX_VOTES,
        1 <= v <= gcount,
    ensures
        r == criterion_scaled(med2 as int, gsum as int, gcount as int, v as int),
        0 <= r <= 1000,
{
    proof {
        lemma_smooth_bounds(med2 as int, gsum as int, gcount as int, v as int);
    }
    let num: u128 = (v as u128) * (med2 as u128) * (gcount as u128) + 4 * (gsum as u128);
    let t1: u128 = 2 * (gcount as u128);
    let t2: u128 = (v as u128) + 2;
    proof {
        assert(t1 * t2 <= 0x1_0000_0000 * 0x8000_0002 && t1 * t2 == 2 * (gcount as int) * ((v
            as int) + 2)) by (nonlinear_arith)
            requires
                0 < t1 <= 0x1_0000_0000,
                0 < t2 <= 0x8000_0001,
                t1 == 2 * (gcount as int),
                t2 == (v as int) + 2,
        ;
    }
    let den: u128 = t1 * t2;
    proof {
        assert(num == smooth_num(med2 as int, gsum as int, gcount as int, v as int));
        assert(den == smooth_den(gcount as int, v as int));
    }
    let scaled: u128 = (200 * num) / den;
    proof {
        lemma_div_le(200 * num as int, 1000, den as int);
        vstd::arithmetic::div_mod::lemma_div_pos_is_pos(200 * num as int, den as int);
    }
    scaled as i64
}

/// The composite (final) score of one submission, computed exactly from the
/// five doubled medians and the five global criterion sums.
pub fn composite_scaled_score(
    m_fit: i64,
    m_clarity: i64,
    m_style: i64,
    m_orig: i64,
    m_overall: i64,
    g_fit: i64,
    g_clarity: i64,
    g_style: i64,
    g_orig: i64,
    g_overall: i64,
    gcount: usize,
    v: usize,
) -> (r: i64)
    requires
        0 <= m_fit <= 10,
        0 <= m_clarity <= 10,
        0 <= m_style <= 10,
        0 <= m_orig <= 10,
        0 <= m_overall <= 10,
        0 <= g_fit <= 5 * gcount,
        0 <= g_clarity <= 5 * gcount,
        0 <= g_style <= 5 * gcount,
        0 <= g_orig <= 5 * gcount,
        0 <= g_overall <= 5 * gcount,
        1 <= gcount <= MAX_VOTES,
        1 <= v <= gcount,
    ensures
        r == composite_scaled(
            smooth_num(m_fit as int, g_fit as int, gcount as int, v as int),
            smooth_num(m_clarity as int, g_clarity as int, gcount as int, v as int),
            smooth_num(m_style as int, g_style as int, gcount as int, v as int),
            smooth_num(m_orig as int, g_orig as int, gcount as int, v as int),
            smooth_num(m_overall as int, g_overall as int, gcount as int, v as int),
            smooth_den(gcount as int, v as int),
        ),
        0 <= r <= 10000,
{
    proof {
        lemma_smooth_bounds(m_fit as int, g_fit as int, gcount as int, v as int);
        lemma_smooth_bounds(m_clarity as int, g_clarity as int, gcount as int, v as int);
        lemma_smooth_bounds(m_style as int, g_style as int, gcount as int, v as int);
        lemma_smooth_bounds(m_orig as int, g_orig as int, gcount as int, v as int);
        lemma_smooth_bounds(m_overall as int, g_overall as int, gcount as int, v as int);
    }
    let n_fit: u128 = (v as u128) * (m_fit as u128) * (gcount as u128) + 4 * (g_fit as u128);
    let n_clarity: u128 = (v as u128) * (m_clarity as u128) * (gcount as u128) + 4 * (g_clarity
        as u128);
    let n_style: u128 = (v as u128) * (m_style as u128) * (gcount as u128) + 4 * (g_style as u128);
    let n_orig: u128 = (v as u128) * (m_orig as u128) * (gcount as u128) + 4 * (g_orig as u128);
    let n_overall: u128 = (v as u128) * (m_overall as u128) * (gcount as u128) + 4 * (g_overall
        as u128);
    let t1: u128 = 2 * (gcount as u128);
    let t2: u128 = (v as u128) + 2;
    proof {
        assert(t1 * t2 <= 0x1_0000_0000 * 0x8000_0002 && t1 * t2 == 2 * (gcount as int) * ((v
            as int) + 2)) by (nonlinear_arith)
            requires
                0 < t1 <= 0x1_0000_0000,
                0 < t2 <= 0x8000_0001,
                t1 == 2 * (gcount as int),
                t2 == (v as int) + 2,
        ;
    }
    let den: u128 = t1 * t2;
    proof {
        assert(n_fit == smooth_num(m_fit as int, g_fit as int, gcount as int, v as int));
        assert(n_clarity == smooth_num(m_clarity as int, g_clarity as int, gcount as int, v as int));
        assert(n_style == smooth_num(m_style as int, g_style as int, gcount as int, v as int));
        assert(n_orig == smooth_num(m_orig as int, g_orig as int, gcount as int, v as int));
        assert(n_overall == smooth_num(m_overall as int, g_overall as int, gcount as int, v as int));
        assert(den == smooth_den(gcount as int, v as int));
        assert(n_fit <= 5 * den && n_clarity <= 5 * den && n_style <= 5 * den && n_orig <= 5 * den
            && n_overall <= 5 * den);
    }
    let weighted: u128 = 25 * n_fit + 20 * n_clarity + 20 * n_style + 15 * n_orig + 20 * n_overall;
    proof {
        assert(weighted <= 100 * (5 * den));
    }
    let scaled: u128 = (20 * weighted) / den;
    proof {
        lemma_div_le(20 * weighted as int, 10000, den as int);
        vstd::arithmetic::div_mod::lemma_div_pos_is_pos(20 * weighted as int, den as int);
    }
    scaled as i64
}

/// The doubled local median of one criterion over one submission's votes.
pub open spec fn med2_for(votes: Seq<Vote>, sid: i64, c: Criterion) -> int {
    med2_of(criterion_values(votes_for(votes, sid), c))
}

/// One submission's stored per-criterion score: the smoothed criterion
/// value scaled to 0-1000.
pub open spec fn criterion_score_spec(votes: Seq<Vote>, sid: i64, c: Criterion) -> int {
    criterion_scaled(
        med2_for(votes, sid, c),
        global_sum(votes, c),
        votes.len() as int,
        votes_for(votes, sid).len() as int,
    )
}

/// One submission's stored composite score: the weighted blend of the five
/// smoothed criterion values scaled to 0-10000.
pub open spec fn final_score_spec(votes: Seq<Vote>, sid: i64) -> int {
    let n = votes.len() as int;
    let v = votes_for(votes, sid).len() as int;
    composite_scaled(
        smooth_num(med2_for(votes, sid, Criterion::ProblemFit), global_sum(votes, Criterion::ProblemFit), n, v),
        smooth_num(med2_for(votes, sid, Criterion::Clarity), global_sum(votes, Criterion::Clarity), n, v),
        smooth_num(med2_for(votes, sid, Criterion::StyleInterpretation), global_sum(votes, Criterion::StyleInterpretation), n, v),
        smooth_num(med2_for(votes, sid, Criterion::Originality), global_sum(votes, Criterion::Originality), n, v),
        smooth_num(med2_for(votes, sid, Criterion::OverallQuality), global_sum(votes, Criterion::OverallQuality), n, v),
        smooth_den(n, v),
    )
}

/// The full score row of one submission with at least one vote.
pub open spec fn score_spec(votes: Seq<Vote>, sid: i64) -> Score {
    Score {
        submission_id: sid,
        problem_fit_score: criterion_score_spec(votes, sid, Criterion::ProblemFit) as i64,
        visual_clarity_score: criterion_score_spec(votes, sid, Criterion::Clarity) as i64,
        style_interpretation_score: criterion_score_spec(
            votes,
            sid,
            Criterion::StyleInterpretation,
        ) as i64,
        originality_score: criterion_score_spec(votes, sid, Criterion::Originality) as i64,
        overall_quality_score: criterion_score_spec(votes, sid, Criterion::OverallQuality) as i64,
        final_score: final_score_spec(votes, sid) as i64,
    }
}

/// Per-criterion scores lie on the 0-1000 scale and the composite on the
/// 0-10000 scale.
pub open spec fn score_in_range(s: Score) -> bool {
    &&& 0 <= s.problem_fit_score <= 1000
    &&& 0 <= s.visual_clarity_score <= 1000
    &&& 0 <= s.style_interpretation_score <= 1000
    &&& 0 <= s.originality_score <= 1000
    &&& 0 <= s.overall_quality_score <= 1000
    &&& 0 <= s.final_score <= 10000
}

/// A submission that received at least one vote.
pub open spec fn submission_has_votes(votes: Seq<Vote>, s: Submission) -> bool {
    votes_for(votes, s.id).len() > 0
}

/// The submissions that receive a score row, in listing order.
pub open spec fn scored_submissions(subs: Seq<Submission>, votes: Seq<Vote>) -> Seq<Submission> {
    subs.filter(|s: Submission| submission_has_votes(votes, s))
}

/// The full scoring run: one score row per voted-on submission, in
/// submission listing order.
pub open spec fn scores_spec(subs: Seq<Submission>, votes: Seq<Vote>) -> Seq<Score> {
    scored_submissions(subs, votes).map_values(|s: Submission| score_spec(votes, s.id))
}

/// Validity of votes carries over to the votes selected for one submission,
/// and there are no more of them than votes overall.
pub proof fn lemma_votes_for_valid(votes: Seq<Vote>, sid: i64)
    requires
        votes_valid(votes),
    ensures
        votes_valid(votes_for(votes, sid)),
        votes_for(votes, sid).len() <= votes.len(),
{
    let pred = |v: Vote| v.submission_id == sid;
    votes.lemma_filter_len(pred);
    assert forall|i: int| 0 <= i < votes_for(votes, sid).len() implies (#[trigger] votes_for(
        votes,
        sid,
    )[i]).valid() by {
        let f = votes.filter(pred);
        assert(f.contains(f[i]));
        votes.lemma_filter_contains_rev(pred, f[i]);
        let w = choose|w: int| 0 <= w < votes.len() && votes[w] == f[i];
        assert(votes[w].valid());
    }
}

/// Collects the votes cast on one submission, in casting order.
pub fn collect_votes_for(votes: &Vec<Vote>, sid: i64) -> (r: Vec<Vote>)
    ensures
        r@ == votes_for(votes@, sid),
{
    let pred = |v: Vote| v.submission_id == sid;
    let mut r: Vec<Vote> = Vec::new();
    proof {
        reveal(Seq::filter);
        assert(votes@.take(0) =~= Seq::<Vote>::empty());
        assert(r@ =~= votes_for(votes@.take(0), sid));
    }
    let n = votes.len();
    for i in 0..n
        invariant
            n == votes@.len(),
            r@ == votes_for(votes@.take(i as int), sid),
    {
        let v = votes[i];
        if v.submission_id == sid {
            r.push(v);
        }
        proof {
            let spred = |v: Vote| v.submission_id == sid;
            votes@.take(i as int).lemma_filter_push(votes@[i as int], spred);
            assert(votes@.take(i + 1) =~= votes@.take(i as int).push(votes@[i as int]));
        }
    }
    proof {
        assert(votes@.take(n as int) =~= votes@);
    }
    r
}

/// One criterion's values over a sequence of votes, in order.
pub fn criterion_values_exec(vs: &Vec<Vote>, c: Criterion) -> (r: Vec<i64>)
    ensures
        r@ == criterion_values(vs@, c),
{
    let mut r: Vec<i64> = Vec::new();
    proof {
        assert(r@ =~= criterion_values(vs@.take(0), c));
    }
    let n = vs.len();
    for i in 0..n
        invariant
            n == vs@.len(),
            r@ == criterion_values(vs@.take(i as int), c),
    {
        let x = vs[i].score(c);
        r.push(x);
        proof {
            assert(criterion_values(vs@.take(i + 1), c) =~= criterion_values(
                vs@.take(i as int),
                c,
            ).push(vs@[i as int].spec_score(c)));
        }
    }
    proof {
        assert(vs@.take(n as int) =~= vs@);
    }
    r
}

/// The doubled median of one criterion over a non-empty set of valid votes.
fn criterion_median_doubled(vs: &Vec<Vote>, c: Criterion) -> (r: i64)
    requires
        vs@.len() > 0,
        votes_valid(vs@),
    ensures
        r == med2_of(criterion_values(vs@, c)),
        0 <= r <= 10,
{
    let vals = criterion_values_exec(vs, c);
    proof {
        assert forall|j: int| 0 <= j < vals@.len() implies 0 <= #[trigger] vals@[j] <= 5 by {
            assert(vs@[j].valid());
            assert(vals@[j] == vs@[j].spec_score(c));
        }
        lemma_med2_bounds(vals@, 0, 5);
    }
    let m = median_doubled(&vals);
    m.unwrap()
}

/// The score row of one submission, given its votes, the global criterion
/// sums and the global vote count.
fn score_for_submission(
    sid: i64,
    vs: &Vec<Vote>,
    g_fit: i64,
    g_clarity: i64,
    g_style: i64,
    g_orig: i64,
    g_overall: i64,
    gcount: usize,
    Ghost(votes): Ghost<Seq<Vote>>,
) -> (r: Score)
    requires
        vs@ == votes_for(votes, sid),
        vs@.len() > 0,
        votes_valid(votes),
        votes.len() <= MAX_VOTES,
        gcount == votes.len(),
        g_fit == global_sum(votes, Criterion::ProblemFit),
        g_clarity == global_sum(votes, Criterion::Clarity),
        g_style == global_sum(votes, Criterion::StyleInterpretation),
        g_orig == global_sum(votes, Criterion::Originality),
        g_overall == global_sum(votes, Criterion::OverallQuality),
        0 <= g_fit <= 5 * gcount,
        0 <= g_clarity <= 5 * gcount,
        0 <= g_style <= 5 * gcount,
        0 <= g_orig <= 5 * gcount,
        0 <= g_overall <= 5 * gcount,
    ensures
        r == score_spec(votes, sid),
        score_in_range(r),
{
    proof {
        lemma_votes_for_valid(votes, sid);
    }
    let v = vs.len();
    let m_fit = criterion_median_doubled(vs, Criterion::ProblemFit);
    let m_clarity = criterion_median_doubled(vs, Criterion::Clarity);
    let m_style = criterion_median_doubled(vs, Criterion::StyleInterpretation);
    let m_orig = criterion_median_doubled(vs, Criterion::Originality);
    let m_overall = criterion_median_doubled(vs, Criterion::OverallQuality);
    let s_fit = criterion_scaled_score(m_fit, g_fit, gcount, v);
    let s_clarity = criterion_scaled_score(m_clarity, g_clarity, gcount, v);
    let s_style = criterion_scaled_score(m_style, g_style, gcount, v);
    let s_orig = criterion_scaled_score(m_orig, g_orig, gcount, v);
    let s_overall = criterion_scaled_score(m_overall, g_overall, gcount, v);
    let s_final = composite_scaled_score(
        m_fit,
        m_clarity,
        m_style,
        m_orig,
        m_overall,
        g_fit,
        g_clarity,
        g_style,
        g_orig,
        g_overall,
        gcount,
        v,
    );
    Score {
        submission_id: sid,
        problem_fit_score: s_fit,
        visual_clarity_score: s_clarity,
        style_interpretation_score: s_style,
        originality_score: s_orig,
        overall_quality_score: s_overall,
        final_score: s_final,
    }
}

/// The scoring run: clears nothing itself, but produces the complete new
/// score table, one row per submission with at least one vote, in
/// submission listing order; zero-vote submissions get no row.
pub fn compute_scores(subs: &Vec<Submission>, votes: &Vec<Vote>) -> (r: Vec<Score>)
    requires
        votes_valid(votes@),
        votes@.len() <= MAX_VOTES,
    ensures
        r@ == scores_spec(subs@, votes@),
        forall|i: int| 0 <= i < r@.len() ==> score_in_range(#[trigger] r@[i]),
{
    let gcount = votes.len();
    let g_fit = criterion_sum(votes, Criterion::ProblemFit);
    let g_clarity = criterion_sum(votes, Criterion::Clarity);
    let g_style = criterion_sum(votes, Criterion::StyleInterpretation);
    let g_orig = criterion_sum(votes, Criterion::Originality);
    let g_overall = criterion_sum(votes, Criterion::OverallQuality);
    let mut out: Vec<Score> = Vec::new();
    proof {
        reveal(Seq::filter);
        assert(subs@.take(0) =~= Seq::<Submission>::empty());
        assert(out@ =~= scores_spec(subs@.take(0), votes@));
    }
    let n = subs.len();
    for i in 0..n
        invariant
            n == subs@.len(),
            votes_valid(votes@),
            votes@.len() <= MAX_VOTES,
            gcount == votes@.len(),
            g_fit == global_sum(votes@, Criterion::ProblemFit),
            g_clarity == global_sum(votes@, Criterion::Clarity),
            g_style == global_sum(votes@, Criterion::StyleInterpretation),
            g_orig == global_sum(votes@, Criterion::Originality),
            g_overall == global_sum(votes@, Criterion::OverallQuality),
            0 <= g_fit <= 5 * gcount,
            0 <= g_clarity <= 5 * gcount,
            0 <= g_style <= 5 * gcount,
            0 <= g_orig <= 5 * gcount,
            0 <= g_overall <= 5 * gcount,
            out@ == scores_spec(subs@.take(i as int), votes@),
            forall|j: int| 0 <= j < out@.len() ==> score_in_range(#[trigger] out@[j]),
    {
        let sid = subs[i].id;
        let vs = collect_votes_for(votes, sid);
        proof {
            let spred = |s: Submission| submission_has_votes(votes@, s);
            subs@.take(i as int).lemma_filter_push(subs@[i as int], spred);
            assert(subs@.take(i + 1) =~= subs@.take(i as int).push(subs@[i as int]));
        }
        if vs.len() > 0 {
            let sc = score_for_submission(
                sid,
                &vs,
                g_fit,
                g_clarity,
                g_style,
                g_orig,
                g_overall,
                gcount,
                Ghost(votes@),
            );
            out.push(sc);
            proof {
                assert(submission_has_votes(votes@, subs@[i as int]));
                assert(scored_submissions(subs@.take(i + 1), votes@) =~= scored_submissions(
                    subs@.take(i as int),
                    votes@,
                ).push(subs@[i as int]));
                assert(out@ =~= scores_spec(subs@.take(i + 1), votes@));
            }
        } else {
            proof {
                assert(!submission_has_votes(votes@, subs@[i as int]));
                assert(scored_submissions(subs@.take(i + 1), votes@) =~= scored_submissions(
                    subs@.take(i as int),
                    votes@,
                ));
                assert(out@ =~= scores_spec(subs@.take(i + 1), votes@));
            }
        }
    }
    proof {
        assert(subs@.take(n as int) =~= subs@);
    }
    out
}

/// With the local median held fixed, the smoothed scaled score approaches
/// 100 times the doubled median (that is, 200 times the median) as the
/// submission's vote count `v` grows: the exact fraction is within
/// `2000 / (v + 2)` of it, and truncation costs at most one more unit
/// downward, so the global mean's influence vanishes.
pub proof fn lemma_smoothing_converges(med2: int, gsum: int, gcount: int, v: int)
    requires
        0 <= med2 <= 10,
        0 <= gsum <= 5 * gcount,
        1 <= gcount,
        1 <= v <= gcount,
    ensures
        (criterion_scaled(med2, gsum, gcount, v) - 100 * med2) * (v + 2) <= 2000,
        (100 * med2 - criterion_scaled(med2, gsum, gcount, v)) * (v + 2) <= 2000 + (v + 2),
{
    let num = smooth_num(med2, gsum, gcount, v);
    let den = smooth_den(gcount, v);
    let q = criterion_scaled(med2, gsum, gcount, v);
    assert(den > 0) by (nonlinear_arith)
        requires
            1 <= gcount,
            1 <= v,
            den == 2 * gcount * (v + 2),
    ;
    assert(0 <= num) by (nonlinear_arith)
        requires
            0 <= med2,
            0 <= gsum,
            1 <= gcount,
            1 <= v,
            num == v * med2 * gcount + 4 * gsum,
    ;
    vstd::arithmetic::div_mod::lemma_fundamental_div_mod(200 * num, den);
    vstd::arithmetic::div_mod::lemma_mod_bound(200 * num, den);
    let rem = (200 * num) % den;
    assert(200 * num == den * q + rem && 0 <= rem < den);
    assert((q - 100 * med2) * (v + 2) <= 2000) by (nonlinear_arith)
        requires
            0 <= med2 <= 10,
            0 <= gsum <= 5 * gcount,
            1 <= gcount,
            1 <= v,
            num == v * med2 * gcount + 4 * gsum,
            den == 2 * gcount * (v + 2),
            200 * num == den * q + rem,
            0 <= rem < den,
    ;
    assert((100 * med2 - q) * (v + 2) <= 2000 + (v + 2)) by (nonlinear_arith)
        requires
            0 <= med2 <= 10,
            0 <= gsum <= 5 * gcount,
            1 <= gcount,
            1 <= v,
            num == v * med2 * gcount + 4 * gsum,
            den == 2 * gcount * (v + 2),
            200 * num == den * q + rem,
            0 <= rem < den,
    ;
}

} // verus!
