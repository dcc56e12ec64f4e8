//! Ranking: candidates in the order of their confidence, highest first, with
//! candidates of equal confidence in the order in which they came.
use crate::model::{all_bounded, Candidate, CandidateView};
use vstd::prelude::*;

verus! {

/// The test "has confidence `c`".
pub open spec fn has_confidence(c: int) -> spec_fn(CandidateView) -> bool {
    |x: CandidateView| x.confidence == c
}

/// The candidates of `s` with confidence `c`, in their order in `s`.
pub open spec fn at_level(s: Seq<CandidateView>, c: int) -> Seq<CandidateView> {
    s.filter(has_confidence(c))
}

/// The candidates of `s` with a confidence from `lo` up to, not including,
/// `hi`: those of the highest confidence first, then those of the next, each
/// group in its order in `s`.
pub open spec fn levels(s: Seq<CandidateView>, lo: int, hi: int) -> Seq<CandidateView>
    decreases hi - lo,
{
    if hi <= lo {
        Seq::empty()
    } else {
        at_level(s, hi - 1) + levels(s, lo, hi - 1)
    }
}

/// `s` ranked: by confidence, highest first, and within one confidence in the
/// order of `s`.
pub open spec fn ranked(s: Seq<CandidateView>) -> Seq<CandidateView> {
    levels(s, 0, 256)
}

/// Whether the confidences of `s` never rise from one candidate to the next.
pub open spec fn non_increasing(s: Seq<CandidateView>) -> bool {
    forall|i: int, j: int| 0 <= i < j < s.len() ==> s[i].confidence >= s[j].confidence
}

proof fn lemma_levels_split(s: Seq<CandidateView>, lo: int, mid: int, hi: int)
    requires
        lo <= mid <= hi,
    ensures
        levels(s, lo, hi) == levels(s, mid, hi) + levels(s, lo, mid),
    decreases hi - mid,
{
    if hi == mid {
        assert(levels(s, mid, hi) + levels(s, lo, mid) =~= levels(s, lo, mid));
    } else {
        lemma_levels_split(s, lo, mid, hi - 1);
        assert(at_level(s, hi - 1) + (levels(s, mid, hi - 1) + levels(s, lo, mid)) =~= (at_level(
            s,
            hi - 1,
        ) + levels(s, mid, hi - 1)) + levels(s, lo, mid));
    }
}

proof fn lemma_levels_bounds(s: Seq<CandidateView>, lo: int, hi: int)
    ensures
        forall|i: int|
            0 <= i < levels(s, lo, hi).len() ==> lo <= (#[trigger] levels(s, lo, hi)[i]).confidence
                < hi,
    decreases hi - lo,
{
    if hi > lo {
        lemma_levels_bounds(s, lo, hi - 1);
        let a = at_level(s, hi - 1);
        let b = levels(s, lo, hi - 1);
        assert forall|i: int| 0 <= i < levels(s, lo, hi).len() implies lo <= (#[trigger] levels(
            s,
            lo,
            hi,
        )[i]).confidence < hi by {
            if i < a.len() {
                s.lemma_filter_pred(has_confidence(hi - 1), i);
                assert((a + b)[i] == a[i]);
            } else {
                assert((a + b)[i] == b[i - a.len()]);
            }
        }
    }
}

proof fn lemma_levels_push(s: Seq<CandidateView>, x: CandidateView, lo: int, hi: int)
    ensures
        levels(s.push(x), lo, hi) == if lo <= x.confidence < hi {
            levels(s, x.confidence as int, hi).push(x) + levels(s, lo, x.confidence as int)
        } else {
            levels(s, lo, hi)
        },
    decreases hi - lo,
{
    let c = x.confidence as int;
    if hi > lo {
        lemma_levels_push(s, x, lo, hi - 1);
        s.lemma_filter_push(x, has_confidence(hi - 1));
        if c == hi - 1 {
            assert(levels(s, c, hi - 1) =~= Seq::<CandidateView>::empty());
            assert(levels(s, c, hi) =~= at_level(s, c));
            assert(at_level(s, c).push(x) + levels(s, lo, c) =~= levels(s, c, hi).push(x) + levels(
                s,
                lo,
                c,
            ));
        } else if lo <= c < hi - 1 {
            assert(at_level(s, hi - 1) + (levels(s, c, hi - 1).push(x) + levels(s, lo, c)) =~= (
            at_level(s, hi - 1) + levels(s, c, hi - 1)).push(x) + levels(s, lo, c));
        }
    }
}

/// Ranking a list with one more candidate at its end puts that candidate
/// behind every candidate that is at least as confident, and before the rest.
proof fn lemma_ranked_push(s: Seq<CandidateView>, x: CandidateView)
    ensures
        ranked(s) == levels(s, x.confidence as int, 256) + levels(s, 0, x.confidence as int),
        ranked(s.push(x)) == ranked(s).insert(levels(s, x.confidence as int, 256).len() as int, x),
        forall|i: int|
            0 <= i < levels(s, x.confidence as int, 256).len() ==> (#[trigger] ranked(
                s,
            )[i]).confidence >= x.confidence,
        forall|i: int|
            levels(s, x.confidence as int, 256).len() <= i < ranked(s).len() ==> (#[trigger] ranked(
                s,
            )[i]).confidence < x.confidence,
{
    let c = x.confidence as int;
    let a = levels(s, c, 256);
    let b = levels(s, 0, c);
    lemma_levels_split(s, 0, c, 256);
    lemma_levels_push(s, x, 0, 256);
    lemma_levels_bounds(s, c, 256);
    lemma_levels_bounds(s, 0, c);
    assert((a + b).insert(a.len() as int, x) =~= a.push(x) + b);
    assert forall|i: int| 0 <= i < a.len() implies (#[trigger] ranked(s)[i]).confidence
        >= x.confidence by {
        assert((a + b)[i] == a[i]);
    }
    assert forall|i: int| a.len() <= i < ranked(s).len() implies (#[trigger] ranked(
        s,
    )[i]).confidence < x.confidence by {
        assert((a + b)[i] == b[i - a.len()]);
    }
}


proof fn lemma_levels_non_increasing(s: Seq<CandidateView>, lo: int, hi: int)
    ensures
        non_increasing(levels(s, lo, hi)),
    decreases hi - lo,
{
    if hi > lo {
        lemma_levels_non_increasing(s, lo, hi - 1);
        lemma_levels_bounds(s, lo, hi - 1);
        let a = at_level(s, hi - 1);
        let b = levels(s, lo, hi - 1);
        assert forall|i: int, j: int| 0 <= i < j < (a + b).len() implies (a + b)[i].confidence >= (a
            + b)[j].confidence by {
            if i < a.len() {
                s.lemma_filter_pred(has_confidence(hi - 1), i);
            }
            if j < a.len() {
                s.lemma_filter_pred(has_confidence(hi - 1), j);
            }
        }
    }
}

proof fn lemma_filter_none(s: Seq<CandidateView>, p: spec_fn(CandidateView) -> bool)
    requires
        forall|i: int| 0 <= i < s.len() ==> !p(#[trigger] s[i]),
    ensures
        s.filter(p) == Seq::<CandidateView>::empty(),
{
    let f = s.filter(p);
    if f.len() > 0 {
        s.lemma_filter_pred(p, 0);
        assert(f.contains(f[0]));
        s.lemma_filter_contains_rev(p, f[0]);
        let i = choose|i: int| 0 <= i < s.len() && s[i] == f[0];
        assert(!p(s[i]));
    }
    assert(f =~= Seq::<CandidateView>::empty());
}

/// Ranking orders by confidence, highest first.
pub proof fn lemma_ranked_non_increasing(s: Seq<CandidateView>)
    ensures
        non_increasing(ranked(s)),
{
    lemma_levels_non_increasing(s, 0, 256);
}

/// Ranking loses, adds and changes nothing: the ranked list holds each
/// candidate as often as the list does.
pub proof fn lemma_ranked_is_permutation(s: Seq<CandidateView>)
    ensures
        ranked(s).to_multiset() == s.to_multiset(),
        ranked(s).len() == s.len(),
    decreases s.len(),
{
    if s.len() == 0 {
        lemma_levels_empty(0, 256);
        assert(s =~= Seq::<CandidateView>::empty());
    } else {
        let t = s.drop_last();
        let x = s.last();
        assert(s =~= t.push(x));
        lemma_ranked_is_permutation(t);
        lemma_ranked_push(t, x);
        lemma_levels_split(t, 0, x.confidence as int, 256);
        let pos = levels(t, x.confidence as int, 256).len() as int;
        vstd::seq_lib::to_multiset_insert(ranked(t), pos, x);
        vstd::seq_lib::to_multiset_build(t, x);
    }
}

/// Ranking is stable: the candidates of one confidence stand in the ranked
/// list in the order in which they stand in the list.
pub proof fn lemma_ranked_is_stable(s: Seq<CandidateView>, c: int)
    ensures
        at_level(ranked(s), c) == at_level(s, c),
    decreases s.len(),
{
    let p = has_confidence(c);
    if s.len() == 0 {
        lemma_levels_empty(0, 256);
        assert(s =~= Seq::<CandidateView>::empty());
    } else {
        let t = s.drop_last();
        let x = s.last();
        assert(s =~= t.push(x));
        lemma_ranked_is_stable(t, c);
        lemma_ranked_push(t, x);
        let a = levels(t, x.confidence as int, 256);
        let b = levels(t, 0, x.confidence as int);
        assert(ranked(s) =~= a.push(x) + b);
        Seq::filter_distributes_over_add(a.push(x), b, p);
        Seq::filter_distributes_over_add(a, b, p);
        a.lemma_filter_push(x, p);
        t.lemma_filter_push(x, p);
        if p(x) {
            lemma_levels_bounds(t, 0, x.confidence as int);
            lemma_filter_none(b, p);
            assert(a.filter(p).push(x) + Seq::<CandidateView>::empty() =~= (a.filter(p)
                + Seq::<CandidateView>::empty()).push(x));
        }
    }
}


/// Ranking keeps confidences in range: every ranked candidate is a candidate
/// of the list.
pub proof fn lemma_ranked_bounded(s: Seq<CandidateView>)
    requires
        all_bounded(s),
    ensures
        all_bounded(ranked(s)),
{
    let r = ranked(s);
    lemma_ranked_is_permutation(s);
    assert forall|i: int| 0 <= i < r.len() implies (#[trigger] r[i]).confidence
        <= crate::model::MAX_CONFIDENCE by {
        assert(r.contains(r[i]));
        vstd::seq_lib::to_multiset_contains(r, r[i]);
        vstd::seq_lib::to_multiset_contains(s, r[i]);
        let m = choose|m: int| 0 <= m < s.len() && s[m] == r[i];
        assert(s[m].confidence <= crate::model::MAX_CONFIDENCE);
    }
}

/// Ranking keeps, for every test, the number of candidates that pass it.
pub proof fn lemma_ranked_keeps_count(s: Seq<CandidateView>, p: spec_fn(CandidateView) -> bool)
    ensures
        ranked(s).filter(p).len() == s.filter(p).len(),
    decreases s.len(),
{
    if s.len() == 0 {
        lemma_levels_empty(0, 256);
        assert(s =~= Seq::<CandidateView>::empty());
    } else {
        let t = s.drop_last();
        let x = s.last();
        assert(s =~= t.push(x));
        lemma_ranked_keeps_count(t, p);
        lemma_ranked_push(t, x);
        let a = levels(t, x.confidence as int, 256);
        let b = levels(t, 0, x.confidence as int);
        assert(ranked(s) =~= a.push(x) + b);
        Seq::filter_distributes_over_add(a.push(x), b, p);
        Seq::filter_distributes_over_add(a, b, p);
        a.lemma_filter_push(x, p);
        t.lemma_filter_push(x, p);
    }
}

/// Ranks candidates: by confidence, highest first; candidates of equal
/// confidence keep the order in which they came.
pub fn rank(cands: Vec<Candidate>) -> (r: Vec<Candidate>)
    ensures
        r.deep_view() == ranked(cands.deep_view()),
        non_increasing(r.deep_view()),
        r.len() == cands.len(),
        r.deep_view().to_multiset() == cands.deep_view().to_multiset(),
        forall|c: int| #[trigger] at_level(r.deep_view(), c) == at_level(cands.deep_view(), c),
        all_bounded(r.deep_view()),
{
    let mut out: Vec<Candidate> = Vec::new();
    let ghost all = cands.deep_view();
    assert(out.deep_view() =~= ranked(all.take(0))) by {
        lemma_levels_empty(0, 256);
        assert(all.take(0) =~= Seq::<CandidateView>::empty());
    }
    for c in it: cands
        invariant
            it.seq().len() == all.len(),
            forall|k: int| 0 <= k < all.len() ==> (#[trigger] it.seq()[k])@ == all[k],
            out.deep_view() == ranked(all.take(it.index() as int)),
            all_bounded(out.deep_view()),
    {
        let ghost done = all.take(it.index() as int);
        let confidence = c.confidence();
        let n = out.len();
        let mut pos: usize = 0;
        while pos < n && out[pos].confidence() >= confidence
            invariant
                n == out.len(),
                pos <= n,
                forall|q: int| 0 <= q < pos ==> (#[trigger] out@[q])@.confidence >= confidence,
            decreases n - pos,
        {
            pos += 1;
        }
        proof {
            lemma_ranked_push(done, c@);
            let split = levels(done, confidence as int, 256).len() as int;
            assert(out.deep_view().len() == out@.len());
            if pos < split {
                assert(out.deep_view()[pos as int] == out@[pos as int]@);
            }
            if pos > split {
                assert(out.deep_view()[split] == out@[split]@);
            }
            assert(pos == split);
            assert(all.take(it.index() + 1) =~= done.push(c@));
        }
        let ghost before = out.deep_view();
        out.insert(pos, c);
        assert(out.deep_view() =~= before.insert(pos as int, c@));
        assert forall|k: int| 0 <= k < out.deep_view().len() implies (#[trigger] out.deep_view()[k]).confidence
            <= crate::model::MAX_CONFIDENCE by {
            if k < pos {
                assert(out.deep_view()[k] == before[k]);
            } else if k > pos {
                assert(out.deep_view()[k] == before[k - 1]);
            }
        }
    }
    assert(all.take(all.len() as int) =~= all);
    proof {
        lemma_ranked_non_increasing(all);
        lemma_ranked_is_permutation(all);
        assert forall|c: int| #[trigger] at_level(ranked(all), c) == at_level(all, c) by {
            lemma_ranked_is_stable(all, c);
        }
    }
    out
}

proof fn lemma_levels_empty(lo: int, hi: int)
    ensures
        levels(Seq::<CandidateView>::empty(), lo, hi) == Seq::<CandidateView>::empty(),
    decreases hi - lo,
{
    if hi > lo {
        lemma_levels_empty(lo, hi - 1);
        Seq::<CandidateView>::empty().lemma_filter_len(has_confidence(hi - 1));
        assert(at_level(Seq::<CandidateView>::empty(), hi - 1) =~= Seq::<CandidateView>::empty());
        assert(at_level(Seq::<CandidateView>::empty(), hi - 1) + Seq::<CandidateView>::empty()
            =~= Seq::<CandidateView>::empty());
    }
}

} // verus!
