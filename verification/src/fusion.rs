//! Fusion: several discoveries of one endpoint become one candidate.
//!
//! Candidates are grouped by their key. Each group gives one candidate, at
//! the place of the group's first member.
use crate::model::{
    all_bounded, first_present, max_confidence, Candidate, CandidateView, DedupKeyView,
};
use crate::ranking::{
    at_level, lemma_ranked_is_permutation, lemma_ranked_keeps_count, non_increasing, rank, ranked,
};
use vstd::prelude::*;

verus! {

/// The test "has key `k`".
pub open spec fn has_key(k: DedupKeyView) -> spec_fn(CandidateView) -> bool {
    |x: CandidateView| x.key() == k
}

/// Whether a candidate of `s` has key `k`.
pub open spec fn has_key_in(s: Seq<CandidateView>, k: DedupKeyView) -> bool {
    exists|j: int| 0 <= j < s.len() && (#[trigger] s[j]).key() == k
}

/// The group of key `k`: the candidates of `s` with that key, in their order
/// in `s`.
pub open spec fn group(s: Seq<CandidateView>, k: DedupKeyView) -> Seq<CandidateView> {
    s.filter(has_key(k))
}

/// The candidates of `s` that are the first of their key, in their order in
/// `s`.
pub open spec fn firsts(s: Seq<CandidateView>) -> Seq<CandidateView>
    decreases s.len(),
{
    if s.len() == 0 {
        Seq::empty()
    } else if has_key_in(s.drop_last(), s.last().key()) {
        firsts(s.drop_last())
    } else {
        firsts(s.drop_last()).push(s.last())
    }
}

/// The highest confidence in `g`, 0 where `g` is empty.
pub open spec fn top_confidence(g: Seq<CandidateView>) -> u8
    decreases g.len(),
{
    if g.len() == 0 {
        0
    } else {
        max_confidence(top_confidence(g.drop_last()), g.last().confidence)
    }
}

/// The notes of all candidates of `g`, in the order of `g`.
pub open spec fn all_notes(g: Seq<CandidateView>) -> Seq<Seq<char>>
    decreases g.len(),
{
    if g.len() == 0 {
        Seq::empty()
    } else {
        all_notes(g.drop_last()) + g.last().notes
    }
}

/// The first text in `texts` that is present.
pub open spec fn first_text(texts: Seq<Option<Seq<char>>>) -> Option<Seq<char>>
    decreases texts.len(),
{
    if texts.len() == 0 {
        None
    } else {
        first_present(first_text(texts.drop_last()), texts.last())
    }
}

/// The display names of `g`, one for each candidate.
pub open spec fn make_models(g: Seq<CandidateView>) -> Seq<Option<Seq<char>>> {
    Seq::new(g.len(), |i: int| g[i].make_model)
}

/// The serial numbers of `g`, one for each candidate.
pub open spec fn serials(g: Seq<CandidateView>) -> Seq<Option<Seq<char>>> {
    Seq::new(g.len(), |i: int| g[i].serial)
}

/// The vendor identifiers of `g`, one for each candidate.
pub open spec fn vids(g: Seq<CandidateView>) -> Seq<Option<Seq<char>>> {
    Seq::new(g.len(), |i: int| g[i].vid)
}

/// The product identifiers of `g`, one for each candidate.
pub open spec fn pids(g: Seq<CandidateView>) -> Seq<Option<Seq<char>>> {
    Seq::new(g.len(), |i: int| g[i].pid)
}

/// The one candidate that stands for the group `g`: the transport of its
/// first member, the highest confidence, of each optional field the first
/// value that is present, and the notes of all members in order.
pub open spec fn merged_group(g: Seq<CandidateView>) -> CandidateView {
    CandidateView {
        transport: g[0].transport,
        make_model: first_text(make_models(g)),
        serial: first_text(serials(g)),
        vid: first_text(vids(g)),
        pid: first_text(pids(g)),
        confidence: top_confidence(g),
        notes: all_notes(g),
    }
}

/// `s` fused: for each key of `s`, in the order in which the keys first
/// occur, the candidate that stands for the key's group.
pub open spec fn fused(s: Seq<CandidateView>) -> Seq<CandidateView> {
    Seq::new(firsts(s).len(), |i: int| merged_group(group(s, firsts(s)[i].key())))
}

/// Whether no two candidates of `s` have the same key.
pub open spec fn distinct_keys(s: Seq<CandidateView>) -> bool {
    forall|i: int, j: int| 0 <= i < j < s.len() ==> s[i].key() != s[j].key()
}


proof fn lemma_merged_single(x: CandidateView)
    ensures
        merged_group(seq![x]) == x,
{
    let g = seq![x];
    assert(g.drop_last() =~= Seq::<CandidateView>::empty());
    assert(make_models(g).drop_last() =~= Seq::<Option<Seq<char>>>::empty());
    assert(serials(g).drop_last() =~= Seq::<Option<Seq<char>>>::empty());
    assert(vids(g).drop_last() =~= Seq::<Option<Seq<char>>>::empty());
    assert(pids(g).drop_last() =~= Seq::<Option<Seq<char>>>::empty());
    assert(all_notes(g.drop_last()) + x.notes =~= x.notes);
    reveal_with_fuel(first_text, 2);
    reveal_with_fuel(top_confidence, 2);
    reveal_with_fuel(all_notes, 2);
}

/// The candidate that stands for a group with one more member is the
/// candidate that stood for the group, merged with that member.
proof fn lemma_merged_push(g: Seq<CandidateView>, x: CandidateView)
    requires
        g.len() > 0,
    ensures
        merged_group(g.push(x)) == merged_group(g).merged(x),
{
    let h = g.push(x);
    assert(h.drop_last() =~= g);
    assert(make_models(h).drop_last() =~= make_models(g));
    assert(serials(h).drop_last() =~= serials(g));
    assert(vids(h).drop_last() =~= vids(g));
    assert(pids(h).drop_last() =~= pids(g));
}

proof fn lemma_has_key_push(t: Seq<CandidateView>, x: CandidateView, k: DedupKeyView)
    ensures
        has_key_in(t.push(x), k) <==> (has_key_in(t, k) || x.key() == k),
{
    let s = t.push(x);
    if has_key_in(t, k) {
        let j = choose|j: int| 0 <= j < t.len() && (#[trigger] t[j]).key() == k;
        assert(s[j].key() == k);
    }
    if x.key() == k {
        assert(s[t.len() as int].key() == k);
    }
    if has_key_in(s, k) {
        let j = choose|j: int| 0 <= j < s.len() && (#[trigger] s[j]).key() == k;
        if j < t.len() {
            assert(t[j].key() == k);
        }
    }
}

/// The first members carry exactly the keys of the list, each once.
proof fn lemma_firsts(s: Seq<CandidateView>)
    ensures
        forall|k: DedupKeyView| has_key_in(firsts(s), k) <==> has_key_in(s, k),
        distinct_keys(firsts(s)),
        firsts(s).len() <= s.len(),
    decreases s.len(),
{
    if s.len() > 0 {
        let t = s.drop_last();
        let x = s.last();
        assert(s =~= t.push(x));
        lemma_firsts(t);
        assert forall|k: DedupKeyView| has_key_in(firsts(s), k) <==> has_key_in(s, k) by {
            lemma_has_key_push(t, x, k);
            lemma_has_key_push(firsts(t), x, k);
        }
        if !has_key_in(t, x.key()) {
            let f = firsts(t);
            assert forall|i: int, j: int| 0 <= i < j < f.push(x).len() implies f.push(x)[i].key()
                != f.push(x)[j].key() by {
                if j == f.len() {
                    assert(f[i].key() == f.push(x)[i].key());
                }
            }
        }
    }
}

/// A key has a group with a member exactly if a candidate has the key, and
/// every member of the group has the key.
proof fn lemma_group(s: Seq<CandidateView>, k: DedupKeyView)
    ensures
        has_key_in(s, k) <==> group(s, k).len() > 0,
        forall|i: int| 0 <= i < group(s, k).len() ==> (#[trigger] group(s, k)[i]).key() == k,
{
    let g = group(s, k);
    assert forall|i: int| 0 <= i < g.len() implies (#[trigger] g[i]).key() == k by {
        s.lemma_filter_pred(has_key(k), i);
    }
    if has_key_in(s, k) {
        let j = choose|j: int| 0 <= j < s.len() && (#[trigger] s[j]).key() == k;
        s.lemma_filter_contains(has_key(k), j);
    }
    if g.len() > 0 {
        assert(g.contains(g[0]));
        s.lemma_filter_contains_rev(has_key(k), g[0]);
        let j = choose|j: int| 0 <= j < s.len() && s[j] == g[0];
        assert(s[j].key() == k);
    }
}

/// Each fused candidate has the key of the first member that it stands for.
proof fn lemma_fused_keys(s: Seq<CandidateView>)
    ensures
        fused(s).len() == firsts(s).len(),
        forall|j: int| 0 <= j < fused(s).len() ==> (#[trigger] fused(s)[j]).key() == firsts(s)[j].key(),
{
    lemma_firsts(s);
    assert forall|j: int| 0 <= j < fused(s).len() implies (#[trigger] fused(s)[j]).key() == firsts(
        s,
    )[j].key() by {
        let k = firsts(s)[j].key();
        assert(has_key_in(firsts(s), k));
        lemma_group(s, k);
    }
}

/// What one more candidate does to the fused list: a candidate with a new
/// key is appended, another is merged into the candidate that has its key.
proof fn lemma_fused_push(t: Seq<CandidateView>, x: CandidateView)
    ensures
        !has_key_in(fused(t), x.key()) ==> fused(t.push(x)) == fused(t).push(x),
        forall|j: int|
            0 <= j < fused(t).len() && (#[trigger] fused(t)[j]).key() == x.key() ==> fused(
                t.push(x),
            ) == fused(t).update(j, fused(t)[j].merged(x)),
{
    let s = t.push(x);
    let k = x.key();
    assert(s.drop_last() =~= t);
    lemma_firsts(t);
    lemma_fused_keys(t);
    t.lemma_filter_push(x, has_key(k));
    lemma_group(t, k);
    if !has_key_in(fused(t), k) {
        if has_key_in(firsts(t), k) {
            let j = choose|j: int| 0 <= j < firsts(t).len() && (#[trigger] firsts(t)[j]).key() == k;
            assert(fused(t)[j].key() == k);
        }
        assert(!has_key_in(t, k));
        assert(firsts(s) == firsts(t).push(x));
        assert forall|i: int| 0 <= i < fused(s).len() implies fused(s)[i] == fused(t).push(
            x,
        )[i] by {
            let ki = firsts(s)[i].key();
            t.lemma_filter_push(x, has_key(ki));
            if i < firsts(t).len() {
                assert(has_key_in(firsts(t), firsts(t)[i].key()));
            } else {
                assert(group(s, k) =~= seq![x]);
                lemma_merged_single(x);
            }
        }
        assert(fused(s) =~= fused(t).push(x));
    }
    assert forall|j: int|
        0 <= j < fused(t).len() && (#[trigger] fused(t)[j]).key() == k implies fused(s) == fused(
        t,
    ).update(j, fused(t)[j].merged(x)) by {
        assert(firsts(t)[j].key() == k);
        assert(has_key_in(firsts(t), k));
        assert(has_key_in(t, k));
        assert(firsts(s) == firsts(t));
        let u = fused(t).update(j, fused(t)[j].merged(x));
        assert forall|i: int| 0 <= i < fused(s).len() implies fused(s)[i] == u[i] by {
            let ki = firsts(t)[i].key();
            t.lemma_filter_push(x, has_key(ki));
            if ki == k {
                assert(i == j);
                lemma_merged_push(group(t, k), x);
            }
        }
        assert(fused(s) =~= u);
    }
}


/// The candidate that stands for a group is at least as confident as every
/// member, and exactly as confident as one of them.
pub proof fn lemma_top_confidence(g: Seq<CandidateView>)
    requires
        g.len() > 0,
    ensures
        forall|i: int| 0 <= i < g.len() ==> merged_group(g).confidence >= (#[trigger] g[i]).confidence,
        exists|i: int| 0 <= i < g.len() && merged_group(g).confidence == (#[trigger] g[i]).confidence,
    decreases g.len(),
{
    let h = g.drop_last();
    if h.len() == 0 {
        assert(top_confidence(h) == 0);
        assert(merged_group(g).confidence == g[0].confidence);
    } else {
        lemma_top_confidence(h);
        assert forall|i: int| 0 <= i < g.len() implies merged_group(g).confidence >= (#[trigger] g[i]).confidence by {
            if i < h.len() {
                assert(h[i] == g[i]);
            }
        }
        let w = choose|i: int| 0 <= i < h.len() && merged_group(h).confidence == (#[trigger] h[i]).confidence;
        assert(h[w] == g[w]);
        if merged_group(g).confidence == g.last().confidence {
            assert(g[g.len() - 1].confidence == merged_group(g).confidence);
        } else {
            assert(g[w].confidence == merged_group(g).confidence);
        }
    }
}

/// In a fused list no two candidates have the same key.
pub proof fn lemma_fused_keys_distinct(s: Seq<CandidateView>)
    ensures
        distinct_keys(fused(s)),
        fused(s).len() <= s.len(),
{
    lemma_firsts(s);
    lemma_fused_keys(s);
}

/// The fused list has a candidate for a key exactly if the list has one, and
/// that candidate is the one that stands for the key's group.
pub proof fn lemma_fused_stands_for_group(s: Seq<CandidateView>, k: DedupKeyView)
    ensures
        has_key_in(fused(s), k) <==> has_key_in(s, k),
        forall|j: int|
            0 <= j < fused(s).len() && (#[trigger] fused(s)[j]).key() == k ==> fused(s)[j]
                == merged_group(group(s, k)),
{
    lemma_firsts(s);
    lemma_fused_keys(s);
    if has_key_in(s, k) {
        assert(has_key_in(firsts(s), k));
        let j = choose|j: int| 0 <= j < firsts(s).len() && (#[trigger] firsts(s)[j]).key() == k;
        assert(fused(s)[j].key() == k);
    }
    if has_key_in(fused(s), k) {
        let j = choose|j: int| 0 <= j < fused(s).len() && (#[trigger] fused(s)[j]).key() == k;
        assert(firsts(s)[j].key() == k);
    }
}

/// Fusion keeps confidences in range: the confidence of a fused candidate is
/// that of a candidate of the list.
pub proof fn lemma_fused_bounded(s: Seq<CandidateView>)
    requires
        all_bounded(s),
    ensures
        all_bounded(fused(s)),
{
    lemma_firsts(s);
    assert forall|i: int| 0 <= i < fused(s).len() implies (#[trigger] fused(s)[i]).confidence
        <= crate::model::MAX_CONFIDENCE by {
        let k = firsts(s)[i].key();
        let g = group(s, k);
        assert(has_key_in(firsts(s), k));
        lemma_group(s, k);
        lemma_top_confidence(g);
        let w = choose|w: int| 0 <= w < g.len() && merged_group(g).confidence == (#[trigger] g[w]).confidence;
        assert(g.contains(g[w]));
        s.lemma_filter_contains_rev(has_key(k), g[w]);
        let m = choose|m: int| 0 <= m < s.len() && s[m] == g[w];
        assert(s[m].confidence <= crate::model::MAX_CONFIDENCE);
    }
}

/// Fuses candidates: the candidates of one key become one candidate, which
/// stands where the first of them stood.
pub fn fuse(cands: Vec<Candidate>) -> (r: Vec<Candidate>)
    ensures
        r.deep_view() == fused(cands.deep_view()),
        distinct_keys(r.deep_view()),
        r.len() <= cands.len(),
        all_bounded(r.deep_view()),
{
    let mut out: Vec<Candidate> = Vec::new();
    let ghost all = cands.deep_view();
    assert(all.take(0) =~= Seq::<CandidateView>::empty());
    assert(out.deep_view() =~= fused(all.take(0)));
    for c in it: cands
        invariant
            it.seq().len() == all.len(),
            forall|k: int| 0 <= k < all.len() ==> (#[trigger] it.seq()[k])@ == all[k],
            out.deep_view() == fused(all.take(it.index() as int)),
            all_bounded(out.deep_view()),
    {
        let ghost done = all.take(it.index() as int);
        let ghost before = out.deep_view();
        let n = out.len();
        let mut j: usize = 0;
        while j < n && !out[j].transport().same_endpoint(c.transport())
            invariant
                n == out.len(),
                j <= n,
                forall|q: int| 0 <= q < j ==> (#[trigger] out@[q])@.key() != c@.key(),
            decreases n - j,
        {
            j += 1;
        }
        proof {
            lemma_fused_push(done, c@);
            assert(all.take(it.index() + 1) =~= done.push(c@));
            assert(before.len() == out@.len());
            if j < n {
                assert(before[j as int] == out@[j as int]@);
            } else {
                if has_key_in(before, c@.key()) {
                    let q = choose|q: int| 0 <= q < before.len() && (#[trigger] before[q]).key() == c@.key();
                    assert(before[q] == out@[q]@);
                }
            }
        }
        if j < n {
            let mut target = out.remove(j);
            target.absorb(c);
            let ghost merged = target@;
            proof {
                use_type_invariant(&target);
                crate::model::lemma_in_range(target);
            }
            out.insert(j, target);
            assert(out.deep_view() =~= before.update(j as int, merged));
        } else {
            proof {
                use_type_invariant(&c);
                crate::model::lemma_in_range(c);
            }
            out.push(c);
            assert(out.deep_view() =~= before.push(c@));
        }
        assert forall|k: int| 0 <= k < out.deep_view().len() implies (#[trigger] out.deep_view()[k]).confidence
            <= crate::model::MAX_CONFIDENCE by {
            if k < before.len() && k != j {
                assert(out.deep_view()[k] == before[k]);
            }
        }
    }
    assert(all.take(all.len() as int) =~= all);
    proof {
        lemma_firsts(all);
        lemma_fused_keys(all);
    }
    out
}


/// Where one candidate alone has a key, it is the key's group.
proof fn lemma_group_of_one(s: Seq<CandidateView>, i: int)
    requires
        0 <= i < s.len(),
        forall|m: int| 0 <= m < s.len() && m != i ==> (#[trigger] s[m]).key() != s[i].key(),
    ensures
        group(s, s[i].key()) == seq![s[i]],
    decreases s.len(),
{
    let k = s[i].key();
    let t = s.drop_last();
    let x = s.last();
    assert(s =~= t.push(x));
    t.lemma_filter_push(x, has_key(k));
    if i == s.len() - 1 {
        assert forall|m: int| 0 <= m < t.len() implies !has_key(k)(#[trigger] t[m]) by {
            assert(t[m] == s[m]);
        }
        lemma_no_group(t, k);
        assert(Seq::<CandidateView>::empty().push(x) =~= seq![x]);
    } else {
        assert(t[i] == s[i]);
        assert forall|m: int| 0 <= m < t.len() && m != i implies (#[trigger] t[m]).key() != t[i].key() by {
            assert(t[m] == s[m]);
        }
        lemma_group_of_one(t, i);
        assert(s[s.len() - 1].key() != k);
    }
}

/// Where no candidate has a key, the key's group is empty.
proof fn lemma_no_group(s: Seq<CandidateView>, k: DedupKeyView)
    requires
        forall|m: int| 0 <= m < s.len() ==> !has_key(k)(#[trigger] s[m]),
    ensures
        group(s, k) == Seq::<CandidateView>::empty(),
{
    lemma_group(s, k);
    if group(s, k).len() > 0 {
        let j = choose|j: int| 0 <= j < s.len() && (#[trigger] s[j]).key() == k;
        assert(has_key(k)(s[j]));
    }
    assert(group(s, k) =~= Seq::<CandidateView>::empty());
}

/// Where two candidates, and no others, have a key, the two are the key's
/// group.
proof fn lemma_group_of_two(s: Seq<CandidateView>, i: int, j: int)
    requires
        0 <= i < j < s.len(),
        s[i].key() == s[j].key(),
        forall|m: int| 0 <= m < s.len() && m != i && m != j ==> (#[trigger] s[m]).key() != s[i].key(),
    ensures
        group(s, s[i].key()) == seq![s[i], s[j]],
    decreases s.len(),
{
    let k = s[i].key();
    let t = s.drop_last();
    let x = s.last();
    assert(s =~= t.push(x));
    t.lemma_filter_push(x, has_key(k));
    assert(t[i] == s[i]);
    if j == s.len() - 1 {
        assert forall|m: int| 0 <= m < t.len() && m != i implies (#[trigger] t[m]).key() != t[i].key() by {
            assert(t[m] == s[m]);
        }
        lemma_group_of_one(t, i);
        assert(seq![s[i]].push(x) =~= seq![s[i], s[j]]);
    } else {
        assert(t[j] == s[j]);
        assert forall|m: int| 0 <= m < t.len() && m != i && m != j implies (#[trigger] t[m]).key()
            != t[i].key() by {
            assert(t[m] == s[m]);
        }
        lemma_group_of_two(t, i, j);
        assert(s[s.len() - 1].key() != k);
    }
}

/// After fusion and ranking there is, for each key of the list, exactly one
/// candidate: the one that stands for the key's group.
pub proof fn lemma_one_candidate_per_key(s: Seq<CandidateView>, k: DedupKeyView)
    requires
        has_key_in(s, k),
    ensures
        group(ranked(fused(s)), k) == seq![merged_group(group(s, k))],
{
    let u = fused(s);
    let e = merged_group(group(s, k));
    lemma_fused_keys_distinct(s);
    lemma_fused_stands_for_group(s, k);
    let j = choose|j: int| 0 <= j < u.len() && (#[trigger] u[j]).key() == k;
    assert(u[j] == e);
    lemma_group_of_one(u, j);
    lemma_ranked_keeps_count(u, has_key(k));
    let g = group(ranked(u), k);
    assert(g.len() == 1);
    lemma_group(ranked(u), k);
    assert(g.contains(g[0]));
    ranked(u).lemma_filter_contains_rev(has_key(k), g[0]);
    lemma_ranked_is_permutation(u);
    vstd::seq_lib::to_multiset_contains(ranked(u), g[0]);
    vstd::seq_lib::to_multiset_contains(u, g[0]);
    let m = choose|m: int| 0 <= m < u.len() && u[m] == g[0];
    assert(u[m].key() == k);
    assert(m == j);
    assert(g =~= seq![e]);
}

/// Two candidates that share a key, where no third has it, end as one
/// candidate: its confidence is the larger of the two, its notes are those of
/// the first followed by those of the second, and of each optional field it
/// has the first value that is present.
pub proof fn lemma_shared_key_merges(s: Seq<CandidateView>, i: int, j: int)
    requires
        0 <= i < j < s.len(),
        s[i].key() == s[j].key(),
        forall|m: int| 0 <= m < s.len() && m != i && m != j ==> (#[trigger] s[m]).key() != s[i].key(),
    ensures
        group(ranked(fused(s)), s[i].key()) == seq![s[i].merged(s[j])],
        s[i].merged(s[j]).confidence == max_confidence(s[i].confidence, s[j].confidence),
        s[i].merged(s[j]).notes == s[i].notes + s[j].notes,
        s[i].merged(s[j]).transport == s[i].transport,
        s[i].merged(s[j]).make_model == first_present(s[i].make_model, s[j].make_model),
        s[i].merged(s[j]).serial == first_present(s[i].serial, s[j].serial),
        s[i].merged(s[j]).vid == first_present(s[i].vid, s[j].vid),
        s[i].merged(s[j]).pid == first_present(s[i].pid, s[j].pid),
{
    let k = s[i].key();
    assert(has_key_in(s, k));
    lemma_one_candidate_per_key(s, k);
    lemma_group_of_two(s, i, j);
    lemma_merged_single(s[i]);
    lemma_merged_push(seq![s[i]], s[j]);
    assert(seq![s[i]].push(s[j]) =~= seq![s[i], s[j]]);
}

/// Candidates with different keys are never merged: a candidate that alone
/// has its key is in the final list as it was.
pub proof fn lemma_lone_key_is_kept(s: Seq<CandidateView>, i: int)
    requires
        0 <= i < s.len(),
        forall|m: int| 0 <= m < s.len() && m != i ==> (#[trigger] s[m]).key() != s[i].key(),
    ensures
        group(ranked(fused(s)), s[i].key()) == seq![s[i]],
{
    assert(has_key_in(s, s[i].key()));
    lemma_one_candidate_per_key(s, s[i].key());
    lemma_group_of_one(s, i);
    lemma_merged_single(s[i]);
}

/// Fuses and ranks: one candidate for each key, the most confident first,
/// candidates of equal confidence in the order in which their keys first
/// occurred.
pub fn fuse_and_rank(cands: Vec<Candidate>) -> (r: Vec<Candidate>)
    ensures
        r.deep_view() == ranked(fused(cands.deep_view())),
        all_bounded(r.deep_view()),
        distinct_keys(r.deep_view()),
        non_increasing(r.deep_view()),
        forall|c: int| #[trigger] at_level(r.deep_view(), c) == at_level(fused(cands.deep_view()), c),
        r.len() <= cands.len(),
{
    let r = rank(fuse(cands));
    proof {
        lemma_ranked_keeps_distinct_keys(fused(cands.deep_view()));
    }
    r
}

/// Ranking a list without two candidates of one key gives such a list.
pub proof fn lemma_ranked_keeps_distinct_keys(u: Seq<CandidateView>)
    requires
        distinct_keys(u),
    ensures
        distinct_keys(ranked(u)),
{
    let r = ranked(u);
    assert forall|a: int, b: int| 0 <= a < b < r.len() implies r[a].key() != r[b].key() by {
        if r[a].key() == r[b].key() {
            let k = r[a].key();
            lemma_ranked_is_permutation(u);
            vstd::seq_lib::to_multiset_contains(r, r[a]);
            vstd::seq_lib::to_multiset_contains(u, r[a]);
            assert(r.contains(r[a]));
            let m = choose|m: int| 0 <= m < u.len() && u[m] == r[a];
            lemma_group_of_one(u, m);
            lemma_ranked_keeps_count(u, has_key(k));
            lemma_two_in_group(r, a, b);
        }
    }
}

/// Two candidates of one key make a group of two or more.
proof fn lemma_two_in_group(s: Seq<CandidateView>, a: int, b: int)
    requires
        0 <= a < b < s.len(),
        s[a].key() == s[b].key(),
    ensures
        group(s, s[a].key()).len() >= 2,
    decreases s.len(),
{
    let k = s[a].key();
    let t = s.drop_last();
    let x = s.last();
    assert(s =~= t.push(x));
    t.lemma_filter_push(x, has_key(k));
    if b == s.len() - 1 {
        assert(t[a] == s[a]);
        assert(has_key_in(t, k));
        lemma_group(t, k);
    } else {
        assert(t[a] == s[a]);
        assert(t[b] == s[b]);
        lemma_two_in_group(t, a, b);
        t.lemma_filter_len(has_key(k));
    }
}

} // verus!
