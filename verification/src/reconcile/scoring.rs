use vstd::prelude::*;

use super::matcher::{candidate_views, CandidateView, MatchCandidate, MatchQuery};

verus! {

/// `s` is ordered by confidence, highest first.
pub open spec fn by_confidence_desc(s: Seq<CandidateView>) -> bool {
    forall|i: int, j: int| 0 <= i < j < s.len() ==> s[i].confidence >= s[j].confidence
}

/// The candidates of `s` whose confidence is `c`, in order.
pub open spec fn with_confidence(s: Seq<CandidateView>, c: u32) -> Seq<CandidateView> {
    s.filter(has_confidence(c))
}

/// The predicate "has confidence `c`".
pub open spec fn has_confidence(c: u32) -> spec_fn(CandidateView) -> bool {
    |x: CandidateView| x.confidence == c
}

/// `out` is `input` in a stable order of descending confidence: sorted, and
/// the candidates of each confidence keep their relative order.
pub open spec fn stable_desc_of(input: Seq<CandidateView>, out: Seq<CandidateView>) -> bool {
    &&& by_confidence_desc(out)
    &&& forall|c: u32| #[trigger] with_confidence(out, c) == with_confidence(input, c)
}

/// `x` placed after every candidate of `sorted` whose confidence is at
/// least its own.
pub open spec fn insert_desc(sorted: Seq<CandidateView>, x: CandidateView) -> Seq<CandidateView>
    decreases sorted.len(),
{
    if sorted.len() == 0 {
        seq![x]
    } else if sorted.last().confidence >= x.confidence {
        sorted.push(x)
    } else {
        insert_desc(sorted.drop_last(), x).push(sorted.last())
    }
}

/// The stable descending sort of `s` by confidence.
pub open spec fn sort_desc(s: Seq<CandidateView>) -> Seq<CandidateView>
    decreases s.len(),
{
    if s.len() == 0 {
        s
    } else {
        insert_desc(sort_desc(s.drop_last()), s.last())
    }
}

/// What [`score_candidates`] gives: the candidates sorted (stably, by
/// descending confidence) when the query has a display name, else as given.
pub open spec fn scored(query: super::matcher::QueryView, s: Seq<CandidateView>) -> Seq<CandidateView> {
    if query.display_name is Some {
        sort_desc(s)
    } else {
        s
    }
}

proof fn lemma_insert_desc(t: Seq<CandidateView>, x: CandidateView)
    requires
        by_confidence_desc(t),
    ensures
        by_confidence_desc(insert_desc(t, x)),
        insert_desc(t, x).len() == t.len() + 1,
        forall|k: int|
            0 <= k < t.len() + 1 ==> insert_desc(t, x)[k] == x || t.contains(
                #[trigger] insert_desc(t, x)[k],
            ),
        forall|c: u32|
            #[trigger] with_confidence(insert_desc(t, x), c) == if x.confidence == c {
                with_confidence(t, c).push(x)
            } else {
                with_confidence(t, c)
            },
    decreases t.len(),
{
    broadcast use Seq::lemma_filter_push;

    if t.len() == 0 {
        assert forall|c: u32| #[trigger]
            with_confidence(insert_desc(t, x), c) == if x.confidence == c {
                with_confidence(t, c).push(x)
            } else {
                with_confidence(t, c)
            } by {
            assert(insert_desc(t, x) =~= t.push(x));
        }
    } else if t.last().confidence >= x.confidence {
        assert forall|k: int| 0 <= k < t.len() + 1 implies insert_desc(t, x)[k] == x || t.contains(
            #[trigger] insert_desc(t, x)[k],
        ) by {
            if k < t.len() {
                assert(t[k] == insert_desc(t, x)[k]);
            }
        }
    } else {
        let t2 = t.drop_last();
        let last = t.last();
        assert(by_confidence_desc(t2));
        lemma_insert_desc(t2, x);
        let r = insert_desc(t2, x);
        assert(insert_desc(t, x) == r.push(last));
        assert forall|i: int, j: int|
            0 <= i < j < insert_desc(t, x).len() implies insert_desc(t, x)[i].confidence
            >= insert_desc(t, x)[j].confidence by {
            if j == r.len() {
                if r[i] != x {
                    let k = choose|k: int| 0 <= k < t2.len() && t2[k] == r[i];
                    assert(t[k] == t2[k]);
                }
            }
        }
        assert forall|k: int| 0 <= k < t.len() + 1 implies insert_desc(t, x)[k] == x || t.contains(
            #[trigger] insert_desc(t, x)[k],
        ) by {
            if k < r.len() {
                if r[k] != x {
                    let j = choose|j: int| 0 <= j < t2.len() && t2[j] == r[k];
                    assert(t[j] == t2[j]);
                }
            } else {
                assert(t[t.len() - 1] == last);
            }
        }
        assert forall|c: u32| #[trigger]
            with_confidence(insert_desc(t, x), c) == if x.confidence == c {
                with_confidence(t, c).push(x)
            } else {
                with_confidence(t, c)
            } by {
            assert(t == t2.push(last));
            let pc = has_confidence(c);
            r.lemma_filter_push(last, pc);
            t2.lemma_filter_push(last, pc);
            assert(pc(last) == (last.confidence == c));
            assert(with_confidence(r, c) == if x.confidence == c {
                with_confidence(t2, c).push(x)
            } else {
                with_confidence(t2, c)
            });
            assert(with_confidence(insert_desc(t, x), c) == r.push(last).filter(pc));
            assert(with_confidence(t, c) == t2.push(last).filter(pc));
        }
    }
}

/// The stable descending sort satisfies its defining properties.
pub proof fn lemma_sort_desc(s: Seq<CandidateView>)
    ensures
        stable_desc_of(s, sort_desc(s)),
        sort_desc(s).len() == s.len(),
    decreases s.len(),
{
    broadcast use Seq::lemma_filter_push;

    if s.len() > 0 {
        lemma_sort_desc(s.drop_last());
        lemma_insert_desc(sort_desc(s.drop_last()), s.last());
        assert forall|c: u32| #[trigger]
            with_confidence(sort_desc(s), c) == with_confidence(s, c) by {
            assert(s == s.drop_last().push(s.last()));
        }
    }
}

proof fn lemma_insert_desc_at(t: Seq<CandidateView>, x: CandidateView, p: int)
    requires
        0 <= p <= t.len(),
        forall|k: int| p <= k < t.len() ==> #[trigger] t[k].confidence < x.confidence,
        p == 0 || t[p - 1].confidence >= x.confidence,
    ensures
        insert_desc(t, x) == t.insert(p, x),
    decreases t.len(),
{
    if t.len() == 0 {
        assert(insert_desc(t, x) =~= t.insert(p, x));
    } else if p == t.len() {
        assert(insert_desc(t, x) =~= t.insert(p, x));
    } else {
        assert(t.last().confidence < x.confidence);
        let t2 = t.drop_last();
        lemma_insert_desc_at(t2, x, p);
        assert(insert_desc(t, x) =~= t.insert(p, x));
    }
}

/// The candidates ranked for a query: sorted by descending confidence,
/// keeping the given order among equal confidences, when the query has a
/// display name; otherwise unchanged.
pub fn score_candidates(query: &MatchQuery, candidates: &[MatchCandidate]) -> (scored_out: Vec<
    MatchCandidate,
>)
    ensures
        candidate_views(scored_out@) == scored(query@, candidate_views(candidates@)),
        scored_out@.len() == candidates@.len(),
        query.display_name is Some ==> stable_desc_of(
            candidate_views(candidates@),
            candidate_views(scored_out@),
        ),
        query.display_name is None ==> candidate_views(scored_out@) == candidate_views(
            candidates@,
        ),
{
    let ghost input = candidate_views(candidates@);
    let mut out: Vec<MatchCandidate> = Vec::new();
    if query.display_name.is_none() {
        for i in 0..candidates.len()
            invariant
                input == candidate_views(candidates@),
                candidate_views(out@) == input.subrange(0, i as int),
        {
            let c = candidates[i].copy();
            let ghost before = out@;
            out.push(c);
            assert(out@ == before.push(c));
            assert(candidate_views(out@) =~= input.subrange(0, i + 1)) by {
                assert(candidate_views(out@) =~= candidate_views(before).push(c@));
            }
        }
        assert(input.subrange(0, input.len() as int) =~= input);
        return out;
    }
    for i in 0..candidates.len()
        invariant
            input == candidate_views(candidates@),
            candidate_views(out@) == sort_desc(input.subrange(0, i as int)),
            by_confidence_desc(candidate_views(out@)),
    {
        let x = candidates[i].copy();
        let ghost t = candidate_views(out@);
        proof {
            lemma_sort_desc(input.subrange(0, i as int));
        }
        let mut p = out.len();
        while p > 0 && out[p - 1].confidence < x.confidence
            invariant
                t == candidate_views(out@),
                p <= out@.len(),
                forall|k: int| p <= k < t.len() ==> #[trigger] t[k].confidence < x.confidence,
            decreases p,
        {
            p = p - 1;
        }
        proof {
            lemma_insert_desc_at(t, x@, p as int);
            lemma_insert_desc(t, x@);
            assert(input.subrange(0, i + 1).drop_last() =~= input.subrange(0, i as int));
        }
        out.insert(p, x);
        assert(candidate_views(out@) =~= t.insert(p as int, x@));
    }
    proof {
        assert(input.subrange(0, input.len() as int) =~= input);
        lemma_sort_desc(input);
    }
    out
}

} // verus!
