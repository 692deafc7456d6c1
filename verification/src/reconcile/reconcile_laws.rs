//! Laws of the reconciliation procedure: over any store, and over the
//! in-memory store.

use vstd::prelude::*;

use crate::domain::{CitationLocator, CitationRecord, Entity, EntityType, SourceRecord, SubjectRef};
use crate::external::attribute_text;
use crate::id::{CanonicalId, ExternalId};

use super::index_laws::{
    kind_ids, law_link_then_lookup, lemma_link_keeps_kind_ids, lemma_upsert_keys, lemma_upsert_new_lookup, law_upsert_new_then_lookup, subject_external_ids,
};
use super::laws::law_search_candidates_sound;
use super::memory_store::InMemoryReconciliationStore;
use super::model::{
    add_locators, citation_of, first_citation_index, first_index_of, has_locator, lemma_first_index_of, link, lookup, merge_locators, same_locator, search, upsert,
    CatalogModel, CitationModel,
};
use super::policy::ReconciliationPolicy;
use super::reconciler::{
    first_hint_system, first_hint_title, source_request, entity_request, entity_type_request, ImportCandidate, SourceHint,
    citation_match, first_mapped, link_all, resolve, resolve_all, strict_rejection_reason, subject_locators, OutcomeView, Request,
};
use super::store::{subject_id, subject_kind, CanonicalSubject, ReconciliationStore, SubjectKind};

verus! {

/// An external id already mapped in the store is reused: the first mapped
/// id of the request decides an exact match of confidence 100, under every
/// policy, and nothing is written.
pub proof fn law_exact_match_first<S: ReconciliationStore>(
    m: S::V,
    r: Request,
    policy: ReconciliationPolicy,
    id: CanonicalId,
)
    requires
        first_mapped::<S>(m, r.kind, r.external_ids) == Some(id),
    ensures
        resolve::<S>(m, r, policy) == (m, OutcomeView::Matched { id, confidence: 100 }),
{
}

/// What each outcome implies. Ambiguity comes only under the guided policy,
/// writes nothing and reports every search candidate; a match has
/// confidence at least 95; a record is created only when no external id is
/// mapped, it is no citation of an already cited subject and source, the
/// search found nothing to match (or the policy is permissive),
/// and its id holds no record yet, and then the request's external ids are
/// linked to it; a conflict writes nothing and either refuses a search
/// result under the strict policy or names the record that already holds
/// the subject's id.
pub proof fn law_outcomes<S: ReconciliationStore>(m: S::V, r: Request, policy: ReconciliationPolicy)
    ensures
        ({
            let res = resolve::<S>(m, r, policy);
            let found = S::spec_search(m, r.kind, r.query);
            let unique_match = found.len() == 1 && found[0].confidence >= 95;
            let held = S::spec_holds(m, subject_kind(r.subject), subject_id(r.subject));
            &&& res.1 matches OutcomeView::Ambiguous { candidates } ==> {
                &&& res.0 == m
                &&& candidates == found
                &&& found.len() > 0
                &&& !unique_match
                &&& policy == ReconciliationPolicy::Guided
            }
            &&& res.1 matches OutcomeView::Matched { id, confidence } ==> confidence >= 95
            &&& res.1 is Created ==> {
                &&& first_mapped::<S>(m, r.kind, r.external_ids) is None
                &&& citation_match::<S>(m, r.subject) is None
                &&& !unique_match
                &&& (found.len() == 0 || policy == ReconciliationPolicy::Permissive)
                &&& !held
                &&& res == (
                    link_all::<S>(
                        S::spec_upsert(m, r.subject).0,
                        r.kind,
                        S::spec_upsert(m, r.subject).1,
                        r.external_ids,
                    ),
                    OutcomeView::Created { id: S::spec_upsert(m, r.subject).1 },
                )
            }
            &&& res.1 matches OutcomeView::Conflict { existing, reason, fields } ==> {
                &&& res.0 == m
                &&& ((policy == ReconciliationPolicy::Strict && found.len() > 0 && existing == found[0].id)
                    || (held && existing == subject_id(r.subject)))
            }
        }),
{
}

/// A search result that is not a single match of confidence 95 or more
/// needs review: under the guided policy every result is reported as
/// ambiguous, under the strict policy the best one is refused as a
/// conflict; nothing is written either way.
pub proof fn law_review_required<S: ReconciliationStore>(m: S::V, r: Request, policy: ReconciliationPolicy)
    requires
        first_mapped::<S>(m, r.kind, r.external_ids) is None,
        citation_match::<S>(m, r.subject) is None,
        S::spec_search(m, r.kind, r.query).len() > 0,
        !(S::spec_search(m, r.kind, r.query).len() == 1 && S::spec_search(m, r.kind, r.query)[0].confidence
            >= 95),
        policy != ReconciliationPolicy::Permissive,
    ensures
        resolve::<S>(m, r, policy).0 == m,
        policy == ReconciliationPolicy::Guided ==> resolve::<S>(m, r, policy).1 == (OutcomeView::Ambiguous {
            candidates: S::spec_search(m, r.kind, r.query),
        }),
        policy == ReconciliationPolicy::Strict ==> resolve::<S>(m, r, policy).1 == (OutcomeView::Conflict {
            existing: S::spec_search(m, r.kind, r.query)[0].id,
            reason: strict_rejection_reason(),
            fields: Seq::empty(),
        }),
{
}

/// No silent destructive merge: when the subject's id already holds a
/// record of its kind, resolution never stores the subject; the store is
/// left unchanged unless a match links external ids.
pub proof fn law_no_overwrite<S: ReconciliationStore>(m: S::V, r: Request, policy: ReconciliationPolicy)
    requires
        S::spec_holds(m, subject_kind(r.subject), subject_id(r.subject)),
    ensures
        !(resolve::<S>(m, r, policy).1 is Created),
        resolve::<S>(m, r, policy).1 is Matched || resolve::<S>(m, r, policy).0 == m,
{
}

/// A batch gives one outcome per request.
pub proof fn law_one_outcome_per_request<S: ReconciliationStore>(
    m: S::V,
    reqs: Seq<Request>,
    policy: ReconciliationPolicy,
)
    ensures
        resolve_all::<S>(m, reqs, policy).1.len() == reqs.len(),
    decreases reqs.len(),
{
    if reqs.len() > 0 {
        law_one_outcome_per_request::<S>(m, reqs.drop_last(), policy);
    }
}

proof fn lemma_first_mapped_none(m: CatalogModel, kind: SubjectKind, ids: Seq<ExternalId>)
    requires
        first_mapped::<InMemoryReconciliationStore>(m, kind, ids) is None,
    ensures
        forall|j: int| 0 <= j < ids.len() ==> lookup(m, kind, #[trigger] ids[j]) is None,
    decreases ids.len(),
{
    if ids.len() > 0 {
        lemma_first_mapped_none(m, kind, ids.drop_first());
        assert forall|j: int| 0 <= j < ids.len() implies lookup(m, kind, #[trigger] ids[j]) is None by {
            if j > 0 {
                assert(ids[j] == ids.drop_first()[j - 1]);
            }
        }
    }
}

proof fn lemma_link_all(
    m: CatalogModel,
    kind: SubjectKind,
    c: CanonicalId,
    ids: Seq<ExternalId>,
    all: Seq<ExternalId>,
    done: Seq<ExternalId>,
)
    requires
        first_index_of(kind_ids(m, kind), c) is Some,
        forall|j: int| 0 <= j < all.len() ==> (lookup(m, kind, #[trigger] all[j]) is None || lookup(m, kind, all[j]) == Some(c)),
        forall|j: int| 0 <= j < ids.len() ==> all.contains(#[trigger] ids[j]),
        forall|j: int| 0 <= j < done.len() ==> lookup(m, kind, #[trigger] done[j]) == Some(c),
    ensures
        forall|j: int|
            0 <= j < ids.len() ==> lookup(
                link_all::<InMemoryReconciliationStore>(m, kind, c, ids),
                kind,
                #[trigger] ids[j],
            ) == Some(c),
        forall|j: int|
            0 <= j < done.len() ==> lookup(
                link_all::<InMemoryReconciliationStore>(m, kind, c, ids),
                kind,
                #[trigger] done[j],
            ) == Some(c),
    decreases ids.len(),
{
    if ids.len() > 0 {
        let e0 = ids[0];
        let m1 = link(m, kind, c, e0);
        lemma_link_keeps_kind_ids(m, kind, c, e0);
        let k0 = choose|k: int| 0 <= k < all.len() && all[k] == e0;
        assert(lookup(m, kind, all[k0]) is None || lookup(m, kind, all[k0]) == Some(c));
        law_link_then_lookup(m, kind, c, e0, e0, kind);
        assert forall|j: int| 0 <= j < all.len() implies (lookup(m1, kind, #[trigger] all[j]) is None
            || lookup(m1, kind, all[j]) == Some(c)) by {
            law_link_then_lookup(m, kind, c, e0, all[j], kind);
        }
        let done1 = done.push(e0);
        assert forall|j: int| 0 <= j < done1.len() implies lookup(m1, kind, #[trigger] done1[j]) == Some(c) by {
            law_link_then_lookup(m, kind, c, e0, done1[j], kind);
            if j < done.len() {
                assert(done1[j] == done[j]);
            }
        }
        let rest = ids.drop_first();
        assert forall|j: int| 0 <= j < rest.len() implies all.contains(#[trigger] rest[j]) by {
            assert(rest[j] == ids[j + 1]);
        }
        lemma_link_all(m1, kind, c, rest, all, done1);
        assert forall|j: int|
            0 <= j < ids.len() implies lookup(
            link_all::<InMemoryReconciliationStore>(m, kind, c, ids),
            kind,
            #[trigger] ids[j],
        ) == Some(c) by {
            if j == 0 {
                assert(done1[done.len() as int] == e0);
            } else {
                assert(ids[j] == rest[j - 1]);
            }
        }
        assert forall|j: int|
            0 <= j < done.len() implies lookup(
            link_all::<InMemoryReconciliationStore>(m, kind, c, ids),
            kind,
            #[trigger] done[j],
        ) == Some(c) by {
            assert(done1[j] == done[j]);
        }
    }
}

/// A candidate matched by search gets all its external ids linked, under
/// every policy: each resolves to the matched record afterwards, so a later
/// import with any of them is an exact match.
pub proof fn law_search_match_links_ids(m: CatalogModel, r: Request, policy: ReconciliationPolicy, e: ExternalId)
    requires
        first_mapped::<InMemoryReconciliationStore>(m, r.kind, r.external_ids) is None,
        citation_match::<InMemoryReconciliationStore>(m, r.subject) is None,
        search(m, r.kind, r.query).len() == 1,
        search(m, r.kind, r.query)[0].confidence >= 95,
        r.external_ids.contains(e),
    ensures
        resolve::<InMemoryReconciliationStore>(m, r, policy).1 == (OutcomeView::Matched {
            id: search(m, r.kind, r.query)[0].id,
            confidence: search(m, r.kind, r.query)[0].confidence,
        }),
        lookup(resolve::<InMemoryReconciliationStore>(m, r, policy).0, r.kind, e) == Some(
            search(m, r.kind, r.query)[0].id,
        ),
{
    let c = search(m, r.kind, r.query)[0].id;
    law_search_candidates_sound(m, r.kind, r.query, 0);
    lemma_first_index_of(kind_ids(m, r.kind), c);
    lemma_first_mapped_none(m, r.kind, r.external_ids);
    let ids = r.external_ids;
    assert forall|j: int| 0 <= j < ids.len() implies ids.contains(#[trigger] ids[j]) by {}
    lemma_link_all(m, r.kind, c, ids, ids, Seq::empty());
}

/// A created record is found afterwards by each external id of the import
/// and by each external id its payload carries.
pub proof fn law_created_record_found(m: CatalogModel, r: Request, policy: ReconciliationPolicy, e: ExternalId)
    requires
        resolve::<InMemoryReconciliationStore>(m, r, policy).1 is Created,
        subject_kind(r.subject) == r.kind,
        r.external_ids.contains(e) || subject_external_ids(r.subject).contains(e),
    ensures
        resolve::<InMemoryReconciliationStore>(m, r, policy).1 == (OutcomeView::Created {
            id: subject_id(r.subject),
        }),
        lookup(resolve::<InMemoryReconciliationStore>(m, r, policy).0, r.kind, e) == Some(
            subject_id(r.subject),
        ),
{
    let k = r.kind;
    let id = subject_id(r.subject);
    let ids = r.external_ids;
    let own = subject_external_ids(r.subject);
    lemma_first_index_of(kind_ids(m, k), id);
    if first_index_of(kind_ids(m, k), id) is Some {
        assert(kind_ids(m, k).contains(id));
    }
    lemma_upsert_keys(m, r.subject);
    let m2 = upsert(m, r.subject).0;
    assert(kind_ids(m2, k) =~= kind_ids(m, k).push(id));
    lemma_first_index_of(kind_ids(m2, k), id);
    assert(kind_ids(m2, k)[kind_ids(m, k).len() as int] == id);
    lemma_first_mapped_none(m, k, ids);
    assert forall|j: int| 0 <= j < ids.len() implies (lookup(m2, k, #[trigger] ids[j]) is None
        || lookup(m2, k, ids[j]) == Some(id)) by {
        lemma_upsert_new_lookup(m, r.subject, k, ids[j]);
    }
    assert forall|j: int| 0 <= j < ids.len() implies ids.contains(#[trigger] ids[j]) by {}
    assert forall|j: int| 0 <= j < own.len() implies lookup(m2, k, #[trigger] own[j]) == Some(id) by {
        assert(own.contains(own[j]));
        law_upsert_new_then_lookup(m, r.subject, own[j]);
    }
    lemma_link_all(m2, k, id, ids, ids, own);
    if r.external_ids.contains(e) {
        let j = choose|j: int| 0 <= j < ids.len() && ids[j] == e;
        assert(ids[j] == e);
    } else {
        let j = choose|j: int| 0 <= j < own.len() && own[j] == e;
        assert(own[j] == e);
    }
}

/// Importing the same candidate again after it was created is an exact
/// match on the created record, when the import carries an external id.
pub proof fn law_created_then_exact_match(m: CatalogModel, r: Request, policy: ReconciliationPolicy)
    requires
        resolve::<InMemoryReconciliationStore>(m, r, policy).1 is Created,
        subject_kind(r.subject) == r.kind,
        r.external_ids.len() > 0,
    ensures
        ({
            let after = resolve::<InMemoryReconciliationStore>(m, r, policy).0;
            resolve::<InMemoryReconciliationStore>(after, r, policy) == (
                after,
                OutcomeView::Matched { id: subject_id(r.subject), confidence: 100 },
            )
        }),
{
    let after = resolve::<InMemoryReconciliationStore>(m, r, policy).0;
    assert(r.external_ids.contains(r.external_ids[0]));
    law_created_record_found(m, r, policy, r.external_ids[0]);
}

proof fn lemma_link_all_keeps_ids(m: CatalogModel, kind: SubjectKind, c: CanonicalId, ids: Seq<ExternalId>)
    ensures
        forall|k: SubjectKind|
            #[trigger] kind_ids(link_all::<InMemoryReconciliationStore>(m, kind, c, ids), k) == kind_ids(m, k),
    decreases ids.len(),
{
    if ids.len() > 0 {
        lemma_link_keeps_kind_ids(m, kind, c, ids[0]);
        let m1 = link(m, kind, c, ids[0]);
        lemma_link_all_keeps_ids(m1, kind, c, ids.drop_first());
        assert(link_all::<InMemoryReconciliationStore>(m, kind, c, ids) == link_all::<
            InMemoryReconciliationStore,
        >(m1, kind, c, ids.drop_first()));
        assert forall|k: SubjectKind| #[trigger]
            kind_ids(link_all::<InMemoryReconciliationStore>(m, kind, c, ids), k) == kind_ids(m, k) by {
            assert(kind_ids(m1, k) == kind_ids(m, k));
            assert(kind_ids(link_all::<InMemoryReconciliationStore>(m1, kind, c, ids.drop_first()), k)
                == kind_ids(m1, k));
        }
    }
}

/// Resolution never removes or reorders records: for every kind, the ids of
/// the records before are a prefix of the ids after, and at most one record
/// is added.
pub proof fn law_resolve_keeps_records(m: CatalogModel, r: Request, policy: ReconciliationPolicy, k: SubjectKind)
    ensures
        ({
            let before = kind_ids(m, k);
            let after = kind_ids(resolve::<InMemoryReconciliationStore>(m, r, policy).0, k);
            &&& before.len() <= after.len() <= before.len() + 1
            &&& after.subrange(0, before.len() as int) == before
        }),
{
    let before = kind_ids(m, k);
    let res = resolve::<InMemoryReconciliationStore>(m, r, policy);
    let after = kind_ids(res.0, k);
    if res.0 == m {
        assert(after.subrange(0, before.len() as int) =~= before);
    } else if first_mapped::<InMemoryReconciliationStore>(m, r.kind, r.external_ids) is None
        && citation_match::<InMemoryReconciliationStore>(m, r.subject) is Some {
        let c = citation_match::<InMemoryReconciliationStore>(m, r.subject)->0;
        let m1 = merge_locators(m, c, subject_locators(r.subject));
        lemma_merge_keeps_ids(m, c, subject_locators(r.subject), k);
        lemma_link_all_keeps_ids(m1, r.kind, c, r.external_ids);
        assert(after =~= before);
        assert(after.subrange(0, before.len() as int) =~= before);
    } else {
        let found = search(m, r.kind, r.query);
        if found.len() == 1 && found[0].confidence >= 95 {
            lemma_link_all_keeps_ids(m, r.kind, found[0].id, r.external_ids);
            assert(after.subrange(0, before.len() as int) =~= before);
        } else {
            lemma_upsert_keys(m, r.subject);
            let sk = subject_kind(r.subject);
            let id = subject_id(r.subject);
            let m2 = upsert(m, r.subject).0;
            lemma_link_all_keeps_ids(m2, r.kind, id, r.external_ids);
            lemma_first_index_of(kind_ids(m, sk), id);
            if first_index_of(kind_ids(m, sk), id) is Some {
                assert(kind_ids(m, sk).contains(id));
            }
            assert(kind_ids(res.0, k) == kind_ids(m2, k));
            if k == sk {
                assert(after =~= before.push(id));
            }
            assert(after.subrange(0, before.len() as int) =~= before);
        }
    }
}

proof fn lemma_merge_keeps_ids(m: CatalogModel, c: CanonicalId, more: Seq<CitationLocator>, k: SubjectKind)
    ensures
        kind_ids(merge_locators(m, c, more), k) == kind_ids(m, k),
{
    let m1 = merge_locators(m, c, more);
    if let Some(i) = first_index_of(m.citations.map_values(|x: CitationModel| x.id), c) {
        lemma_first_index_of(m.citations.map_values(|x: CitationModel| x.id), c);
        assert(kind_ids(m1, SubjectKind::Citation) =~= kind_ids(m, SubjectKind::Citation));
    }
    assert(kind_ids(m1, k) =~= kind_ids(m, k));
}

/// Adding locators keeps every locator held, in place, and holds each added one.
pub proof fn lemma_add_locators(locs: Seq<CitationLocator>, more: Seq<CitationLocator>)
    ensures
        add_locators(locs, more).len() >= locs.len(),
        add_locators(locs, more).subrange(0, locs.len() as int) == locs,
        forall|j: int| 0 <= j < more.len() ==> has_locator(add_locators(locs, more), #[trigger] more[j]),
    decreases more.len(),
{
    if more.len() > 0 {
        let next = if has_locator(locs, more[0]) {
            locs
        } else {
            locs.push(more[0])
        };
        lemma_add_locators(next, more.drop_first());
        let res = add_locators(locs, more);
        assert(res == add_locators(next, more.drop_first()));
        assert(res.subrange(0, next.len() as int) == next);
        assert(res.subrange(0, locs.len() as int) =~= next.subrange(0, locs.len() as int));
        assert(next.subrange(0, locs.len() as int) =~= locs);
        assert forall|j: int| 0 <= j < more.len() implies has_locator(res, #[trigger] more[j]) by {
            if j == 0 {
                if has_locator(locs, more[0]) {
                    let q = choose|q: int| 0 <= q < locs.len() && same_locator(#[trigger] locs[q], more[0]);
                    assert(res[q] == locs[q]);
                } else {
                    let q = locs.len() as int;
                    assert(next[q] == more[0]);
                    assert(res[q] == next[q]);
                    assert(same_locator(res[q], more[0]));
                }
            } else {
                assert(more[j] == more.drop_first()[j - 1]);
            }
        }
    }
}

proof fn lemma_link_all_keeps_citation_fields(m: CatalogModel, kind: SubjectKind, c: CanonicalId, ids: Seq<ExternalId>)
    ensures
        ({
            let after = link_all::<InMemoryReconciliationStore>(m, kind, c, ids);
            &&& after.citations.len() == m.citations.len()
            &&& forall|i: int|
                0 <= i < m.citations.len() ==> (#[trigger] after.citations[i]).locators == m.citations[i].locators
                    && after.citations[i].id == m.citations[i].id
        }),
    decreases ids.len(),
{
    if ids.len() > 0 {
        let m1 = link(m, kind, c, ids[0]);
        lemma_link_all_keeps_citation_fields(m1, kind, c, ids.drop_first());
        lemma_first_index_of(m.citations.map_values(|x: CitationModel| x.id), c);
        assert(m1.citations.len() == m.citations.len());
        assert forall|i: int| 0 <= i < m.citations.len() implies (#[trigger] m1.citations[i]).locators
            == m.citations[i].locators && m1.citations[i].id == m.citations[i].id by {}
    }
}

/// Citations merge by subject and source, with additive locator sets: a
/// citation import of a subject already cited in the same source (by the
/// first such citation, when it is the first with its id) is that citation,
/// matched with confidence 100; afterwards it keeps every locator it had, in
/// place, and holds a locator of the same kind, value and canonical flag as
/// each imported one.
pub proof fn law_citation_merge(m: CatalogModel, r: Request, policy: ReconciliationPolicy, c: CitationRecord, i: int)
    requires
        first_mapped::<InMemoryReconciliationStore>(m, r.kind, r.external_ids) is None,
        r.subject == CanonicalSubject::Citation(c),
        first_citation_index(m.citations, c.subject, c.source) == Some(i),
        first_index_of(m.citations.map_values(|x: CitationModel| x.id), m.citations[i].id) == Some(i),
    ensures
        ({
            let res = resolve::<InMemoryReconciliationStore>(m, r, policy);
            let old_locs = m.citations[i].locators;
            let new_locs = res.0.citations[i].locators;
            &&& res.1 == OutcomeView::Matched { id: m.citations[i].id, confidence: 100 }
            &&& new_locs.len() >= old_locs.len()
            &&& new_locs.subrange(0, old_locs.len() as int) == old_locs
            &&& forall|j: int|
                0 <= j < c.locators@.len() ==> exists|q: int|
                    0 <= q < new_locs.len() && (#[trigger] new_locs[q]).kind@ == (#[trigger] c.locators@[j]).kind@
                        && new_locs[q].value@ == c.locators@[j].value@ && new_locs[q].canonical
                        == c.locators@[j].canonical
        }),
{
    lemma_first_citation_index(m.citations, c.subject, c.source);
    let id = m.citations[i].id;
    let m1 = merge_locators(m, id, c.locators@);
    assert(m1.citations[i].locators == add_locators(m.citations[i].locators, c.locators@));
    lemma_add_locators(m.citations[i].locators, c.locators@);
    lemma_link_all_keeps_citation_fields(m1, r.kind, id, r.external_ids);
    let new_locs = resolve::<InMemoryReconciliationStore>(m, r, policy).0.citations[i].locators;
    assert(new_locs == m1.citations[i].locators);
    assert forall|j: int| 0 <= j < c.locators@.len() implies exists|q: int|
        0 <= q < new_locs.len() && (#[trigger] new_locs[q]).kind@ == (#[trigger] c.locators@[j]).kind@
            && new_locs[q].value@ == c.locators@[j].value@ && new_locs[q].canonical == c.locators@[j].canonical by {
        assert(has_locator(new_locs, c.locators@[j]));
        let q = choose|q: int| 0 <= q < new_locs.len() && same_locator(#[trigger] new_locs[q], c.locators@[j]);
        assert(same_locator(new_locs[q], c.locators@[j]));
    }
}

proof fn lemma_first_citation_index(cites: Seq<CitationModel>, subject: SubjectRef, source: CanonicalId)
    ensures
        first_citation_index(cites, subject, source) matches Some(i) ==> 0 <= i < cites.len(),
    decreases cites.len(),
{
    if cites.len() > 0 {
        lemma_first_citation_index(cites.drop_first(), subject, source);
    }
}

proof fn lemma_first_hint_system(hints: Seq<SourceHint>)
    ensures
        (forall|j: int| 0 <= j < hints.len() ==> (#[trigger] hints[j]).game_system is None) ==> first_hint_system(
            hints,
        ) is None,
        forall|j: int|
            0 <= j < hints.len() && (#[trigger] hints[j]).game_system is Some && (forall|l: int|
                0 <= l < j ==> (#[trigger] hints[l]).game_system is None) ==> first_hint_system(hints) == Some(
                hints[j].game_system->0@,
            ),
    decreases hints.len(),
{
    if hints.len() > 0 {
        let rest = hints.drop_first();
        lemma_first_hint_system(rest);
        if forall|j: int| 0 <= j < hints.len() ==> (#[trigger] hints[j]).game_system is None {
            assert forall|j: int| 0 <= j < rest.len() implies (#[trigger] rest[j]).game_system is None by {
                assert(rest[j] == hints[j + 1]);
            }
        }
        assert forall|j: int|
            0 <= j < hints.len() && (#[trigger] hints[j]).game_system is Some && (forall|l: int|
                0 <= l < j ==> (#[trigger] hints[l]).game_system is None) implies first_hint_system(hints) == Some(
            hints[j].game_system->0@,
        ) by {
            if j > 0 {
                assert(hints[0].game_system is None);
                assert(rest[j - 1] == hints[j]);
                assert forall|l: int| 0 <= l < j - 1 implies (#[trigger] rest[l]).game_system is None by {
                    assert(rest[l] == hints[l + 1]);
                }
            }
        }
    }
}

/// The game system a source search is hinted with: the first source hint
/// that names a game system gives it; when no hint names one, the payload's
/// first game system does; with neither there is no game-system hint.
pub proof fn law_source_query_game_system(c: ImportCandidate<SourceRecord>)
    ensures
        (forall|j: int| 0 <= j < c.source_hints@.len() ==> (#[trigger] c.source_hints@[j]).game_system is None)
            ==> source_request(c).query.game_system_hint == if c.payload.game_systems@.len() > 0 {
            Some(c.payload.game_systems@[0]@)
        } else {
            None
        },
        forall|j: int|
            0 <= j < c.source_hints@.len() && (#[trigger] c.source_hints@[j]).game_system is Some && (forall|l: int|
                0 <= l < j ==> (#[trigger] c.source_hints@[l]).game_system is None) ==> source_request(
                c,
            ).query.game_system_hint == Some(c.source_hints@[j].game_system->0@),
{
    lemma_first_hint_system(c.source_hints@);
}

/// The subject/source stage of citation resolution finds a citation exactly
/// when the catalog holds one of the same subject in the same source, and
/// what it finds is such a citation.
pub proof fn law_citation_of_same_subject_and_source(m: CatalogModel, subject: SubjectRef, source: CanonicalId)
    ensures
        citation_of(m, subject, source) matches Some(id) ==> exists|i: int|
            0 <= i < m.citations.len() && (#[trigger] m.citations[i]).id == id && m.citations[i].subject
                == subject && m.citations[i].source == source,
        (exists|i: int|
            0 <= i < m.citations.len() && (#[trigger] m.citations[i]).subject == subject && m.citations[i].source
                == source) ==> citation_of(m, subject, source) is Some,
{
    lemma_first_citation_index_exact(m.citations, subject, source);
}

proof fn lemma_first_citation_index_exact(cites: Seq<CitationModel>, subject: SubjectRef, source: CanonicalId)
    ensures
        first_citation_index(cites, subject, source) matches Some(i) ==> 0 <= i < cites.len()
            && cites[i].subject == subject && cites[i].source == source,
        (exists|i: int|
            0 <= i < cites.len() && (#[trigger] cites[i]).subject == subject && cites[i].source == source)
            ==> first_citation_index(cites, subject, source) is Some,
    decreases cites.len(),
{
    if cites.len() > 0 {
        let rest = cites.drop_first();
        lemma_first_citation_index_exact(rest, subject, source);
        if first_citation_index(cites, subject, source) is Some {
            if let Some(k) = first_citation_index(rest, subject, source) {
                assert(rest[k] == cites[k + 1]);
            }
        }
        if exists|i: int| 0 <= i < cites.len() && (#[trigger] cites[i]).subject == subject && cites[i].source == source {
            let i = choose|i: int| 0 <= i < cites.len() && (#[trigger] cites[i]).subject == subject && cites[i].source == source;
            if i > 0 {
                assert(rest[i - 1] == cites[i]);
            }
        }
    }
}

/// In citation resolution, an import is matched to an existing citation
/// without an external-id match only when that citation has the import's
/// subject and source.
pub proof fn law_citation_match_same_subject_and_source(m: CatalogModel, c: CitationRecord, id: CanonicalId)
    requires
        citation_match::<InMemoryReconciliationStore>(m, CanonicalSubject::Citation(c)) == Some(id),
    ensures
        exists|i: int|
            0 <= i < m.citations.len() && (#[trigger] m.citations[i]).id == id && m.citations[i].subject
                == c.subject && m.citations[i].source == c.source,
{
    law_citation_of_same_subject_and_source(m, c.subject, c.source);
}

proof fn lemma_first_hint_title(hints: Seq<SourceHint>)
    ensures
        (forall|j: int| 0 <= j < hints.len() ==> (#[trigger] hints[j]).title is None) ==> first_hint_title(hints)
            is None,
        forall|j: int|
            0 <= j < hints.len() && (#[trigger] hints[j]).title is Some && (forall|l: int|
                0 <= l < j ==> (#[trigger] hints[l]).title is None) ==> first_hint_title(hints) == Some(
                hints[j].title->0@,
            ),
    decreases hints.len(),
{
    if hints.len() > 0 {
        let rest = hints.drop_first();
        lemma_first_hint_title(rest);
        if forall|j: int| 0 <= j < hints.len() ==> (#[trigger] hints[j]).title is None {
            assert forall|j: int| 0 <= j < rest.len() implies (#[trigger] rest[j]).title is None by {
                assert(rest[j] == hints[j + 1]);
            }
        }
        assert forall|j: int|
            0 <= j < hints.len() && (#[trigger] hints[j]).title is Some && (forall|l: int|
                0 <= l < j ==> (#[trigger] hints[l]).title is None) implies first_hint_title(hints) == Some(
            hints[j].title->0@,
        ) by {
            if j > 0 {
                assert(hints[0].title is None);
                assert(rest[j - 1] == hints[j]);
                assert forall|l: int| 0 <= l < j - 1 implies (#[trigger] rest[l]).title is None by {
                    assert(rest[l] == hints[l + 1]);
                }
            }
        }
    }
}

/// The title a source or entity search is hinted with is the title of the
/// first source hint that names one, and there is none when no hint does.
pub proof fn law_query_source_hint(hints: Seq<SourceHint>)
    ensures
        (forall|j: int| 0 <= j < hints.len() ==> (#[trigger] hints[j]).title is None) ==> first_hint_title(hints)
            is None,
        forall|j: int|
            0 <= j < hints.len() && (#[trigger] hints[j]).title is Some && (forall|l: int|
                0 <= l < j ==> (#[trigger] hints[l]).title is None) ==> first_hint_title(hints) == Some(
                hints[j].title->0@,
            ),
{
    lemma_first_hint_title(hints);
}

/// What a source import is searched with: its display name, no kind hint,
/// the title of its first titled source hint, and the game system of its
/// first hint that names one, else its payload's first game system.
pub proof fn law_source_request_query(c: ImportCandidate<SourceRecord>, j: int)
    requires
        0 <= j < c.source_hints@.len(),
        c.source_hints@[j].title is Some,
        forall|l: int| 0 <= l < j ==> (#[trigger] c.source_hints@[l]).title is None,
    ensures
        source_request(c).query.source_hint == Some(c.source_hints@[j].title->0@),
        source_request(c).query.kind_hint is None,
        source_request(c).kind == SubjectKind::Source,
        source_request(c).external_ids == c.external_ids@,
{
    lemma_first_hint_title(c.source_hints@);
}

/// What an entity import is searched with: the type key attribute as kind
/// hint, the title of its first titled source hint and the game system of
/// its first hint that names one (never the payload's), and none when no
/// hint names a game system.
pub proof fn law_entity_request_query(c: ImportCandidate<Entity>)
    ensures
        entity_request(c).query.kind_hint == attribute_text(c.payload.attributes, "pcgen_entity_type_key"@),
        entity_request(c).kind == SubjectKind::Entity,
        (forall|j: int| 0 <= j < c.source_hints@.len() ==> (#[trigger] c.source_hints@[j]).game_system is None)
            ==> entity_request(c).query.game_system_hint is None,
        forall|j: int|
            0 <= j < c.source_hints@.len() && (#[trigger] c.source_hints@[j]).game_system is Some && (forall|l: int|
                0 <= l < j ==> (#[trigger] c.source_hints@[l]).game_system is None) ==> entity_request(
                c,
            ).query.game_system_hint == Some(c.source_hints@[j].game_system->0@),
        forall|j: int|
            0 <= j < c.source_hints@.len() && (#[trigger] c.source_hints@[j]).title is Some && (forall|l: int|
                0 <= l < j ==> (#[trigger] c.source_hints@[l]).title is None) ==> entity_request(
                c,
            ).query.source_hint == Some(c.source_hints@[j].title->0@),
{
    lemma_first_hint_title(c.source_hints@);
    lemma_first_hint_system(c.source_hints@);
}

/// An entity-type import is searched with its payload's key as kind hint.
pub proof fn law_entity_type_request_query(c: ImportCandidate<EntityType>)
    ensures
        entity_type_request(c).query.kind_hint == Some(c.payload.key@),
        entity_type_request(c).query.source_hint is None,
        entity_type_request(c).query.game_system_hint is None,
        entity_type_request(c).kind == SubjectKind::EntityType,
{
}

/// Locators are added as a set: each one appended is an imported locator,
/// and names a place (kind, value, canonical flag) held by no locator
/// before it.
pub proof fn law_add_locators_no_duplicates(locs: Seq<CitationLocator>, more: Seq<CitationLocator>)
    ensures
        ({
            let res = add_locators(locs, more);
            &&& forall|q: int|
                locs.len() <= q < res.len() ==> exists|j: int| 0 <= j < more.len() && #[trigger] res[q] == more[j]
            &&& forall|p: int, q: int|
                0 <= p < q && locs.len() <= q < res.len() ==> !(#[trigger] res[p].kind@ == #[trigger] res[q].kind@
                    && res[p].value@ == res[q].value@ && res[p].canonical == res[q].canonical)
        }),
    decreases more.len(),
{
    if more.len() > 0 {
        let rest = more.drop_first();
        let next = if has_locator(locs, more[0]) {
            locs
        } else {
            locs.push(more[0])
        };
        law_add_locators_no_duplicates(next, rest);
        lemma_add_locators(next, rest);
        let res = add_locators(locs, more);
        assert(res == add_locators(next, rest));
        assert forall|q: int| locs.len() <= q < res.len() implies exists|j: int|
            0 <= j < more.len() && #[trigger] res[q] == more[j] by {
            if q < next.len() {
                assert(res[q] == next[q]);
                assert(res[q] == more[0]);
            } else {
                let j = choose|j: int| 0 <= j < rest.len() && #[trigger] res[q] == rest[j];
                assert(rest[j] == more[j + 1]);
            }
        }
        assert forall|p: int, q: int|
            0 <= p < q && locs.len() <= q < res.len() implies !(#[trigger] res[p].kind@ == #[trigger] res[q].kind@
            && res[p].value@ == res[q].value@ && res[p].canonical == res[q].canonical) by {
            if q < next.len() {
                assert(res[q] == next[q]);
                assert(res[p] == next[p]);
                assert(next[p] == locs[p]);
                assert(!same_locator(locs[p], more[0]));
            }
        }
    }
}

} // verus!
