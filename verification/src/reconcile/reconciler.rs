use vstd::prelude::*;

use crate::domain::{CitationLocator, CitationRecord, Entity, EntityType, PublisherRecord, SourceRecord};
use crate::external::{attribute_str, attribute_text};
use crate::id::{CanonicalId, ExternalId};
use crate::provenance::Provenance;

use super::conflicts::ConflictSet;
use super::matcher::{candidate_views, opt_text, CandidateView, MatchCandidate, MatchQuery, QueryView};
use super::policy::ReconciliationPolicy;
use super::store::{subject_id, subject_kind, CanonicalSubject, ReconciliationStore, SubjectKind};

verus! {

/// What an adapter knows about the source an imported record comes from.
#[derive(Debug, Clone)]
pub struct SourceHint {
    pub title: Option<String>,
    pub publisher: Option<String>,
    pub game_system: Option<String>,
}

/// A normalized record submitted by a format adapter for reconciliation.
#[derive(Debug, Clone)]
pub struct ImportCandidate<T> {
    pub payload: T,
    pub external_ids: Vec<ExternalId>,
    pub display_name: Option<String>,
    pub source_hints: Vec<SourceHint>,
    pub provenance: Option<Provenance>,
}

/// The result of reconciling one candidate. `confidence` is in hundredths.
#[derive(Debug, Clone)]
pub enum ResolutionOutcome {
    Matched { id: CanonicalId, confidence: u32 },
    Created { id: CanonicalId },
    Ambiguous { candidates: Vec<MatchCandidate> },
    Conflict { existing: CanonicalId, details: ConflictSet },
}

/// An outcome, its candidate list and texts by their views.
pub enum OutcomeView {
    Matched { id: CanonicalId, confidence: u32 },
    Created { id: CanonicalId },
    Ambiguous { candidates: Seq<CandidateView> },
    Conflict { existing: CanonicalId, reason: Seq<char>, fields: Seq<Seq<char>> },
}

impl View for ResolutionOutcome {
    type V = OutcomeView;

    open spec fn view(&self) -> OutcomeView {
        match self {
            ResolutionOutcome::Matched { id, confidence } => OutcomeView::Matched {
                id: *id,
                confidence: *confidence,
            },
            ResolutionOutcome::Created { id } => OutcomeView::Created { id: *id },
            ResolutionOutcome::Ambiguous { candidates } => OutcomeView::Ambiguous {
                candidates: candidate_views(candidates@),
            },
            ResolutionOutcome::Conflict { existing, details } => OutcomeView::Conflict {
                existing: *existing,
                reason: details.reason@,
                fields: details.fields@.map_values(|f: String| f@),
            },
        }
    }
}

/// The views of a sequence of outcomes.
pub open spec fn outcome_views(s: Seq<ResolutionOutcome>) -> Seq<OutcomeView> {
    s.map_values(|o: ResolutionOutcome| o@)
}

/// One resolution request: the kind, the candidate's external ids, the record
/// to store if nothing matches, and the search query.
pub struct Request {
    pub kind: SubjectKind,
    pub external_ids: Seq<ExternalId>,
    pub subject: CanonicalSubject,
    pub query: QueryView,
}

/// The record that the first of `ids` mapped in the store names, if any.
pub open spec fn first_mapped<S: ReconciliationStore>(
    m: S::V,
    kind: SubjectKind,
    ids: Seq<ExternalId>,
) -> Option<CanonicalId>
    decreases ids.len(),
{
    if ids.len() == 0 {
        None
    } else {
        match S::spec_find(m, kind, ids[0]) {
            Some(id) => Some(id),
            None => first_mapped::<S>(m, kind, ids.drop_first()),
        }
    }
}

/// The store after linking each of `ids`, in order, to record `canonical`.
pub open spec fn link_all<S: ReconciliationStore>(
    m: S::V,
    kind: SubjectKind,
    canonical: CanonicalId,
    ids: Seq<ExternalId>,
) -> S::V
    decreases ids.len(),
{
    if ids.len() == 0 {
        m
    } else {
        link_all::<S>(S::spec_link(m, kind, canonical, ids[0]), kind, canonical, ids.drop_first())
    }
}

/// The reason a strict policy gives for refusing a match that needs review.
pub open spec fn strict_rejection_reason() -> Seq<char> {
    "match needs review; rejected by strict policy"@
}

/// The reason given when a new record's id already holds a record.
pub open spec fn id_taken_reason() -> Seq<char> {
    "canonical id already holds a record"@
}

/// The field named by an id conflict.
pub open spec fn id_field() -> Seq<char> {
    "id"@
}

/// Storing a request's subject as a new record: refused as a conflict when
/// its id already holds a record of its kind (nothing is overwritten);
/// else stored, with the request's external ids linked to it.
pub open spec fn create<S: ReconciliationStore>(m: S::V, r: Request) -> (S::V, OutcomeView) {
    let id = subject_id(r.subject);
    if S::spec_holds(m, subject_kind(r.subject), id) {
        (m, OutcomeView::Conflict { existing: id, reason: id_taken_reason(), fields: seq![id_field()] })
    } else {
        let (m2, created) = S::spec_upsert(m, r.subject);
        (link_all::<S>(m2, r.kind, created, r.external_ids), OutcomeView::Created { id: created })
    }
}

/// For a citation, the existing citation of the same subject in the same
/// source, if any; nothing for other subjects.
pub open spec fn citation_match<S: ReconciliationStore>(m: S::V, subject: CanonicalSubject) -> Option<CanonicalId> {
    match subject {
        CanonicalSubject::Citation(c) => S::spec_citation_of(m, c.subject, c.source),
        _ => None,
    }
}

/// The locators a subject carries (only citations have any).
pub open spec fn subject_locators(subject: CanonicalSubject) -> Seq<CitationLocator> {
    match subject {
        CanonicalSubject::Citation(c) => c.locators@,
        _ => Seq::empty(),
    }
}

/// The search stage of resolution under a policy: a single search result of
/// confidence at least 95 is matched and gets the external ids linked; else
/// any search result needs review: the guided policy reports them all as
/// ambiguous, the strict policy refuses with a conflict naming the best one,
/// and the permissive policy creates the record; with no search result the
/// record is created.
pub open spec fn search_stage<S: ReconciliationStore>(m: S::V, r: Request, policy: ReconciliationPolicy) -> (
    S::V,
    OutcomeView,
) {
    let found = S::spec_search(m, r.kind, r.query);
    if found.len() == 1 && found[0].confidence >= 95 {
        (
            link_all::<S>(m, r.kind, found[0].id, r.external_ids),
            OutcomeView::Matched { id: found[0].id, confidence: found[0].confidence },
        )
    } else if found.len() > 0 && policy == ReconciliationPolicy::Guided {
        (m, OutcomeView::Ambiguous { candidates: found })
    } else if found.len() > 0 && policy == ReconciliationPolicy::Strict {
        (
            m,
            OutcomeView::Conflict {
                existing: found[0].id,
                reason: strict_rejection_reason(),
                fields: Seq::empty(),
            },
        )
    } else {
        create::<S>(m, r)
    }
}

/// Resolution of one request against a store under a policy: an exact
/// external-id match first (confidence 100); else a citation of a subject
/// already cited in the same source is that citation (confidence 100): the
/// import's locators are added to it and its external ids linked; else the
/// search stage decides.
pub open spec fn resolve<S: ReconciliationStore>(m: S::V, r: Request, policy: ReconciliationPolicy) -> (
    S::V,
    OutcomeView,
) {
    match first_mapped::<S>(m, r.kind, r.external_ids) {
        Some(id) => (m, OutcomeView::Matched { id, confidence: 100 }),
        None => match citation_match::<S>(m, r.subject) {
            Some(id) => (
                link_all::<S>(S::spec_add_locators(m, id, subject_locators(r.subject)), r.kind, id, r.external_ids),
                OutcomeView::Matched { id, confidence: 100 },
            ),
            None => search_stage::<S>(m, r, policy),
        },
    }
}

/// Requests resolved one after another under one policy, each against the
/// store the previous ones left: the final store and the outcomes in order.
pub open spec fn resolve_all<S: ReconciliationStore>(
    m: S::V,
    reqs: Seq<Request>,
    policy: ReconciliationPolicy,
) -> (S::V, Seq<OutcomeView>)
    decreases reqs.len(),
{
    if reqs.len() == 0 {
        (m, Seq::empty())
    } else {
        let (m1, outs) = resolve_all::<S>(m, reqs.drop_last(), policy);
        let (m2, o) = resolve::<S>(m1, reqs.last(), policy);
        (m2, outs.push(o))
    }
}

/// The title of the first hint that has one.
pub open spec fn first_hint_title(hints: Seq<SourceHint>) -> Option<Seq<char>>
    decreases hints.len(),
{
    if hints.len() == 0 {
        None
    } else {
        match hints[0].title {
            Some(t) => Some(t@),
            None => first_hint_title(hints.drop_first()),
        }
    }
}

/// The game system of the first hint that has one.
pub open spec fn first_hint_system(hints: Seq<SourceHint>) -> Option<Seq<char>>
    decreases hints.len(),
{
    if hints.len() == 0 {
        None
    } else {
        match hints[0].game_system {
            Some(g) => Some(g@),
            None => first_hint_system(hints.drop_first()),
        }
    }
}

/// A query with a display name and no hints.
pub open spec fn name_only_query(display_name: Option<String>) -> QueryView {
    QueryView {
        display_name: opt_text(display_name),
        kind_hint: None,
        source_hint: None,
        game_system_hint: None,
    }
}

/// The request made of a publisher candidate.
pub open spec fn publisher_request(c: ImportCandidate<PublisherRecord>) -> Request {
    Request {
        kind: SubjectKind::Publisher,
        external_ids: c.external_ids@,
        subject: CanonicalSubject::Publisher(c.payload),
        query: name_only_query(c.display_name),
    }
}

/// The request made of a source candidate: hinted by the first hint title,
/// and by the first hinted game system or else the payload's first one.
pub open spec fn source_request(c: ImportCandidate<SourceRecord>) -> Request {
    let system = match first_hint_system(c.source_hints@) {
        Some(g) => Some(g),
        None => if c.payload.game_systems@.len() > 0 {
            Some(c.payload.game_systems@[0]@)
        } else {
            None
        },
    };
    Request {
        kind: SubjectKind::Source,
        external_ids: c.external_ids@,
        subject: CanonicalSubject::Source(c.payload),
        query: QueryView {
            display_name: opt_text(c.display_name),
            kind_hint: None,
            source_hint: first_hint_title(c.source_hints@),
            game_system_hint: system,
        },
    }
}

/// The request made of an entity-type candidate: hinted by the type's key.
pub open spec fn entity_type_request(c: ImportCandidate<EntityType>) -> Request {
    Request {
        kind: SubjectKind::EntityType,
        external_ids: c.external_ids@,
        subject: CanonicalSubject::EntityType(c.payload),
        query: QueryView {
            display_name: opt_text(c.display_name),
            kind_hint: Some(c.payload.key@),
            source_hint: None,
            game_system_hint: None,
        },
    }
}

/// The attribute under which PCGen imports record an entity's type key.
pub open spec fn entity_type_key_attribute() -> Seq<char> {
    "pcgen_entity_type_key"@
}

/// The request made of an entity candidate: hinted by the type key
/// attribute, the first hint title and the first hinted game system.
pub open spec fn entity_request(c: ImportCandidate<Entity>) -> Request {
    Request {
        kind: SubjectKind::Entity,
        external_ids: c.external_ids@,
        subject: CanonicalSubject::Entity(c.payload),
        query: QueryView {
            display_name: opt_text(c.display_name),
            kind_hint: attribute_text(c.payload.attributes, entity_type_key_attribute()),
            source_hint: first_hint_title(c.source_hints@),
            game_system_hint: first_hint_system(c.source_hints@),
        },
    }
}

/// The request made of a citation candidate.
pub open spec fn citation_request(c: ImportCandidate<CitationRecord>) -> Request {
    Request {
        kind: SubjectKind::Citation,
        external_ids: c.external_ids@,
        subject: CanonicalSubject::Citation(c.payload),
        query: name_only_query(c.display_name),
    }
}

/// `v` in reverse order, so that popping yields its items front first.
pub(crate) fn into_queue<T>(v: Vec<T>) -> (q: Vec<T>)
    ensures
        q@ == v@.reverse(),
{
    let mut v = v;
    let ghost orig = v@;
    let mut q: Vec<T> = Vec::new();
    while v.len() > 0
        invariant
            orig.len() == v@.len() + q@.len(),
            v@ == orig.subrange(0, v@.len() as int),
            q@ == orig.subrange(v@.len() as int, orig.len() as int).reverse(),
        decreases v@.len(),
    {
        let x = v.pop().unwrap();
        q.push(x);
        assert(q@ =~= orig.subrange(v@.len() as int, orig.len() as int).reverse());
        assert(v@ =~= orig.subrange(0, v@.len() as int));
    }
    assert(orig.subrange(0, orig.len() as int) =~= orig);
    q
}

/// A copy of an optional text.
fn copy_opt_text(o: &Option<String>) -> (c: Option<String>)
    ensures
        opt_text(c) == opt_text(*o),
{
    match o {
        Some(s) => Some(s.clone()),
        None => None,
    }
}

/// The title of the first hint that has one.
fn hint_title(hints: &Vec<SourceHint>) -> (t: Option<String>)
    ensures
        opt_text(t) == first_hint_title(hints@),
{
    assert(hints@.subrange(0, hints@.len() as int) =~= hints@);
    for i in 0..hints.len()
        invariant
            first_hint_title(hints@) == first_hint_title(hints@.subrange(i as int, hints@.len() as int)),
    {
        let ghost rest = hints@.subrange(i as int, hints@.len() as int);
        assert(rest.drop_first() =~= hints@.subrange(i + 1, hints@.len() as int));
        assert(rest[0] == hints@[i as int]);
        if let Some(t) = &hints[i].title {
            return Some(t.clone());
        }
    }
    None
}

/// The game system of the first hint that has one.
fn hint_system(hints: &Vec<SourceHint>) -> (g: Option<String>)
    ensures
        opt_text(g) == first_hint_system(hints@),
{
    assert(hints@.subrange(0, hints@.len() as int) =~= hints@);
    for i in 0..hints.len()
        invariant
            first_hint_system(hints@) == first_hint_system(hints@.subrange(i as int, hints@.len() as int)),
    {
        let ghost rest = hints@.subrange(i as int, hints@.len() as int);
        assert(rest.drop_first() =~= hints@.subrange(i + 1, hints@.len() as int));
        assert(rest[0] == hints@[i as int]);
        if let Some(g) = &hints[i].game_system {
            return Some(g.clone());
        }
    }
    None
}

/// Links each of `external_ids`, in order, to record `canonical`.
fn link_each<S: ReconciliationStore>(
    store: &mut S,
    kind: SubjectKind,
    canonical: CanonicalId,
    external_ids: Vec<ExternalId>,
)
    ensures
        final(store)@ == link_all::<S>(old(store)@, kind, canonical, external_ids@),
{
    let ghost m = store@;
    let ghost ids = external_ids@;
    assert(ids.subrange(0, ids.len() as int) =~= ids);
    let n = external_ids.len();
    let mut queue = into_queue(external_ids);
    let mut i: usize = 0;
    while queue.len() > 0
        invariant
            ids.len() == i + queue@.len(),
            n == ids.len(),
            queue@ == ids.subrange(i as int, ids.len() as int).reverse(),
            link_all::<S>(m, kind, canonical, ids) == link_all::<S>(
                store@,
                kind,
                canonical,
                ids.subrange(i as int, ids.len() as int),
            ),
        decreases queue@.len(),
    {
        let ghost rest = ids.subrange(i as int, ids.len() as int);
        let external_id = queue.pop().unwrap();
        assert(external_id == rest[0]);
        assert(rest.drop_first() =~= ids.subrange(i + 1, ids.len() as int));
        store.link_external_id(kind, canonical, external_id);
        i = i + 1;
        assert(queue@ =~= ids.subrange(i as int, ids.len() as int).reverse());
    }
    assert(ids.subrange(i as int, ids.len() as int) =~= Seq::<ExternalId>::empty());
}

/// The engine that resolves imported candidates against a store.
pub struct Reconciler<S: ReconciliationStore> {
    pub store: S,
    pub policy: ReconciliationPolicy,
}

impl<S: ReconciliationStore> Reconciler<S> {
    fn resolve_candidate(
        &mut self,
        kind: SubjectKind,
        external_ids: Vec<ExternalId>,
        subject: CanonicalSubject,
        match_query: MatchQuery,
    ) -> (outcome: ResolutionOutcome)
        ensures
            final(self).policy == old(self).policy,
            (final(self).store@, outcome@) == resolve::<S>(
                old(self).store@,
                Request { kind, external_ids: external_ids@, subject, query: match_query@ },
                old(self).policy,
            ),
    {
        let ghost m = self.store@;
        let ghost ids = external_ids@;
        let ghost r = Request { kind, external_ids: external_ids@, subject, query: match_query@ };
        assert(ids.subrange(0, ids.len() as int) =~= ids);
        for i in 0..external_ids.len()
            invariant
                self.store@ == m,
                ids == external_ids@,
                first_mapped::<S>(m, kind, ids) == first_mapped::<S>(
                    m,
                    kind,
                    ids.subrange(i as int, ids.len() as int),
                ),
        {
            let ghost rest = ids.subrange(i as int, ids.len() as int);
            assert(rest.drop_first() =~= ids.subrange(i + 1, ids.len() as int));
            assert(rest[0] == ids[i as int]);
            if let Some(existing) = self.store.find_by_external_id(kind, &external_ids[i]) {
                return ResolutionOutcome::Matched { id: existing, confidence: 100 };
            }
        }
        assert(ids.subrange(ids.len() as int, ids.len() as int) =~= Seq::<ExternalId>::empty());
        let cited = match &subject {
            CanonicalSubject::Citation(c) => self.store.find_citation(&c.subject, c.source),
            _ => None,
        };
        if let Some(existing) = cited {
            let locators = match subject {
                CanonicalSubject::Citation(c) => c.locators,
                _ => Vec::new(),
            };
            self.store.add_locators(existing, locators);
            link_each(&mut self.store, kind, existing, external_ids);
            return ResolutionOutcome::Matched { id: existing, confidence: 100 };
        }
        let match_candidates = self.store.search_candidates(kind, match_query);
        if match_candidates.len() > 0 {
            let best_id = match_candidates[0].id;
            let best_confidence = match_candidates[0].confidence;
            assert(candidate_views(match_candidates@)[0] == match_candidates@[0]@);
            if match_candidates.len() == 1 && best_confidence >= 95 {
                link_each(&mut self.store, kind, best_id, external_ids);
                return ResolutionOutcome::Matched { id: best_id, confidence: best_confidence };
            }
            match self.policy {
                ReconciliationPolicy::Guided => {
                    return ResolutionOutcome::Ambiguous { candidates: match_candidates };
                },
                ReconciliationPolicy::Strict => {
                    let details = ConflictSet {
                        reason: String::from_str("match needs review; rejected by strict policy"),
                        fields: Vec::new(),
                    };
                    assert(details.fields@.map_values(|f: String| f@) =~= Seq::<Seq<char>>::empty());
                    return ResolutionOutcome::Conflict { existing: best_id, details };
                },
                ReconciliationPolicy::Permissive => {},
            }
        }
        let id = subject.id();
        if self.store.contains_subject(subject.kind(), id) {
            let mut fields: Vec<String> = Vec::new();
            fields.push(String::from_str("id"));
            let details = ConflictSet {
                reason: String::from_str("canonical id already holds a record"),
                fields,
            };
            assert(details.fields@.map_values(|f: String| f@) =~= seq![id_field()]);
            return ResolutionOutcome::Conflict { existing: id, details };
        }
        let created = self.store.upsert_subject(subject);
        link_each(&mut self.store, kind, created, external_ids);
        ResolutionOutcome::Created { id: created }
    }

    /// Resolves publisher candidates in order.
    pub fn reconcile_publishers(&mut self, candidates: Vec<ImportCandidate<PublisherRecord>>) -> (outcomes: Vec<ResolutionOutcome>)
        ensures
            final(self).policy == old(self).policy,
            outcomes@.len() == candidates@.len(),
            (final(self).store@, outcome_views(outcomes@)) == resolve_all::<S>(
                old(self).store@,
                candidates@.map_values(|c: ImportCandidate<PublisherRecord>| publisher_request(c)),
                old(self).policy,
            ),
    {
        let ghost all = candidates@;
        let ghost reqs = all.map_values(|c: ImportCandidate<PublisherRecord>| publisher_request(c));
        let ghost m0 = self.store@;
        let n = candidates.len();
        let mut queue = into_queue(candidates);
        let mut outcomes: Vec<ResolutionOutcome> = Vec::new();
        let mut i: usize = 0;
        while queue.len() > 0
            invariant
                all.len() == i + queue@.len(),
                n == all.len(),
                outcomes@.len() == i,
                queue@ == all.subrange(i as int, all.len() as int).reverse(),
                reqs == all.map_values(|c: ImportCandidate<PublisherRecord>| publisher_request(c)),
                (self.store@, outcome_views(outcomes@)) == resolve_all::<S>(m0, reqs.subrange(0, i as int), self.policy),
                self.policy == old(self).policy,
            decreases queue@.len(),
        {
            let candidate = queue.pop().unwrap();
            assert(candidate == all[i as int]);
            let query = MatchQuery {
                display_name: candidate.display_name,
                kind_hint: None,
                source_hint: None,
                game_system_hint: None,
            };
            let ghost before = outcomes@;
            let outcome = self.resolve_candidate(
                SubjectKind::Publisher,
                candidate.external_ids,
                CanonicalSubject::Publisher(candidate.payload),
                query,
            );
            outcomes.push(outcome);
            proof {
                assert(reqs.subrange(0, i + 1).drop_last() =~= reqs.subrange(0, i as int));
                assert(outcome_views(outcomes@) =~= outcome_views(before).push(outcome@));
            }
            i = i + 1;
            assert(queue@ =~= all.subrange(i as int, all.len() as int).reverse());
        }
        assert(reqs.subrange(0, i as int) =~= reqs);
        outcomes
    }

    /// Resolves source candidates in order, hinting each search with the
    /// first hinted title and game system (else the payload's first system).
    pub fn reconcile_sources(&mut self, candidates: Vec<ImportCandidate<SourceRecord>>) -> (outcomes: Vec<ResolutionOutcome>)
        ensures
            final(self).policy == old(self).policy,
            outcomes@.len() == candidates@.len(),
            (final(self).store@, outcome_views(outcomes@)) == resolve_all::<S>(
                old(self).store@,
                candidates@.map_values(|c: ImportCandidate<SourceRecord>| source_request(c)),
                old(self).policy,
            ),
    {
        let ghost all = candidates@;
        let ghost reqs = all.map_values(|c: ImportCandidate<SourceRecord>| source_request(c));
        let ghost m0 = self.store@;
        let n = candidates.len();
        let mut queue = into_queue(candidates);
        let mut outcomes: Vec<ResolutionOutcome> = Vec::new();
        let mut i: usize = 0;
        while queue.len() > 0
            invariant
                all.len() == i + queue@.len(),
                n == all.len(),
                outcomes@.len() == i,
                queue@ == all.subrange(i as int, all.len() as int).reverse(),
                reqs == all.map_values(|c: ImportCandidate<SourceRecord>| source_request(c)),
                (self.store@, outcome_views(outcomes@)) == resolve_all::<S>(m0, reqs.subrange(0, i as int), self.policy),
                self.policy == old(self).policy,
            decreases queue@.len(),
        {
            let candidate = queue.pop().unwrap();
            assert(candidate == all[i as int]);
            let source_hint = hint_title(&candidate.source_hints);
            let hinted_system = hint_system(&candidate.source_hints);
            let game_system_hint = match hinted_system {
                Some(g) => Some(g),
                None => if candidate.payload.game_systems.len() > 0 {
                    Some(candidate.payload.game_systems[0].clone())
                } else {
                    None
                },
            };
            let query = MatchQuery {
                display_name: candidate.display_name,
                kind_hint: None,
                source_hint,
                game_system_hint,
            };
            let ghost before = outcomes@;
            let outcome = self.resolve_candidate(
                SubjectKind::Source,
                candidate.external_ids,
                CanonicalSubject::Source(candidate.payload),
                query,
            );
            outcomes.push(outcome);
            proof {
                assert(reqs.subrange(0, i + 1).drop_last() =~= reqs.subrange(0, i as int));
                assert(outcome_views(outcomes@) =~= outcome_views(before).push(outcome@));
            }
            i = i + 1;
            assert(queue@ =~= all.subrange(i as int, all.len() as int).reverse());
        }
        assert(reqs.subrange(0, i as int) =~= reqs);
        outcomes
    }

    /// Resolves entity-type candidates in order, hinting each search with
    /// the candidate type's key.
    pub fn reconcile_entity_types(&mut self, candidates: Vec<ImportCandidate<EntityType>>) -> (outcomes: Vec<ResolutionOutcome>)
        ensures
            final(self).policy == old(self).policy,
            outcomes@.len() == candidates@.len(),
            (final(self).store@, outcome_views(outcomes@)) == resolve_all::<S>(
                old(self).store@,
                candidates@.map_values(|c: ImportCandidate<EntityType>| entity_type_request(c)),
                old(self).policy,
            ),
    {
        let ghost all = candidates@;
        let ghost reqs = all.map_values(|c: ImportCandidate<EntityType>| entity_type_request(c));
        let ghost m0 = self.store@;
        let n = candidates.len();
        let mut queue = into_queue(candidates);
        let mut outcomes: Vec<ResolutionOutcome> = Vec::new();
        let mut i: usize = 0;
        while queue.len() > 0
            invariant
                all.len() == i + queue@.len(),
                n == all.len(),
                outcomes@.len() == i,
                queue@ == all.subrange(i as int, all.len() as int).reverse(),
                reqs == all.map_values(|c: ImportCandidate<EntityType>| entity_type_request(c)),
                (self.store@, outcome_views(outcomes@)) == resolve_all::<S>(m0, reqs.subrange(0, i as int), self.policy),
                self.policy == old(self).policy,
            decreases queue@.len(),
        {
            let candidate = queue.pop().unwrap();
            assert(candidate == all[i as int]);
            let kind_hint = Some(candidate.payload.key.clone());
            let query = MatchQuery {
                display_name: candidate.display_name,
                kind_hint,
                source_hint: None,
                game_system_hint: None,
            };
            let ghost before = outcomes@;
            let outcome = self.resolve_candidate(
                SubjectKind::EntityType,
                candidate.external_ids,
                CanonicalSubject::EntityType(candidate.payload),
                query,
            );
            outcomes.push(outcome);
            proof {
                assert(reqs.subrange(0, i + 1).drop_last() =~= reqs.subrange(0, i as int));
                assert(outcome_views(outcomes@) =~= outcome_views(before).push(outcome@));
            }
            i = i + 1;
            assert(queue@ =~= all.subrange(i as int, all.len() as int).reverse());
        }
        assert(reqs.subrange(0, i as int) =~= reqs);
        outcomes
    }

    /// Resolves entity candidates in order, hinting each search with the
    /// type key attribute, the first hinted title and the first hinted game system.
    pub fn reconcile_entities(&mut self, candidates: Vec<ImportCandidate<Entity>>) -> (outcomes: Vec<ResolutionOutcome>)
        ensures
            final(self).policy == old(self).policy,
            outcomes@.len() == candidates@.len(),
            (final(self).store@, outcome_views(outcomes@)) == resolve_all::<S>(
                old(self).store@,
                candidates@.map_values(|c: ImportCandidate<Entity>| entity_request(c)),
                old(self).policy,
            ),
    {
        let ghost all = candidates@;
        let ghost reqs = all.map_values(|c: ImportCandidate<Entity>| entity_request(c));
        let ghost m0 = self.store@;
        let n = candidates.len();
        let mut queue = into_queue(candidates);
        let mut outcomes: Vec<ResolutionOutcome> = Vec::new();
        let mut i: usize = 0;
        while queue.len() > 0
            invariant
                all.len() == i + queue@.len(),
                n == all.len(),
                outcomes@.len() == i,
                queue@ == all.subrange(i as int, all.len() as int).reverse(),
                reqs == all.map_values(|c: ImportCandidate<Entity>| entity_request(c)),
                (self.store@, outcome_views(outcomes@)) == resolve_all::<S>(m0, reqs.subrange(0, i as int), self.policy),
                self.policy == old(self).policy,
            decreases queue@.len(),
        {
            let candidate = queue.pop().unwrap();
            assert(candidate == all[i as int]);
            let kind_hint = attribute_str(&candidate.payload.attributes, "pcgen_entity_type_key");
            let source_hint = hint_title(&candidate.source_hints);
            let game_system_hint = hint_system(&candidate.source_hints);
            let query = MatchQuery {
                display_name: candidate.display_name,
                kind_hint,
                source_hint,
                game_system_hint,
            };
            let ghost before = outcomes@;
            let outcome = self.resolve_candidate(
                SubjectKind::Entity,
                candidate.external_ids,
                CanonicalSubject::Entity(candidate.payload),
                query,
            );
            outcomes.push(outcome);
            proof {
                assert(reqs.subrange(0, i + 1).drop_last() =~= reqs.subrange(0, i as int));
                assert(outcome_views(outcomes@) =~= outcome_views(before).push(outcome@));
            }
            i = i + 1;
            assert(queue@ =~= all.subrange(i as int, all.len() as int).reverse());
        }
        assert(reqs.subrange(0, i as int) =~= reqs);
        outcomes
    }

    /// Resolves citation candidates in order.
    pub fn reconcile_citations(&mut self, candidates: Vec<ImportCandidate<CitationRecord>>) -> (outcomes: Vec<ResolutionOutcome>)
        ensures
            final(self).policy == old(self).policy,
            outcomes@.len() == candidates@.len(),
            (final(self).store@, outcome_views(outcomes@)) == resolve_all::<S>(
                old(self).store@,
                candidates@.map_values(|c: ImportCandidate<CitationRecord>| citation_request(c)),
                old(self).policy,
            ),
    {
        let ghost all = candidates@;
        let ghost reqs = all.map_values(|c: ImportCandidate<CitationRecord>| citation_request(c));
        let ghost m0 = self.store@;
        let n = candidates.len();
        let mut queue = into_queue(candidates);
        let mut outcomes: Vec<ResolutionOutcome> = Vec::new();
        let mut i: usize = 0;
        while queue.len() > 0
            invariant
                all.len() == i + queue@.len(),
                n == all.len(),
                outcomes@.len() == i,
                queue@ == all.subrange(i as int, all.len() as int).reverse(),
                reqs == all.map_values(|c: ImportCandidate<CitationRecord>| citation_request(c)),
                (self.store@, outcome_views(outcomes@)) == resolve_all::<S>(m0, reqs.subrange(0, i as int), self.policy),
                self.policy == old(self).policy,
            decreases queue@.len(),
        {
            let candidate = queue.pop().unwrap();
            assert(candidate == all[i as int]);
            let query = MatchQuery {
                display_name: candidate.display_name,
                kind_hint: None,
                source_hint: None,
                game_system_hint: None,
            };
            let ghost before = outcomes@;
            let outcome = self.resolve_candidate(
                SubjectKind::Citation,
                candidate.external_ids,
                CanonicalSubject::Citation(candidate.payload),
                query,
            );
            outcomes.push(outcome);
            proof {
                assert(reqs.subrange(0, i + 1).drop_last() =~= reqs.subrange(0, i as int));
                assert(outcome_views(outcomes@) =~= outcome_views(before).push(outcome@));
            }
            i = i + 1;
            assert(queue@ =~= all.subrange(i as int, all.len() as int).reverse());
        }
        assert(reqs.subrange(0, i as int) =~= reqs);
        outcomes
    }
}

} // verus!
