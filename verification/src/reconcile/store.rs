use vstd::prelude::*;

use crate::domain::{CitationLocator, CitationRecord, Entity, EntityType, PublisherRecord, SourceRecord, SubjectRef};
use crate::id::{CanonicalId, ExternalId};

use super::matcher::{candidate_views, CandidateView, MatchCandidate, MatchQuery, QueryView};

verus! {

/// The kinds of canonical records that reconciliation resolves.
#[derive(Debug, Clone, Copy, PartialEq, Eq, Structural, Hash)]
pub enum SubjectKind {
    Entity,
    EntityType,
    Publisher,
    Source,
    Citation,
}

/// A canonical record of any reconciled kind.
#[derive(Debug, Clone)]
pub enum CanonicalSubject {
    Entity(Entity),
    EntityType(EntityType),
    Publisher(PublisherRecord),
    Source(SourceRecord),
    Citation(CitationRecord),
}

/// The canonical id a subject carries.
pub open spec fn subject_id(s: CanonicalSubject) -> CanonicalId {
    match s {
        CanonicalSubject::Entity(r) => r.id,
        CanonicalSubject::EntityType(r) => r.id,
        CanonicalSubject::Publisher(r) => r.id,
        CanonicalSubject::Source(r) => r.id,
        CanonicalSubject::Citation(r) => r.id,
    }
}

/// The kind of a subject.
pub open spec fn subject_kind(s: CanonicalSubject) -> SubjectKind {
    match s {
        CanonicalSubject::Entity(_) => SubjectKind::Entity,
        CanonicalSubject::EntityType(_) => SubjectKind::EntityType,
        CanonicalSubject::Publisher(_) => SubjectKind::Publisher,
        CanonicalSubject::Source(_) => SubjectKind::Source,
        CanonicalSubject::Citation(_) => SubjectKind::Citation,
    }
}

impl CanonicalSubject {
    /// The kind of this subject.
    pub fn kind(&self) -> (kind: SubjectKind)
        ensures
            kind == subject_kind(*self),
    {
        match self {
            CanonicalSubject::Entity(_) => SubjectKind::Entity,
            CanonicalSubject::EntityType(_) => SubjectKind::EntityType,
            CanonicalSubject::Publisher(_) => SubjectKind::Publisher,
            CanonicalSubject::Source(_) => SubjectKind::Source,
            CanonicalSubject::Citation(_) => SubjectKind::Citation,
        }
    }

    /// The canonical id this subject carries.
    pub fn id(&self) -> (id: CanonicalId)
        ensures
            id == subject_id(*self),
    {
        match self {
            CanonicalSubject::Entity(r) => r.id,
            CanonicalSubject::EntityType(r) => r.id,
            CanonicalSubject::Publisher(r) => r.id,
            CanonicalSubject::Source(r) => r.id,
            CanonicalSubject::Citation(r) => r.id,
        }
    }
}

/// Persistence behind reconciliation. A store is described by its view; the
/// seven spec functions say what each operation reads or makes of it.
pub trait ReconciliationStore: View + Sized {
    /// The record of `kind` that `id` is mapped to, if any.
    spec fn spec_find(model: Self::V, kind: SubjectKind, id: ExternalId) -> Option<CanonicalId>;

    /// The ranked candidates for a query.
    spec fn spec_search(model: Self::V, kind: SubjectKind, query: QueryView) -> Seq<CandidateView>;

    /// The store after storing `subject`, and the id it is stored under.
    spec fn spec_upsert(model: Self::V, subject: CanonicalSubject) -> (Self::V, CanonicalId);

    /// The store after recording that `id` names record `canonical` of `kind`.
    spec fn spec_link(model: Self::V, kind: SubjectKind, canonical: CanonicalId, id: ExternalId) -> Self::V;

    /// The first citation of `subject` in `source`, if any.
    spec fn spec_citation_of(model: Self::V, subject: SubjectRef, source: CanonicalId) -> Option<CanonicalId>;

    /// The store after adding `locators` to the locator set of citation
    /// `canonical`.
    spec fn spec_add_locators(model: Self::V, canonical: CanonicalId, locators: Seq<CitationLocator>) -> Self::V;

    /// Whether a record of `kind` is stored under `id`.
    spec fn spec_holds(model: Self::V, kind: SubjectKind, id: CanonicalId) -> bool;

    fn contains_subject(&self, kind: SubjectKind, id: CanonicalId) -> (held: bool)
        ensures
            held == Self::spec_holds(self@, kind, id),
    ;

    fn find_citation(&self, subject: &SubjectRef, source: CanonicalId) -> (found: Option<CanonicalId>)
        ensures
            found == Self::spec_citation_of(self@, *subject, source),
    ;

    fn add_locators(&mut self, canonical: CanonicalId, locators: Vec<CitationLocator>)
        ensures
            final(self)@ == Self::spec_add_locators(old(self)@, canonical, locators@),
    ;

    fn find_by_external_id(&self, kind: SubjectKind, id: &ExternalId) -> (found: Option<CanonicalId>)
        ensures
            found == Self::spec_find(self@, kind, *id),
    ;

    fn search_candidates(&self, kind: SubjectKind, query: MatchQuery) -> (found: Vec<MatchCandidate>)
        ensures
            candidate_views(found@) == Self::spec_search(self@, kind, query@),
    ;

    fn upsert_subject(&mut self, subject: CanonicalSubject) -> (id: CanonicalId)
        ensures
            (final(self)@, id) == Self::spec_upsert(old(self)@, subject),
    ;

    fn link_external_id(&mut self, kind: SubjectKind, canonical: CanonicalId, id: ExternalId)
        ensures
            final(self)@ == Self::spec_link(old(self)@, kind, canonical, id),
    ;
}

} // verus!
