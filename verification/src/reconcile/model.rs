//! The mathematical view of an in-memory store: each record with its external
//! ids as a sequence, the index built from them, and the candidates a search
//! finds.

use indexmap::IndexMap;
use vstd::prelude::*;

use crate::domain::{
    CharacterGraph, CitationLocator, CitationRecord, CompletenessState, CoreCatalog, Effect,
    Entity, EntityType, FieldDef, IdentityLink, MappingRecord, Prerequisite, PublisherRecord,
    RelationshipDef, RuleHook, SourceRecord, SubjectRef, VerificationState,
};
use crate::external::attribute_text;
use crate::id::{CanonicalId, ExternalId};
use crate::projection::{LossNote, ProjectionMap};
use crate::provenance::Provenance;

use super::matcher::{CandidateView, QueryView};
use super::scoring::scored;
use super::matching::{eq_ignore_case, ext_key, fuzzy, name_score};
use super::store::{CanonicalSubject, SubjectKind};

verus! {

/// A publisher record, its external ids as a sequence.
#[verifier::ext_equal]
pub struct PublisherModel {
    pub id: CanonicalId,
    pub name: String,
    pub external_ids: Seq<ExternalId>,
}

/// A source record, its external ids as a sequence.
#[verifier::ext_equal]
pub struct SourceModel {
    pub id: CanonicalId,
    pub title: String,
    pub publisher: Option<String>,
    pub publisher_ids: Vec<CanonicalId>,
    pub edition: Option<String>,
    pub license: Option<String>,
    pub game_systems: Vec<String>,
    pub external_ids: Seq<ExternalId>,
}

/// A citation record, its external ids as a sequence.
#[verifier::ext_equal]
pub struct CitationModel {
    pub id: CanonicalId,
    pub subject: SubjectRef,
    pub source: CanonicalId,
    pub locators: Seq<CitationLocator>,
    pub verification: VerificationState,
    pub external_ids: Seq<ExternalId>,
}

/// An entity type, its external ids as a sequence.
#[verifier::ext_equal]
pub struct EntityTypeModel {
    pub id: CanonicalId,
    pub key: String,
    pub name: String,
    pub game_system: Option<String>,
    pub parent: Option<CanonicalId>,
    pub fields: Vec<FieldDef>,
    pub relationships: Vec<RelationshipDef>,
    pub descriptive_fields: IndexMap<String, serde_json::Value>,
    pub mechanical_fields: IndexMap<String, serde_json::Value>,
    pub external_ids: Seq<ExternalId>,
    pub provenance: Option<Provenance>,
}

/// An entity, its external ids as a sequence.
#[verifier::ext_equal]
pub struct EntityModel {
    pub id: CanonicalId,
    pub entity_type: CanonicalId,
    pub name: String,
    pub attributes: IndexMap<String, serde_json::Value>,
    pub effects: Vec<Effect>,
    pub prerequisites: Vec<Prerequisite>,
    pub rule_hooks: Vec<RuleHook>,
    pub citations: Vec<CanonicalId>,
    pub external_ids: Seq<ExternalId>,
    pub completeness: CompletenessState,
    pub provenance: Option<Provenance>,
}

/// A catalog, each reconciled record list as a sequence of models.
#[verifier::ext_equal]
pub struct CatalogModel {
    pub publishers: Seq<PublisherModel>,
    pub sources: Seq<SourceModel>,
    pub citations: Seq<CitationModel>,
    pub entity_types: Seq<EntityTypeModel>,
    pub entities: Seq<EntityModel>,
    pub character_graphs: Vec<CharacterGraph>,
    pub identity_links: Vec<IdentityLink>,
    pub mapping_records: Vec<MappingRecord>,
    pub projection_maps: Vec<ProjectionMap>,
    pub loss_notes: Vec<LossNote>,
}

pub open spec fn publisher_model(r: PublisherRecord) -> PublisherModel {
    PublisherModel { id: r.id, name: r.name, external_ids: r.external_ids@ }
}

pub open spec fn source_model(r: SourceRecord) -> SourceModel {
    SourceModel {
        id: r.id,
        title: r.title,
        publisher: r.publisher,
        publisher_ids: r.publisher_ids,
        edition: r.edition,
        license: r.license,
        game_systems: r.game_systems,
        external_ids: r.external_ids@,
    }
}

pub open spec fn citation_model(r: CitationRecord) -> CitationModel {
    CitationModel {
        id: r.id,
        subject: r.subject,
        source: r.source,
        locators: r.locators@,
        verification: r.verification,
        external_ids: r.external_ids@,
    }
}

pub open spec fn entity_type_model(r: EntityType) -> EntityTypeModel {
    EntityTypeModel {
        id: r.id,
        key: r.key,
        name: r.name,
        game_system: r.game_system,
        parent: r.parent,
        fields: r.fields,
        relationships: r.relationships,
        descriptive_fields: r.descriptive_fields,
        mechanical_fields: r.mechanical_fields,
        external_ids: r.external_ids@,
        provenance: r.provenance,
    }
}

pub open spec fn entity_model(r: Entity) -> EntityModel {
    EntityModel {
        id: r.id,
        entity_type: r.entity_type,
        name: r.name,
        attributes: r.attributes,
        effects: r.effects,
        prerequisites: r.prerequisites,
        rule_hooks: r.rule_hooks,
        citations: r.citations,
        external_ids: r.external_ids@,
        completeness: r.completeness,
        provenance: r.provenance,
    }
}

/// The model of a catalog.
pub open spec fn catalog_model(c: CoreCatalog) -> CatalogModel {
    CatalogModel {
        publishers: c.publishers@.map_values(|r: PublisherRecord| publisher_model(r)),
        sources: c.sources@.map_values(|r: SourceRecord| source_model(r)),
        citations: c.citations@.map_values(|r: CitationRecord| citation_model(r)),
        entity_types: c.entity_types@.map_values(|r: EntityType| entity_type_model(r)),
        entities: c.entities@.map_values(|r: Entity| entity_model(r)),
        character_graphs: c.character_graphs,
        identity_links: c.identity_links,
        mapping_records: c.mapping_records,
        projection_maps: c.projection_maps,
        loss_notes: c.loss_notes,
    }
}

// ---------------------------------------------------------------------------
// The external-id index
// ---------------------------------------------------------------------------

/// One index entry: the kind, the key of an external id, and the record id.
pub type EntryView = (SubjectKind, Seq<char>, CanonicalId);

/// The entries of one record: one per external id, in order.
pub open spec fn record_entries(kind: SubjectKind, id: CanonicalId, ext: Seq<ExternalId>) -> Seq<
    EntryView,
> {
    ext.map_values(|e: ExternalId| (kind, ext_key(e), id))
}

/// The entries of a list of records of one kind, given as `(id, external ids)`.
pub open spec fn kind_entries(kind: SubjectKind, recs: Seq<(CanonicalId, Seq<ExternalId>)>) -> Seq<
    EntryView,
>
    decreases recs.len(),
{
    if recs.len() == 0 {
        Seq::empty()
    } else {
        kind_entries(kind, recs.drop_last()) + record_entries(kind, recs.last().0, recs.last().1)
    }
}

pub open spec fn publisher_keys(m: CatalogModel) -> Seq<(CanonicalId, Seq<ExternalId>)> {
    m.publishers.map_values(|r: PublisherModel| (r.id, r.external_ids))
}

pub open spec fn source_keys(m: CatalogModel) -> Seq<(CanonicalId, Seq<ExternalId>)> {
    m.sources.map_values(|r: SourceModel| (r.id, r.external_ids))
}

pub open spec fn entity_type_keys(m: CatalogModel) -> Seq<(CanonicalId, Seq<ExternalId>)> {
    m.entity_types.map_values(|r: EntityTypeModel| (r.id, r.external_ids))
}

pub open spec fn entity_keys(m: CatalogModel) -> Seq<(CanonicalId, Seq<ExternalId>)> {
    m.entities.map_values(|r: EntityModel| (r.id, r.external_ids))
}

pub open spec fn citation_keys(m: CatalogModel) -> Seq<(CanonicalId, Seq<ExternalId>)> {
    m.citations.map_values(|r: CitationModel| (r.id, r.external_ids))
}

/// Every index entry of a catalog, in the order the index is built:
/// publishers, sources, entity types, entities, citations; each record's
/// external ids in order.
pub open spec fn index_entries(m: CatalogModel) -> Seq<EntryView> {
    kind_entries(SubjectKind::Publisher, publisher_keys(m)) + kind_entries(
        SubjectKind::Source,
        source_keys(m),
    ) + kind_entries(SubjectKind::EntityType, entity_type_keys(m)) + kind_entries(
        SubjectKind::Entity,
        entity_keys(m),
    ) + kind_entries(SubjectKind::Citation, citation_keys(m))
}

/// The record id of the last entry for `kind` and `key`: later entries
/// overwrite earlier ones, as in a map filled in order.
pub open spec fn latest(entries: Seq<EntryView>, kind: SubjectKind, key: Seq<char>) -> Option<
    CanonicalId,
>
    decreases entries.len(),
{
    if entries.len() == 0 {
        None
    } else if entries.last().0 == kind && entries.last().1 == key {
        Some(entries.last().2)
    } else {
        latest(entries.drop_last(), kind, key)
    }
}

/// The record an external id resolves to in a catalog.
pub open spec fn lookup(m: CatalogModel, kind: SubjectKind, id: ExternalId) -> Option<CanonicalId> {
    latest(index_entries(m), kind, ext_key(id))
}

// ---------------------------------------------------------------------------
// Lookups by id (the last record with an id wins)
// ---------------------------------------------------------------------------

/// The position of the last id in `ids` equal to `id`.
pub open spec fn last_index_of(ids: Seq<CanonicalId>, id: CanonicalId) -> Option<int>
    decreases ids.len(),
{
    if ids.len() == 0 {
        None
    } else if ids.last() == id {
        Some(ids.len() - 1)
    } else {
        last_index_of(ids.drop_last(), id)
    }
}

/// The position of the first id in `ids` equal to `id`.
pub open spec fn first_index_of(ids: Seq<CanonicalId>, id: CanonicalId) -> Option<int>
    decreases ids.len(),
{
    if ids.len() == 0 {
        None
    } else if ids[0] == id {
        Some(0)
    } else {
        match first_index_of(ids.drop_first(), id) {
            Some(i) => Some(i + 1),
            None => None,
        }
    }
}

/// `first_index_of` finds the least position holding `id`, and finds none
/// exactly when no position does.
pub proof fn lemma_first_index_of(ids: Seq<CanonicalId>, id: CanonicalId)
    ensures
        match first_index_of(ids, id) {
            Some(i) => 0 <= i < ids.len() && ids[i] == id && forall|j: int| 0 <= j < i ==> ids[j] != id,
            None => forall|j: int| 0 <= j < ids.len() ==> ids[j] != id,
        },
    decreases ids.len(),
{
    if ids.len() > 0 && ids[0] != id {
        lemma_first_index_of(ids.drop_first(), id);
        assert(forall|j: int| 0 < j < ids.len() ==> ids[j] == ids.drop_first()[j - 1]);
    }
}

/// The key of the (last) entity type with id `id`.
pub open spec fn entity_type_key_of(m: CatalogModel, id: CanonicalId) -> Option<Seq<char>> {
    match last_index_of(m.entity_types.map_values(|r: EntityTypeModel| r.id), id) {
        Some(i) => Some(m.entity_types[i].key@),
        None => None,
    }
}

/// The (last) source cited by the (last) citation with id `cite`.
pub open spec fn cited_source(m: CatalogModel, cite: CanonicalId) -> Option<SourceModel> {
    match last_index_of(m.citations.map_values(|r: CitationModel| r.id), cite) {
        Some(i) => match last_index_of(
            m.sources.map_values(|r: SourceModel| r.id),
            m.citations[i].source,
        ) {
            Some(j) => Some(m.sources[j]),
            None => None,
        },
        None => None,
    }
}

/// The titles of the sources reached through the citations `cites`, in order.
pub open spec fn cited_titles(m: CatalogModel, cites: Seq<CanonicalId>) -> Seq<Seq<char>>
    decreases cites.len(),
{
    if cites.len() == 0 {
        Seq::empty()
    } else {
        cited_titles(m, cites.drop_last()) + match cited_source(m, cites.last()) {
            Some(s) => seq![s.title@],
            None => Seq::empty(),
        }
    }
}

/// The game systems of the sources reached through the citations `cites`.
pub open spec fn cited_systems(m: CatalogModel, cites: Seq<CanonicalId>) -> Seq<Seq<char>>
    decreases cites.len(),
{
    if cites.len() == 0 {
        Seq::empty()
    } else {
        cited_systems(m, cites.drop_last()) + match cited_source(m, cites.last()) {
            Some(s) => text_views(s.game_systems@),
            None => Seq::empty(),
        }
    }
}

/// The characters of each text of a list.
pub open spec fn text_views(v: Seq<String>) -> Seq<Seq<char>> {
    v.map_values(|t: String| t@)
}

/// An optional text as a sequence of zero or one texts.
pub open spec fn opt_seq(o: Option<Seq<char>>) -> Seq<Seq<char>> {
    match o {
        Some(t) => seq![t],
        None => Seq::empty(),
    }
}

/// The source titles known for an entity: its PCGen long, short and page
/// source attributes (when JSON strings), then the titles of cited sources.
pub open spec fn entity_source_titles_of(m: CatalogModel, e: EntityModel) -> Seq<Seq<char>> {
    opt_seq(attribute_text(e.attributes, "pcgen_source_long"@)) + opt_seq(
        attribute_text(e.attributes, "pcgen_source_short"@),
    ) + opt_seq(attribute_text(e.attributes, "pcgen_source_page"@)) + cited_titles(
        m,
        e.citations@,
    )
}

/// The game systems known for an entity: its PCGen game mode attribute
/// (when a JSON string), then the game systems of cited sources.
pub open spec fn entity_game_systems_of(m: CatalogModel, e: EntityModel) -> Seq<Seq<char>> {
    opt_seq(attribute_text(e.attributes, "pcgen_game_mode"@)) + cited_systems(m, e.citations@)
}

// ---------------------------------------------------------------------------
// Candidate scoring
// ---------------------------------------------------------------------------

/// A running score: confidence in hundredths and the reasons so far.
pub struct Tally {
    pub confidence: int,
    pub reasons: Seq<Seq<char>>,
}

/// `t` raised by `points`, with one more reason.
pub open spec fn bump(t: Tally, points: int, reason: Seq<char>) -> Tally {
    Tally { confidence: t.confidence + points, reasons: t.reasons.push(reason) }
}

/// `parts` joined with `sep` between consecutive parts.
pub open spec fn join(parts: Seq<Seq<char>>, sep: Seq<char>) -> Seq<char>
    decreases parts.len(),
{
    if parts.len() == 0 {
        Seq::empty()
    } else if parts.len() == 1 {
        parts[0]
    } else {
        join(parts.drop_last(), sep) + sep + parts.last()
    }
}

/// The opening step: the name score with `label` when the query has a
/// display name (no candidate when the score is 0), else 40 points.
pub open spec fn name_tally(q: QueryView, name: Seq<char>, label: Seq<char>) -> Option<Tally> {
    match q.display_name {
        Some(d) => if name_score(d, name) == 0 {
            None
        } else {
            Some(Tally { confidence: name_score(d, name) as int, reasons: seq![label] })
        },
        None => Some(Tally { confidence: 40, reasons: Seq::empty() }),
    }
}

/// The closing step: a candidate when the confidence reaches 60, capped at
/// 100, its reasons joined by `", "`.
pub open spec fn finish(t: Option<Tally>, id: CanonicalId) -> Option<CandidateView> {
    match t {
        Some(t) => if t.confidence >= 60 {
            Some(
                CandidateView {
                    id,
                    confidence: if t.confidence > 100 { 100 } else { t.confidence as u32 },
                    reason: join(t.reasons, ", "@),
                },
            )
        } else {
            None
        },
        None => None,
    }
}

/// Entity step: a kind hint must equal (up to case) the key of the entity's
/// type when that type is known (+20); unknown types pass unscored.
pub open spec fn entity_kind_tally(t: Option<Tally>, q: QueryView, key: Option<Seq<char>>) -> Option<
    Tally,
> {
    match (t, q.kind_hint, key) {
        (Some(t), Some(k), Some(key)) => if eq_ignore_case(key, k) {
            Some(bump(t, 20, "entity type key match"@))
        } else {
            None
        },
        _ => t,
    }
}

/// Some title matches the hint loosely.
pub open spec fn any_fuzzy(hint: Seq<char>, titles: Seq<Seq<char>>) -> bool {
    exists|i: int| 0 <= i < titles.len() && fuzzy(hint, #[trigger] titles[i])
}

/// Some system equals the hint up to case.
pub open spec fn any_same_system(hint: Seq<char>, systems: Seq<Seq<char>>) -> bool {
    exists|i: int| 0 <= i < systems.len() && eq_ignore_case(#[trigger] systems[i], hint)
}

/// Entity step: a source hint must match one of the known titles when any
/// are known (+10 when it does); no known titles pass unscored.
pub open spec fn entity_source_tally(t: Option<Tally>, q: QueryView, titles: Seq<Seq<char>>) -> Option<
    Tally,
> {
    match (t, q.source_hint) {
        (Some(t), Some(h)) => if any_fuzzy(h, titles) {
            Some(bump(t, 10, "source hint match ("@ + h + ")"@))
        } else if titles.len() > 0 {
            None
        } else {
            Some(t)
        },
        _ => t,
    }
}

/// Entity step: a game-system hint must equal one of the known systems when
/// any are known (+20 when it does); no known systems pass unscored.
pub open spec fn entity_system_tally(t: Option<Tally>, q: QueryView, systems: Seq<Seq<char>>) -> Option<
    Tally,
> {
    match (t, q.game_system_hint) {
        (Some(t), Some(g)) => if any_same_system(g, systems) {
            Some(bump(t, 20, "game system match ("@ + g + ")"@))
        } else if systems.len() > 0 {
            None
        } else {
            Some(t)
        },
        _ => t,
    }
}

/// The candidate an entity makes for a query, if any.
pub open spec fn entity_candidate(m: CatalogModel, q: QueryView, e: EntityModel) -> Option<
    CandidateView,
> {
    let t = name_tally(q, e.name@, "name similarity"@);
    let t = entity_kind_tally(t, q, entity_type_key_of(m, e.entity_type));
    let t = entity_source_tally(t, q, entity_source_titles_of(m, e));
    let t = entity_system_tally(t, q, entity_game_systems_of(m, e));
    finish(t, e.id)
}

/// Entity-type step: a kind hint must equal the type key up to case (+25).
pub open spec fn type_key_tally(t: Option<Tally>, q: QueryView, key: Seq<char>) -> Option<Tally> {
    match (t, q.kind_hint) {
        (Some(t), Some(k)) => if eq_ignore_case(key, k) {
            Some(bump(t, 25, "type key match"@))
        } else {
            None
        },
        _ => t,
    }
}

/// The candidate an entity type makes for a query, if any.
pub open spec fn entity_type_candidate(q: QueryView, r: EntityTypeModel) -> Option<CandidateView> {
    finish(type_key_tally(name_tally(q, r.name@, "name similarity"@), q, r.key@), r.id)
}

/// Source step: a source hint must match the title loosely (+15).
pub open spec fn source_hint_tally(t: Option<Tally>, q: QueryView, title: Seq<char>) -> Option<Tally> {
    match (t, q.source_hint) {
        (Some(t), Some(h)) => if fuzzy(h, title) {
            Some(bump(t, 15, "source hint match"@))
        } else {
            None
        },
        _ => t,
    }
}

/// Source step: a game-system hint must equal one of the source's systems
/// when it lists any (+20 when it does).
pub open spec fn source_system_tally(t: Option<Tally>, q: QueryView, systems: Seq<Seq<char>>) -> Option<
    Tally,
> {
    match (t, q.game_system_hint) {
        (Some(t), Some(g)) => if any_same_system(g, systems) {
            Some(bump(t, 20, "game system match"@))
        } else if systems.len() > 0 {
            None
        } else {
            Some(t)
        },
        _ => t,
    }
}

/// The candidate a source makes for a query, if any.
pub open spec fn source_candidate(q: QueryView, r: SourceModel) -> Option<CandidateView> {
    let t = name_tally(q, r.title@, "title similarity"@);
    let t = source_hint_tally(t, q, r.title@);
    let t = source_system_tally(t, q, text_views(r.game_systems@));
    finish(t, r.id)
}

/// The candidate a publisher makes for a query, if any.
pub open spec fn publisher_candidate(q: QueryView, r: PublisherModel) -> Option<CandidateView> {
    finish(name_tally(q, r.name@, "name similarity"@), r.id)
}

/// The candidates of a record list, in record order.
pub open spec fn collect_candidates<T>(recs: Seq<T>, f: spec_fn(T) -> Option<CandidateView>) -> Seq<
    CandidateView,
>
    decreases recs.len(),
{
    if recs.len() == 0 {
        Seq::empty()
    } else {
        let prefix = collect_candidates(recs.drop_last(), f);
        match f(recs.last()) {
            Some(c) => prefix.push(c),
            None => prefix,
        }
    }
}

/// The candidate-making function of entities for a query.
pub open spec fn entity_candidate_fn(m: CatalogModel, q: QueryView) -> spec_fn(EntityModel) -> Option<
    CandidateView,
> {
    |e: EntityModel| entity_candidate(m, q, e)
}

/// The candidate-making function of entity types for a query.
pub open spec fn entity_type_candidate_fn(q: QueryView) -> spec_fn(EntityTypeModel) -> Option<
    CandidateView,
> {
    |r: EntityTypeModel| entity_type_candidate(q, r)
}

/// The candidate-making function of sources for a query.
pub open spec fn source_candidate_fn(q: QueryView) -> spec_fn(SourceModel) -> Option<CandidateView> {
    |r: SourceModel| source_candidate(q, r)
}

/// The candidate-making function of publishers for a query.
pub open spec fn publisher_candidate_fn(q: QueryView) -> spec_fn(PublisherModel) -> Option<
    CandidateView,
> {
    |r: PublisherModel| publisher_candidate(q, r)
}

/// What a search of a catalog finds: the candidates of the records of the
/// kind, in record order, then ranked (see `scored`). Citations are never
/// searched.
pub open spec fn search(m: CatalogModel, kind: SubjectKind, q: QueryView) -> Seq<CandidateView> {
    match kind {
        SubjectKind::Entity => scored(q, collect_candidates(m.entities, entity_candidate_fn(m, q))),
        SubjectKind::EntityType => scored(
            q,
            collect_candidates(m.entity_types, entity_type_candidate_fn(q)),
        ),
        SubjectKind::Publisher => scored(q, collect_candidates(m.publishers, publisher_candidate_fn(q))),
        SubjectKind::Source => scored(q, collect_candidates(m.sources, source_candidate_fn(q))),
        SubjectKind::Citation => Seq::empty(),
    }
}

// ---------------------------------------------------------------------------
// Storing and linking
// ---------------------------------------------------------------------------

/// `recs` with `rec` stored: in place of the first record with its id, or
/// appended when there is none. `ids` are the ids of `recs`.
pub open spec fn upserted<T>(recs: Seq<T>, ids: Seq<CanonicalId>, rec: T, id: CanonicalId) -> Seq<T> {
    match first_index_of(ids, id) {
        Some(i) => recs.update(i, rec),
        None => recs.push(rec),
    }
}

/// A catalog with `subject` stored, and the id it is stored under (its own).
pub open spec fn upsert(m: CatalogModel, subject: CanonicalSubject) -> (CatalogModel, CanonicalId) {
    match subject {
        CanonicalSubject::Entity(r) => (
            CatalogModel {
                entities: upserted(
                    m.entities,
                    m.entities.map_values(|x: EntityModel| x.id),
                    entity_model(r),
                    r.id,
                ),
                ..m
            },
            r.id,
        ),
        CanonicalSubject::EntityType(r) => (
            CatalogModel {
                entity_types: upserted(
                    m.entity_types,
                    m.entity_types.map_values(|x: EntityTypeModel| x.id),
                    entity_type_model(r),
                    r.id,
                ),
                ..m
            },
            r.id,
        ),
        CanonicalSubject::Publisher(r) => (
            CatalogModel {
                publishers: upserted(
                    m.publishers,
                    m.publishers.map_values(|x: PublisherModel| x.id),
                    publisher_model(r),
                    r.id,
                ),
                ..m
            },
            r.id,
        ),
        CanonicalSubject::Source(r) => (
            CatalogModel {
                sources: upserted(
                    m.sources,
                    m.sources.map_values(|x: SourceModel| x.id),
                    source_model(r),
                    r.id,
                ),
                ..m
            },
            r.id,
        ),
        CanonicalSubject::Citation(r) => (
            CatalogModel {
                citations: upserted(
                    m.citations,
                    m.citations.map_values(|x: CitationModel| x.id),
                    citation_model(r),
                    r.id,
                ),
                ..m
            },
            r.id,
        ),
    }
}

/// Some id of `ids` equals `id` field by field.
pub open spec fn has_external_id(ids: Seq<ExternalId>, id: ExternalId) -> bool {
    exists|j: int| 0 <= j < ids.len() && (#[trigger] ids[j]).same_as(&id)
}

/// `ids` with `id` appended unless an equal id is already there.
pub open spec fn with_external_id(ids: Seq<ExternalId>, id: ExternalId) -> Seq<ExternalId> {
    if has_external_id(ids, id) {
        ids
    } else {
        ids.push(id)
    }
}

/// A catalog after linking `id` to the first record of `kind` with id
/// `canonical`; unchanged when there is no such record.
pub open spec fn link(m: CatalogModel, kind: SubjectKind, canonical: CanonicalId, id: ExternalId) -> CatalogModel {
    match kind {
        SubjectKind::Entity => match first_index_of(m.entities.map_values(|x: EntityModel| x.id), canonical) {
            Some(i) => CatalogModel {
                entities: m.entities.update(
                    i,
                    EntityModel { external_ids: with_external_id(m.entities[i].external_ids, id), ..m.entities[i] },
                ),
                ..m
            },
            None => m,
        },
        SubjectKind::EntityType => match first_index_of(
            m.entity_types.map_values(|x: EntityTypeModel| x.id),
            canonical,
        ) {
            Some(i) => CatalogModel {
                entity_types: m.entity_types.update(
                    i,
                    EntityTypeModel {
                        external_ids: with_external_id(m.entity_types[i].external_ids, id),
                        ..m.entity_types[i]
                    },
                ),
                ..m
            },
            None => m,
        },
        SubjectKind::Publisher => match first_index_of(
            m.publishers.map_values(|x: PublisherModel| x.id),
            canonical,
        ) {
            Some(i) => CatalogModel {
                publishers: m.publishers.update(
                    i,
                    PublisherModel {
                        external_ids: with_external_id(m.publishers[i].external_ids, id),
                        ..m.publishers[i]
                    },
                ),
                ..m
            },
            None => m,
        },
        SubjectKind::Source => match first_index_of(m.sources.map_values(|x: SourceModel| x.id), canonical) {
            Some(i) => CatalogModel {
                sources: m.sources.update(
                    i,
                    SourceModel { external_ids: with_external_id(m.sources[i].external_ids, id), ..m.sources[i] },
                ),
                ..m
            },
            None => m,
        },
        SubjectKind::Citation => match first_index_of(
            m.citations.map_values(|x: CitationModel| x.id),
            canonical,
        ) {
            Some(i) => CatalogModel {
                citations: m.citations.update(
                    i,
                    CitationModel {
                        external_ids: with_external_id(m.citations[i].external_ids, id),
                        ..m.citations[i]
                    },
                ),
                ..m
            },
            None => m,
        },
    }
}

// ---------------------------------------------------------------------------
// Citation merging
// ---------------------------------------------------------------------------

/// Two locators name the same place: equal kind, value and canonical flag.
pub open spec fn same_locator(a: CitationLocator, b: CitationLocator) -> bool {
    a.kind@ == b.kind@ && a.value@ == b.value@ && a.canonical == b.canonical
}

/// `locs` holds a locator naming the same place as `l`.
pub open spec fn has_locator(locs: Seq<CitationLocator>, l: CitationLocator) -> bool {
    exists|j: int| 0 <= j < locs.len() && same_locator(#[trigger] locs[j], l)
}

/// `locs` with each of `more`, in order, appended unless it names a place
/// already held: the locator set only grows.
pub open spec fn add_locators(locs: Seq<CitationLocator>, more: Seq<CitationLocator>) -> Seq<CitationLocator>
    decreases more.len(),
{
    if more.len() == 0 {
        locs
    } else {
        let next = if has_locator(locs, more[0]) {
            locs
        } else {
            locs.push(more[0])
        };
        add_locators(next, more.drop_first())
    }
}

/// The position of the first citation of `subject` in `source`.
pub open spec fn first_citation_index(cites: Seq<CitationModel>, subject: SubjectRef, source: CanonicalId) -> Option<
    int,
>
    decreases cites.len(),
{
    if cites.len() == 0 {
        None
    } else if cites[0].subject == subject && cites[0].source == source {
        Some(0)
    } else {
        match first_citation_index(cites.drop_first(), subject, source) {
            Some(i) => Some(i + 1),
            None => None,
        }
    }
}

/// The id of the first citation of `subject` in `source`, if any.
pub open spec fn citation_of(m: CatalogModel, subject: SubjectRef, source: CanonicalId) -> Option<CanonicalId> {
    match first_citation_index(m.citations, subject, source) {
        Some(i) => Some(m.citations[i].id),
        None => None,
    }
}

/// A catalog after adding `more` to the locators of the first citation with
/// id `canonical`; unchanged when there is none.
pub open spec fn merge_locators(m: CatalogModel, canonical: CanonicalId, more: Seq<CitationLocator>) -> CatalogModel {
    match first_index_of(m.citations.map_values(|x: CitationModel| x.id), canonical) {
        Some(i) => CatalogModel {
            citations: m.citations.update(
                i,
                CitationModel { locators: add_locators(m.citations[i].locators, more), ..m.citations[i] },
            ),
            ..m
        },
        None => m,
    }
}

} // verus!
