//! A reference store that keeps the whole catalog in memory, with an index
//! from external-id keys to records.

use vstd::prelude::*;

use crate::domain::{CitationRecord, CoreCatalog, Entity, EntityType, PublisherRecord, SourceRecord};
use crate::id::{CanonicalId, ExternalId};

use super::matcher::{candidate_views, MatchCandidate, MatchQuery, QueryView};
use super::matcher::CandidateView;
use super::matching::{ext_key, external_id_key};
use super::search::{
    search_entity_candidates, search_entity_type_candidates, search_publisher_candidates,
    search_source_candidates,
};
use super::store::{CanonicalSubject, ReconciliationStore};
use super::model::{
    catalog_model, lemma_first_index_of, citation_keys, entity_keys, entity_type_keys, first_index_of, index_entries,
    kind_entries, last_index_of, latest, link, lookup, publisher_keys, record_entries, search,
    source_keys, upsert, has_external_id, entity_model, entity_type_model,
    publisher_model, source_model, citation_model, upserted, CatalogModel, EntryView, EntityModel,
    EntityTypeModel, PublisherModel, SourceModel, CitationModel, citation_of, first_citation_index, merge_locators,
    add_locators, has_locator, same_locator,
};
use super::store::SubjectKind;
use super::reconciler::into_queue;
use crate::domain::{CitationLocator, SubjectRef};
use super::index_laws::kind_ids;

pub use super::matching::{format_id_key, fuzzy_match, normalize_for_match};

verus! {

/// A record kept in a catalog list: it has an id and external ids.
pub trait CanonicalRecord {
    spec fn spec_id(&self) -> CanonicalId;

    spec fn spec_external_ids(&self) -> Seq<ExternalId>;

    fn record_id(&self) -> (id: CanonicalId)
        ensures
            id == self.spec_id(),
    ;

    fn external_id_list(&self) -> (ids: &Vec<ExternalId>)
        ensures
            ids@ == self.spec_external_ids(),
    ;
}

impl CanonicalRecord for PublisherRecord {
    open spec fn spec_id(&self) -> CanonicalId {
        self.id
    }

    open spec fn spec_external_ids(&self) -> Seq<ExternalId> {
        self.external_ids@
    }

    fn record_id(&self) -> (id: CanonicalId) {
        self.id
    }

    fn external_id_list(&self) -> (ids: &Vec<ExternalId>) {
        &self.external_ids
    }
}

impl CanonicalRecord for SourceRecord {
    open spec fn spec_id(&self) -> CanonicalId {
        self.id
    }

    open spec fn spec_external_ids(&self) -> Seq<ExternalId> {
        self.external_ids@
    }

    fn record_id(&self) -> (id: CanonicalId) {
        self.id
    }

    fn external_id_list(&self) -> (ids: &Vec<ExternalId>) {
        &self.external_ids
    }
}

impl CanonicalRecord for EntityType {
    open spec fn spec_id(&self) -> CanonicalId {
        self.id
    }

    open spec fn spec_external_ids(&self) -> Seq<ExternalId> {
        self.external_ids@
    }

    fn record_id(&self) -> (id: CanonicalId) {
        self.id
    }

    fn external_id_list(&self) -> (ids: &Vec<ExternalId>) {
        &self.external_ids
    }
}

impl CanonicalRecord for Entity {
    open spec fn spec_id(&self) -> CanonicalId {
        self.id
    }

    open spec fn spec_external_ids(&self) -> Seq<ExternalId> {
        self.external_ids@
    }

    fn record_id(&self) -> (id: CanonicalId) {
        self.id
    }

    fn external_id_list(&self) -> (ids: &Vec<ExternalId>) {
        &self.external_ids
    }
}

impl CanonicalRecord for CitationRecord {
    open spec fn spec_id(&self) -> CanonicalId {
        self.id
    }

    open spec fn spec_external_ids(&self) -> Seq<ExternalId> {
        self.external_ids@
    }

    fn record_id(&self) -> (id: CanonicalId) {
        self.id
    }

    fn external_id_list(&self) -> (ids: &Vec<ExternalId>) {
        &self.external_ids
    }
}

/// The ids of a record list, in order.
pub open spec fn record_ids<T: CanonicalRecord>(s: Seq<T>) -> Seq<CanonicalId> {
    s.map_values(|r: T| r.spec_id())
}

/// The `(id, external ids)` pairs of a record list, in order.
pub open spec fn record_keys<T: CanonicalRecord>(s: Seq<T>) -> Seq<(CanonicalId, Seq<ExternalId>)> {
    s.map_values(|r: T| (r.spec_id(), r.spec_external_ids()))
}

/// A position as an integer.
pub open spec fn opt_pos(p: Option<usize>) -> Option<int> {
    match p {
        Some(i) => Some(i as int),
        None => None,
    }
}

/// The position of the last record with id `id`.
pub(crate) fn last_position<T: CanonicalRecord>(v: &Vec<T>, id: CanonicalId) -> (p: Option<usize>)
    ensures
        opt_pos(p) == last_index_of(record_ids(v@), id),
        p matches Some(i) ==> i < v@.len(),
{
    let ghost ids = record_ids(v@);
    let mut i = v.len();
    assert(ids.subrange(0, i as int) =~= ids);
    while i > 0
        invariant
            i <= v@.len(),
            ids == record_ids(v@),
            last_index_of(ids, id) == last_index_of(ids.subrange(0, i as int), id),
        decreases i,
    {
        i = i - 1;
        assert(ids.subrange(0, i + 1).drop_last() =~= ids.subrange(0, i as int));
        if v[i].record_id() == id {
            return Some(i);
        }
    }
    None
}

/// The position of the first record with id `id`.
fn first_position<T: CanonicalRecord>(v: &Vec<T>, id: CanonicalId) -> (p: Option<usize>)
    ensures
        opt_pos(p) == first_index_of(record_ids(v@), id),
        p matches Some(i) ==> i < v@.len(),
{
    let ghost ids = record_ids(v@);
    for i in 0..v.len()
        invariant
            ids == record_ids(v@),
            forall|j: int| 0 <= j < i ==> ids[j] != id,
    {
        if v[i].record_id() == id {
            proof {
                lemma_first_index_of(ids, id);
                match first_index_of(ids, id) {
                    Some(k) => {
                        if k < i {
                            assert(false);
                        } else if k > i {
                            assert(ids[i as int] == id);
                        }
                    },
                    None => {
                        assert(ids[i as int] == id);
                    },
                }
            }
            return Some(i);
        }
    }
    proof {
        lemma_first_index_of(ids, id);
        if first_index_of(ids, id) is Some {
            assert(false);
        }
    }
    None
}

/// `v` with `rec` stored in place of the first record with its id, or
/// appended when there is none.
fn upsert_record<T: CanonicalRecord>(v: &mut Vec<T>, rec: T)
    ensures
        final(v)@ == upserted(old(v)@, record_ids(old(v)@), rec, rec.spec_id()),
{
    match first_position(v, rec.record_id()) {
        Some(i) => {
            v.set(i, rec);
        },
        None => {
            v.push(rec);
        },
    }
}

/// Whether `ids` holds an id equal to `id` field by field.
fn contains_external_id(ids: &Vec<ExternalId>, id: &ExternalId) -> (r: bool)
    ensures
        r == has_external_id(ids@, *id),
{
    for j in 0..ids.len()
        invariant
            forall|k: int| 0 <= k < j ==> !(#[trigger] ids@[k]).same_as(id),
    {
        if ids[j].eq(id) {
            return true;
        }
    }
    false
}

fn upsert_entity(catalog: &mut CoreCatalog, record: Entity)
    ensures
        catalog_model(*final(catalog)) == upsert(
            catalog_model(*old(catalog)),
            CanonicalSubject::Entity(record),
        ).0,
{
    let ghost m = catalog_model(*catalog);
    let ghost old_recs = catalog.entities@;
    let ghost r = record;
    assert(record_ids(old_recs) =~= m.entities.map_values(|x: EntityModel| x.id));
    upsert_record(&mut catalog.entities, record);
    let ghost up = upsert(m, CanonicalSubject::Entity(r)).0;
    let ghost ids = record_ids(old_recs);
    proof {
        lemma_first_index_of(ids, r.id);
        match first_index_of(ids, r.id) {
            Some(i) => {
                assert(catalog.entities@ == old_recs.update(i, r));
                assert(catalog.entities@.map_values(|x: Entity| entity_model(x)) =~= m.entities.update(i, entity_model(r)));
            },
            None => {
                assert(catalog.entities@ == old_recs.push(r));
                assert(catalog.entities@.map_values(|x: Entity| entity_model(x)) =~= m.entities.push(entity_model(r)));
            },
        }
    }
    assert(catalog.entities@.map_values(|x: Entity| entity_model(x)) =~= up.entities);
    assert(catalog_model(*catalog) =~= up);
}

fn link_entity(catalog: &mut CoreCatalog, canonical: CanonicalId, id: ExternalId)
    ensures
        catalog_model(*final(catalog)) == link(catalog_model(*old(catalog)), SubjectKind::Entity, canonical, id),
{
    let ghost m = catalog_model(*catalog);
    let ghost linked = link(m, SubjectKind::Entity, canonical, id);
    assert(record_ids(catalog.entities@) =~= m.entities.map_values(|x: EntityModel| x.id));
    if let Some(i) = first_position(&catalog.entities, canonical) {
        if !contains_external_id(&catalog.entities[i].external_ids, &id) {
            let mut record = catalog.entities.remove(i);
            record.external_ids.push(id);
            catalog.entities.insert(i, record);
            assert(catalog.entities@.map_values(|x: Entity| entity_model(x)) =~= linked.entities);
        } else {
            assert(linked.entities =~= m.entities);
        }
    }
    assert(catalog_model(*catalog) =~= linked);
}

fn upsert_entity_type(catalog: &mut CoreCatalog, record: EntityType)
    ensures
        catalog_model(*final(catalog)) == upsert(
            catalog_model(*old(catalog)),
            CanonicalSubject::EntityType(record),
        ).0,
{
    let ghost m = catalog_model(*catalog);
    let ghost old_recs = catalog.entity_types@;
    let ghost r = record;
    assert(record_ids(old_recs) =~= m.entity_types.map_values(|x: EntityTypeModel| x.id));
    upsert_record(&mut catalog.entity_types, record);
    let ghost up = upsert(m, CanonicalSubject::EntityType(r)).0;
    let ghost ids = record_ids(old_recs);
    proof {
        lemma_first_index_of(ids, r.id);
        match first_index_of(ids, r.id) {
            Some(i) => {
                assert(catalog.entity_types@ == old_recs.update(i, r));
                assert(catalog.entity_types@.map_values(|x: EntityType| entity_type_model(x)) =~= m.entity_types.update(i, entity_type_model(r)));
            },
            None => {
                assert(catalog.entity_types@ == old_recs.push(r));
                assert(catalog.entity_types@.map_values(|x: EntityType| entity_type_model(x)) =~= m.entity_types.push(entity_type_model(r)));
            },
        }
    }
    assert(catalog.entity_types@.map_values(|x: EntityType| entity_type_model(x)) =~= up.entity_types);
    assert(catalog_model(*catalog) =~= up);
}

fn link_entity_type(catalog: &mut CoreCatalog, canonical: CanonicalId, id: ExternalId)
    ensures
        catalog_model(*final(catalog)) == link(catalog_model(*old(catalog)), SubjectKind::EntityType, canonical, id),
{
    let ghost m = catalog_model(*catalog);
    let ghost linked = link(m, SubjectKind::EntityType, canonical, id);
    assert(record_ids(catalog.entity_types@) =~= m.entity_types.map_values(|x: EntityTypeModel| x.id));
    if let Some(i) = first_position(&catalog.entity_types, canonical) {
        if !contains_external_id(&catalog.entity_types[i].external_ids, &id) {
            let mut record = catalog.entity_types.remove(i);
            record.external_ids.push(id);
            catalog.entity_types.insert(i, record);
            assert(catalog.entity_types@.map_values(|x: EntityType| entity_type_model(x)) =~= linked.entity_types);
        } else {
            assert(linked.entity_types =~= m.entity_types);
        }
    }
    assert(catalog_model(*catalog) =~= linked);
}

fn upsert_publisher(catalog: &mut CoreCatalog, record: PublisherRecord)
    ensures
        catalog_model(*final(catalog)) == upsert(
            catalog_model(*old(catalog)),
            CanonicalSubject::Publisher(record),
        ).0,
{
    let ghost m = catalog_model(*catalog);
    let ghost old_recs = catalog.publishers@;
    let ghost r = record;
    assert(record_ids(old_recs) =~= m.publishers.map_values(|x: PublisherModel| x.id));
    upsert_record(&mut catalog.publishers, record);
    let ghost up = upsert(m, CanonicalSubject::Publisher(r)).0;
    let ghost ids = record_ids(old_recs);
    proof {
        lemma_first_index_of(ids, r.id);
        match first_index_of(ids, r.id) {
            Some(i) => {
                assert(catalog.publishers@ == old_recs.update(i, r));
                assert(catalog.publishers@.map_values(|x: PublisherRecord| publisher_model(x)) =~= m.publishers.update(i, publisher_model(r)));
            },
            None => {
                assert(catalog.publishers@ == old_recs.push(r));
                assert(catalog.publishers@.map_values(|x: PublisherRecord| publisher_model(x)) =~= m.publishers.push(publisher_model(r)));
            },
        }
    }
    assert(catalog.publishers@.map_values(|x: PublisherRecord| publisher_model(x)) =~= up.publishers);
    assert(catalog_model(*catalog) =~= up);
}

fn link_publisher(catalog: &mut CoreCatalog, canonical: CanonicalId, id: ExternalId)
    ensures
        catalog_model(*final(catalog)) == link(catalog_model(*old(catalog)), SubjectKind::Publisher, canonical, id),
{
    let ghost m = catalog_model(*catalog);
    let ghost linked = link(m, SubjectKind::Publisher, canonical, id);
    assert(record_ids(catalog.publishers@) =~= m.publishers.map_values(|x: PublisherModel| x.id));
    if let Some(i) = first_position(&catalog.publishers, canonical) {
        if !contains_external_id(&catalog.publishers[i].external_ids, &id) {
            let mut record = catalog.publishers.remove(i);
            record.external_ids.push(id);
            catalog.publishers.insert(i, record);
            assert(catalog.publishers@.map_values(|x: PublisherRecord| publisher_model(x)) =~= linked.publishers);
        } else {
            assert(linked.publishers =~= m.publishers);
        }
    }
    assert(catalog_model(*catalog) =~= linked);
}

fn upsert_source(catalog: &mut CoreCatalog, record: SourceRecord)
    ensures
        catalog_model(*final(catalog)) == upsert(
            catalog_model(*old(catalog)),
            CanonicalSubject::Source(record),
        ).0,
{
    let ghost m = catalog_model(*catalog);
    let ghost old_recs = catalog.sources@;
    let ghost r = record;
    assert(record_ids(old_recs) =~= m.sources.map_values(|x: SourceModel| x.id));
    upsert_record(&mut catalog.sources, record);
    let ghost up = upsert(m, CanonicalSubject::Source(r)).0;
    let ghost ids = record_ids(old_recs);
    proof {
        lemma_first_index_of(ids, r.id);
        match first_index_of(ids, r.id) {
            Some(i) => {
                assert(catalog.sources@ == old_recs.update(i, r));
                assert(catalog.sources@.map_values(|x: SourceRecord| source_model(x)) =~= m.sources.update(i, source_model(r)));
            },
            None => {
                assert(catalog.sources@ == old_recs.push(r));
                assert(catalog.sources@.map_values(|x: SourceRecord| source_model(x)) =~= m.sources.push(source_model(r)));
            },
        }
    }
    assert(catalog.sources@.map_values(|x: SourceRecord| source_model(x)) =~= up.sources);
    assert(catalog_model(*catalog) =~= up);
}

fn link_source(catalog: &mut CoreCatalog, canonical: CanonicalId, id: ExternalId)
    ensures
        catalog_model(*final(catalog)) == link(catalog_model(*old(catalog)), SubjectKind::Source, canonical, id),
{
    let ghost m = catalog_model(*catalog);
    let ghost linked = link(m, SubjectKind::Source, canonical, id);
    assert(record_ids(catalog.sources@) =~= m.sources.map_values(|x: SourceModel| x.id));
    if let Some(i) = first_position(&catalog.sources, canonical) {
        if !contains_external_id(&catalog.sources[i].external_ids, &id) {
            let mut record = catalog.sources.remove(i);
            record.external_ids.push(id);
            catalog.sources.insert(i, record);
            assert(catalog.sources@.map_values(|x: SourceRecord| source_model(x)) =~= linked.sources);
        } else {
            assert(linked.sources =~= m.sources);
        }
    }
    assert(catalog_model(*catalog) =~= linked);
}

fn upsert_citation(catalog: &mut CoreCatalog, record: CitationRecord)
    ensures
        catalog_model(*final(catalog)) == upsert(
            catalog_model(*old(catalog)),
            CanonicalSubject::Citation(record),
        ).0,
{
    let ghost m = catalog_model(*catalog);
    let ghost old_recs = catalog.citations@;
    let ghost r = record;
    assert(record_ids(old_recs) =~= m.citations.map_values(|x: CitationModel| x.id));
    upsert_record(&mut catalog.citations, record);
    let ghost up = upsert(m, CanonicalSubject::Citation(r)).0;
    let ghost ids = record_ids(old_recs);
    proof {
        lemma_first_index_of(ids, r.id);
        match first_index_of(ids, r.id) {
            Some(i) => {
                assert(catalog.citations@ == old_recs.update(i, r));
                assert(catalog.citations@.map_values(|x: CitationRecord| citation_model(x)) =~= m.citations.update(i, citation_model(r)));
            },
            None => {
                assert(catalog.citations@ == old_recs.push(r));
                assert(catalog.citations@.map_values(|x: CitationRecord| citation_model(x)) =~= m.citations.push(citation_model(r)));
            },
        }
    }
    assert(catalog.citations@.map_values(|x: CitationRecord| citation_model(x)) =~= up.citations);
    assert(catalog_model(*catalog) =~= up);
}

fn link_citation(catalog: &mut CoreCatalog, canonical: CanonicalId, id: ExternalId)
    ensures
        catalog_model(*final(catalog)) == link(catalog_model(*old(catalog)), SubjectKind::Citation, canonical, id),
{
    let ghost m = catalog_model(*catalog);
    let ghost linked = link(m, SubjectKind::Citation, canonical, id);
    assert(record_ids(catalog.citations@) =~= m.citations.map_values(|x: CitationModel| x.id));
    if let Some(i) = first_position(&catalog.citations, canonical) {
        if !contains_external_id(&catalog.citations[i].external_ids, &id) {
            let mut record = catalog.citations.remove(i);
            record.external_ids.push(id);
            catalog.citations.insert(i, record);
            assert(catalog.citations@.map_values(|x: CitationRecord| citation_model(x)) =~= linked.citations);
        } else {
            assert(linked.citations =~= m.citations);
        }
    }
    assert(catalog_model(*catalog) =~= linked);
}

/// Whether `locs` holds a locator naming the same place as `l`.
fn contains_locator(locs: &Vec<CitationLocator>, l: &CitationLocator) -> (r: bool)
    ensures
        r == has_locator(locs@, *l),
{
    for j in 0..locs.len()
        invariant
            forall|k: int| 0 <= k < j ==> !same_locator(#[trigger] locs@[k], *l),
    {
        let x = &locs[j];
        if x.kind == l.kind && x.value == l.value && x.canonical == l.canonical {
            assert(same_locator(locs@[j as int], *l));
            return true;
        }
    }
    false
}

/// Appends each of `more`, in order, unless it names a place already held.
fn append_new_locators(locs: &mut Vec<CitationLocator>, more: Vec<CitationLocator>)
    ensures
        final(locs)@ == add_locators(old(locs)@, more@),
{
    let ghost start = locs@;
    let ghost orig = more@;
    let n = more.len();
    assert(orig.subrange(0, orig.len() as int) =~= orig);
    let mut queue = into_queue(more);
    let mut i: usize = 0;
    while queue.len() > 0
        invariant
            orig.len() == i + queue@.len(),
            n == orig.len(),
            queue@ == orig.subrange(i as int, orig.len() as int).reverse(),
            add_locators(start, orig) == add_locators(locs@, orig.subrange(i as int, orig.len() as int)),
        decreases queue@.len(),
    {
        let ghost rest = orig.subrange(i as int, orig.len() as int);
        let l = queue.pop().unwrap();
        assert(l == rest[0]);
        assert(rest.drop_first() =~= orig.subrange(i + 1, orig.len() as int));
        if !contains_locator(locs, &l) {
            locs.push(l);
        }
        i = i + 1;
        assert(queue@ =~= orig.subrange(i as int, orig.len() as int).reverse());
    }
    assert(orig.subrange(i as int, orig.len() as int) =~= Seq::<CitationLocator>::empty());
}

/// Adds `more` to the locators of the first citation with id `canonical`.
fn merge_into_citation(catalog: &mut CoreCatalog, canonical: CanonicalId, more: Vec<CitationLocator>)
    ensures
        catalog_model(*final(catalog)) == merge_locators(catalog_model(*old(catalog)), canonical, more@),
{
    let ghost m = catalog_model(*catalog);
    let ghost merged = merge_locators(m, canonical, more@);
    assert(record_ids(catalog.citations@) =~= m.citations.map_values(|x: CitationModel| x.id));
    if let Some(i) = first_position(&catalog.citations, canonical) {
        let mut record = catalog.citations.remove(i);
        append_new_locators(&mut record.locators, more);
        catalog.citations.insert(i, record);
        assert(catalog.citations@.map_values(|x: CitationRecord| citation_model(x)) =~= merged.citations);
    }
    assert(catalog_model(*catalog) =~= merged);
}

/// One entry of the external-id index.
#[derive(Debug, Clone)]
pub struct IndexEntry {
    pub kind: SubjectKind,
    pub key: String,
    pub id: CanonicalId,
}

/// The views of index entries.
pub open spec fn entry_views(s: Seq<IndexEntry>) -> Seq<EntryView> {
    s.map_values(|e: IndexEntry| (e.kind, e.key@, e.id))
}

fn push_record_entries(index: &mut Vec<IndexEntry>, kind: SubjectKind, id: CanonicalId, ext: &Vec<ExternalId>)
    ensures
        entry_views(final(index)@) == entry_views(old(index)@) + record_entries(kind, id, ext@),
{
    let ghost base = entry_views(index@);
    for j in 0..ext.len()
        invariant
            entry_views(index@) == base + record_entries(kind, id, ext@.subrange(0, j as int)),
    {
        let key = external_id_key(&ext[j]);
        let ghost before = index@;
        index.push(IndexEntry { kind, key, id });
        assert(entry_views(index@) =~= base + record_entries(kind, id, ext@.subrange(0, j + 1))) by {
            assert(entry_views(index@) =~= entry_views(before).push((kind, ext_key(ext@[j as int]), id)));
        }
    }
    assert(ext@.subrange(0, ext@.len() as int) =~= ext@);
}

fn push_kind_entries<T: CanonicalRecord>(index: &mut Vec<IndexEntry>, kind: SubjectKind, recs: &Vec<T>)
    ensures
        entry_views(final(index)@) == entry_views(old(index)@) + kind_entries(kind, record_keys(recs@)),
{
    let ghost base = entry_views(index@);
    let ghost keys = record_keys(recs@);
    assert(base + kind_entries(kind, keys.subrange(0, 0)) =~= base);
    for i in 0..recs.len()
        invariant
            keys == record_keys(recs@),
            entry_views(index@) == base + kind_entries(kind, keys.subrange(0, i as int)),
    {
        let rec = &recs[i];
        push_record_entries(index, kind, rec.record_id(), rec.external_id_list());
        assert(keys.subrange(0, i + 1).drop_last() =~= keys.subrange(0, i as int));
        assert(entry_views(index@) =~= base + kind_entries(kind, keys.subrange(0, i + 1)));
    }
    assert(keys.subrange(0, recs@.len() as int) =~= keys);
}

/// The index entries of a catalog, in build order.
fn rebuild_external_index(catalog: &CoreCatalog) -> (index: Vec<IndexEntry>)
    ensures
        entry_views(index@) == index_entries(catalog_model(*catalog)),
{
    let ghost m = catalog_model(*catalog);
    let mut index: Vec<IndexEntry> = Vec::new();
    push_kind_entries(&mut index, SubjectKind::Publisher, &catalog.publishers);
    push_kind_entries(&mut index, SubjectKind::Source, &catalog.sources);
    push_kind_entries(&mut index, SubjectKind::EntityType, &catalog.entity_types);
    push_kind_entries(&mut index, SubjectKind::Entity, &catalog.entities);
    push_kind_entries(&mut index, SubjectKind::Citation, &catalog.citations);
    assert(record_keys(catalog.publishers@) =~= publisher_keys(m));
    assert(record_keys(catalog.sources@) =~= source_keys(m));
    assert(record_keys(catalog.entity_types@) =~= entity_type_keys(m));
    assert(record_keys(catalog.entities@) =~= entity_keys(m));
    assert(record_keys(catalog.citations@) =~= citation_keys(m));
    assert(entry_views(index@) =~= index_entries(m));
    index
}

/// An in-memory reconciliation store over a catalog.
#[derive(Debug)]
pub struct InMemoryReconciliationStore {
    catalog: CoreCatalog,
    external_index: Vec<IndexEntry>,
}

impl View for InMemoryReconciliationStore {
    type V = CatalogModel;

    closed spec fn view(&self) -> CatalogModel {
        catalog_model(self.catalog)
    }
}

impl InMemoryReconciliationStore {
    /// The index always holds exactly the entries of the catalog.
    #[verifier::type_invariant]
    spec fn index_matches_catalog(self) -> bool {
        entry_views(self.external_index@) == index_entries(catalog_model(self.catalog))
    }

    /// The catalog the store holds, as it is.
    pub closed spec fn held_catalog(&self) -> CoreCatalog {
        self.catalog
    }

    /// A store over `catalog`, with its external-id index built; the
    /// catalog is held as given.
    pub fn new(catalog: CoreCatalog) -> (store: Self)
        ensures
            store.held_catalog() == catalog,
            store@ == catalog_model(catalog),
    {
        let external_index = rebuild_external_index(&catalog);
        InMemoryReconciliationStore { catalog, external_index }
    }

    /// The catalog held.
    pub fn catalog(&self) -> (catalog: &CoreCatalog)
        ensures
            *catalog == self.held_catalog(),
            catalog_model(*catalog) == self@,
    {
        &self.catalog
    }

    /// The catalog held, giving up the store.
    pub fn into_catalog(self) -> (catalog: CoreCatalog)
        ensures
            catalog == self.held_catalog(),
            catalog_model(catalog) == self@,
    {
        self.catalog
    }

    /// Takes the catalog out, leaving an empty store behind.
    fn take_catalog(&mut self) -> (catalog: CoreCatalog)
        ensures
            catalog_model(catalog) == old(self)@,
    {
        let mut taken = InMemoryReconciliationStore::new(CoreCatalog::default());
        std::mem::swap(self, &mut taken);
        taken.into_catalog()
    }

    /// The record of `kind` that the key of `id` is indexed under, if any.
    fn find_in_index(&self, kind: SubjectKind, id: &ExternalId) -> (found: Option<CanonicalId>)
        ensures
            found == lookup(self@, kind, *id),
    {
        proof {
            use_type_invariant(self);
        }
        let key = external_id_key(id);
        let ghost entries = entry_views(self.external_index@);
        let mut i = self.external_index.len();
        assert(entries.subrange(0, i as int) =~= entries);
        while i > 0
            invariant
                i <= self.external_index@.len(),
                entries == entry_views(self.external_index@),
                entries == index_entries(catalog_model(self.catalog)),
                key@ == ext_key(*id),
                self@ == catalog_model(self.catalog),
                latest(entries, kind, key@) == latest(entries.subrange(0, i as int), kind, key@),
            decreases i,
        {
            i = i - 1;
            assert(entries.subrange(0, i + 1).drop_last() =~= entries.subrange(0, i as int));
            let entry = &self.external_index[i];
            assert(entries[i as int] == (entry.kind, entry.key@, entry.id));
            if entry.kind == kind && entry.key.eq(&key) {
                return Some(entry.id);
            }
        }
        None
    }
}

impl Clone for InMemoryReconciliationStore {
    /// A store over a copy of the catalog, its index rebuilt.
    fn clone(&self) -> Self {
        InMemoryReconciliationStore::new(self.catalog.clone())
    }
}

impl ReconciliationStore for InMemoryReconciliationStore {
    open spec fn spec_find(model: CatalogModel, kind: SubjectKind, id: ExternalId) -> Option<CanonicalId> {
        lookup(model, kind, id)
    }

    open spec fn spec_search(model: CatalogModel, kind: SubjectKind, query: QueryView) -> Seq<CandidateView> {
        search(model, kind, query)
    }

    open spec fn spec_upsert(model: CatalogModel, subject: CanonicalSubject) -> (CatalogModel, CanonicalId) {
        upsert(model, subject)
    }

    open spec fn spec_link(model: CatalogModel, kind: SubjectKind, canonical: CanonicalId, id: ExternalId) -> CatalogModel {
        link(model, kind, canonical, id)
    }

    open spec fn spec_citation_of(model: CatalogModel, subject: SubjectRef, source: CanonicalId) -> Option<CanonicalId> {
        citation_of(model, subject, source)
    }

    open spec fn spec_add_locators(model: CatalogModel, canonical: CanonicalId, locators: Seq<CitationLocator>) -> CatalogModel {
        merge_locators(model, canonical, locators)
    }

    fn find_citation(&self, subject: &SubjectRef, source: CanonicalId) -> (found: Option<CanonicalId>) {
        let ghost m = self@;
        let ghost cites = m.citations;
        assert(m == catalog_model(self.catalog));
        assert(cites.subrange(0, cites.len() as int) =~= cites);
        for i in 0..self.catalog.citations.len()
            invariant
                m == catalog_model(self.catalog),
                cites == m.citations,
                first_citation_index(cites, *subject, source) == match first_citation_index(
                    cites.subrange(i as int, cites.len() as int),
                    *subject,
                    source,
                ) {
                    Some(k) => Some(k + i),
                    None => None,
                },
        {
            let ghost rest = cites.subrange(i as int, cites.len() as int);
            assert(rest.drop_first() =~= cites.subrange(i + 1, cites.len() as int));
            assert(rest[0] == cites[i as int]);
            let c = &self.catalog.citations[i];
            if c.subject == *subject && c.source == source {
                return Some(c.id);
            }
        }
        assert(cites.subrange(cites.len() as int, cites.len() as int) =~= Seq::<CitationModel>::empty());
        None
    }

    fn add_locators(&mut self, canonical: CanonicalId, locators: Vec<CitationLocator>) {
        let mut catalog = self.take_catalog();
        merge_into_citation(&mut catalog, canonical, locators);
        *self = InMemoryReconciliationStore::new(catalog);
    }

    open spec fn spec_holds(model: CatalogModel, kind: SubjectKind, id: CanonicalId) -> bool {
        kind_ids(model, kind).contains(id)
    }

    fn contains_subject(&self, kind: SubjectKind, id: CanonicalId) -> (held: bool) {
        let ghost m = self@;
        assert(m == catalog_model(self.catalog));
        let p = match kind {
            SubjectKind::Entity => {
                assert(record_ids(self.catalog.entities@) =~= kind_ids(m, kind));
                first_position(&self.catalog.entities, id)
            },
            SubjectKind::EntityType => {
                assert(record_ids(self.catalog.entity_types@) =~= kind_ids(m, kind));
                first_position(&self.catalog.entity_types, id)
            },
            SubjectKind::Publisher => {
                assert(record_ids(self.catalog.publishers@) =~= kind_ids(m, kind));
                first_position(&self.catalog.publishers, id)
            },
            SubjectKind::Source => {
                assert(record_ids(self.catalog.sources@) =~= kind_ids(m, kind));
                first_position(&self.catalog.sources, id)
            },
            SubjectKind::Citation => {
                assert(record_ids(self.catalog.citations@) =~= kind_ids(m, kind));
                first_position(&self.catalog.citations, id)
            },
        };
        proof {
            lemma_first_index_of(kind_ids(m, kind), id);
            if kind_ids(m, kind).contains(id) {
                let j = choose|j: int| 0 <= j < kind_ids(m, kind).len() && kind_ids(m, kind)[j] == id;
                assert(kind_ids(m, kind)[j] == id);
            }
        }
        p.is_some()
    }

    fn find_by_external_id(&self, kind: SubjectKind, id: &ExternalId) -> (found: Option<CanonicalId>) {
        self.find_in_index(kind, id)
    }

    fn search_candidates(&self, kind: SubjectKind, query: MatchQuery) -> (found: Vec<MatchCandidate>) {
        assert(self@ == catalog_model(self.catalog));
        match kind {
            SubjectKind::Entity => search_entity_candidates(&self.catalog, &query),
            SubjectKind::EntityType => search_entity_type_candidates(&self.catalog, &query),
            SubjectKind::Publisher => search_publisher_candidates(&self.catalog, &query),
            SubjectKind::Source => search_source_candidates(&self.catalog, &query),
            SubjectKind::Citation => {
                let none: Vec<MatchCandidate> = Vec::new();
                assert(candidate_views(none@) =~= Seq::<CandidateView>::empty());
                none
            },
        }
    }

    fn upsert_subject(&mut self, subject: CanonicalSubject) -> (id: CanonicalId) {
        let mut catalog = self.take_catalog();
        let id = match subject {
            CanonicalSubject::Entity(r) => {
                let id = r.id;
                upsert_entity(&mut catalog, r);
                id
            },
            CanonicalSubject::EntityType(r) => {
                let id = r.id;
                upsert_entity_type(&mut catalog, r);
                id
            },
            CanonicalSubject::Publisher(r) => {
                let id = r.id;
                upsert_publisher(&mut catalog, r);
                id
            },
            CanonicalSubject::Source(r) => {
                let id = r.id;
                upsert_source(&mut catalog, r);
                id
            },
            CanonicalSubject::Citation(r) => {
                let id = r.id;
                upsert_citation(&mut catalog, r);
                id
            },
        };
        *self = InMemoryReconciliationStore::new(catalog);
        id
    }

    fn link_external_id(&mut self, kind: SubjectKind, canonical: CanonicalId, id: ExternalId) {
        let mut catalog = self.take_catalog();
        match kind {
            SubjectKind::Entity => link_entity(&mut catalog, canonical, id),
            SubjectKind::EntityType => link_entity_type(&mut catalog, canonical, id),
            SubjectKind::Publisher => link_publisher(&mut catalog, canonical, id),
            SubjectKind::Source => link_source(&mut catalog, canonical, id),
            SubjectKind::Citation => link_citation(&mut catalog, canonical, id),
        }
        *self = InMemoryReconciliationStore::new(catalog);
    }
}

} // verus!
