//! What the in-memory store's index gives back after a write: laws over
//! `lookup`, `upsert` and `link`.

use vstd::prelude::*;

use crate::id::{CanonicalId, ExternalId};

use super::matching::ext_key;
use super::model::{
    citation_keys, entity_keys, entity_type_keys, first_index_of, has_external_id, kind_entries, latest, lemma_first_index_of, link, lookup, publisher_keys, record_entries,
    source_keys, upsert, upserted, with_external_id, entity_model, entity_type_model, publisher_model, source_model, citation_model, CatalogModel, CitationModel, EntityModel,
    EntityTypeModel, EntryView, PublisherModel, SourceModel,
};
use super::store::{subject_id, subject_kind, CanonicalSubject, SubjectKind};

verus! {

/// The `(id, external ids)` pairs of the records of one kind.
pub open spec fn kind_keys(m: CatalogModel, kind: SubjectKind) -> Seq<(CanonicalId, Seq<ExternalId>)> {
    match kind {
        SubjectKind::Publisher => publisher_keys(m),
        SubjectKind::Source => source_keys(m),
        SubjectKind::EntityType => entity_type_keys(m),
        SubjectKind::Entity => entity_keys(m),
        SubjectKind::Citation => citation_keys(m),
    }
}

/// The ids of the records of one kind.
pub open spec fn kind_ids(m: CatalogModel, kind: SubjectKind) -> Seq<CanonicalId> {
    kind_keys(m, kind).map_values(|p: (CanonicalId, Seq<ExternalId>)| p.0)
}

/// The external ids a subject carries.
pub open spec fn subject_external_ids(s: CanonicalSubject) -> Seq<ExternalId> {
    match s {
        CanonicalSubject::Entity(r) => r.external_ids@,
        CanonicalSubject::EntityType(r) => r.external_ids@,
        CanonicalSubject::Publisher(r) => r.external_ids@,
        CanonicalSubject::Source(r) => r.external_ids@,
        CanonicalSubject::Citation(r) => r.external_ids@,
    }
}

proof fn lemma_latest_append(a: Seq<EntryView>, b: Seq<EntryView>, k: SubjectKind, key: Seq<char>)
    ensures
        latest(a + b, k, key) == match latest(b, k, key) {
            Some(x) => Some(x),
            None => latest(a, k, key),
        },
    decreases b.len(),
{
    if b.len() == 0 {
        assert(a + b =~= a);
    } else {
        assert((a + b).drop_last() =~= a + b.drop_last());
        assert((a + b).last() == b.last());
        lemma_latest_append(a, b.drop_last(), k, key);
    }
}

proof fn lemma_latest_found(s: Seq<EntryView>, k: SubjectKind, key: Seq<char>, j: int)
    requires
        0 <= j < s.len(),
        s[j].0 == k,
        s[j].1 == key,
    ensures
        latest(s, k, key) is Some,
    decreases s.len(),
{
    if j < s.len() - 1 {
        assert(s.drop_last()[j] == s[j]);
        lemma_latest_found(s.drop_last(), k, key, j);
    }
}

proof fn lemma_latest_same_id(s: Seq<EntryView>, k: SubjectKind, key: Seq<char>, x: CanonicalId)
    requires
        forall|j: int| 0 <= j < s.len() ==> (#[trigger] s[j]).2 == x,
    ensures
        latest(s, k, key) matches Some(y) ==> y == x,
    decreases s.len(),
{
    if s.len() > 0 {
        assert(s.last() == s[s.len() - 1]);
        assert forall|j: int| 0 <= j < s.drop_last().len() implies (#[trigger] s.drop_last()[j]).2
            == x by {
            assert(s.drop_last()[j] == s[j]);
        }
        lemma_latest_same_id(s.drop_last(), k, key, x);
    }
}

proof fn lemma_latest_other_kind(s: Seq<EntryView>, k: SubjectKind, key: Seq<char>)
    requires
        forall|j: int| 0 <= j < s.len() ==> (#[trigger] s[j]).0 != k,
    ensures
        latest(s, k, key) is None,
    decreases s.len(),
{
    if s.len() > 0 {
        assert(s.last() == s[s.len() - 1]);
        assert forall|j: int| 0 <= j < s.drop_last().len() implies (#[trigger] s.drop_last()[j]).0
            != k by {
            assert(s.drop_last()[j] == s[j]);
        }
        lemma_latest_other_kind(s.drop_last(), k, key);
    }
}

proof fn lemma_kind_entries_kind(kind: SubjectKind, recs: Seq<(CanonicalId, Seq<ExternalId>)>)
    ensures
        forall|j: int|
            0 <= j < kind_entries(kind, recs).len() ==> (#[trigger] kind_entries(kind, recs)[j]).0
                == kind,
    decreases recs.len(),
{
    if recs.len() > 0 {
        lemma_kind_entries_kind(kind, recs.drop_last());
        let a = kind_entries(kind, recs.drop_last());
        let b = record_entries(kind, recs.last().0, recs.last().1);
        assert forall|j: int| 0 <= j < (a + b).len() implies (#[trigger] (a + b)[j]).0 == kind by {
            if j < a.len() {
                assert((a + b)[j] == a[j]);
            } else {
                assert((a + b)[j] == b[j - a.len()]);
            }
        }
    }
}

proof fn lemma_kind_entries_concat(
    kind: SubjectKind,
    a: Seq<(CanonicalId, Seq<ExternalId>)>,
    b: Seq<(CanonicalId, Seq<ExternalId>)>,
)
    ensures
        kind_entries(kind, a + b) == kind_entries(kind, a) + kind_entries(kind, b),
    decreases b.len(),
{
    if b.len() == 0 {
        assert(a + b =~= a);
        assert(kind_entries(kind, a) + kind_entries(kind, b) =~= kind_entries(kind, a));
    } else {
        assert((a + b).drop_last() =~= a + b.drop_last());
        assert((a + b).last() == b.last());
        lemma_kind_entries_concat(kind, a, b.drop_last());
        let ra = kind_entries(kind, a);
        let rb = kind_entries(kind, b.drop_last());
        let rl = record_entries(kind, b.last().0, b.last().1);
        assert(ra + rb + rl =~= ra + (rb + rl));
    }
}

proof fn lemma_kind_entries_single(kind: SubjectKind, x: (CanonicalId, Seq<ExternalId>))
    ensures
        kind_entries(kind, seq![x]) == record_entries(kind, x.0, x.1),
{
    assert(seq![x].drop_last() =~= Seq::<(CanonicalId, Seq<ExternalId>)>::empty());
    assert(kind_entries(kind, Seq::<(CanonicalId, Seq<ExternalId>)>::empty()) + record_entries(
        kind,
        x.0,
        x.1,
    ) =~= record_entries(kind, x.0, x.1));
}

/// A lookup reads only the block of index entries of its own kind.
pub proof fn lemma_lookup_block(m: CatalogModel, kind: SubjectKind, e: ExternalId)
    ensures
        lookup(m, kind, e) == latest(kind_entries(kind, kind_keys(m, kind)), kind, ext_key(e)),
{
    let key = ext_key(e);
    let p = kind_entries(SubjectKind::Publisher, publisher_keys(m));
    let s = kind_entries(SubjectKind::Source, source_keys(m));
    let t = kind_entries(SubjectKind::EntityType, entity_type_keys(m));
    let n = kind_entries(SubjectKind::Entity, entity_keys(m));
    let c = kind_entries(SubjectKind::Citation, citation_keys(m));
    lemma_kind_entries_kind(SubjectKind::Publisher, publisher_keys(m));
    lemma_kind_entries_kind(SubjectKind::Source, source_keys(m));
    lemma_kind_entries_kind(SubjectKind::EntityType, entity_type_keys(m));
    lemma_kind_entries_kind(SubjectKind::Entity, entity_keys(m));
    lemma_kind_entries_kind(SubjectKind::Citation, citation_keys(m));
    if kind != SubjectKind::Publisher {
        lemma_latest_other_kind(p, kind, key);
    }
    if kind != SubjectKind::Source {
        lemma_latest_other_kind(s, kind, key);
    }
    if kind != SubjectKind::EntityType {
        lemma_latest_other_kind(t, kind, key);
    }
    if kind != SubjectKind::Entity {
        lemma_latest_other_kind(n, kind, key);
    }
    if kind != SubjectKind::Citation {
        lemma_latest_other_kind(c, kind, key);
    }
    lemma_latest_append(p + s + t + n, c, kind, key);
    lemma_latest_append(p + s + t, n, kind, key);
    lemma_latest_append(p + s, t, kind, key);
    lemma_latest_append(p, s, kind, key);
    lemma_latest_other_kind(Seq::<EntryView>::empty(), kind, key);
}

/// Equal external ids (field by field) have equal index keys.
pub proof fn lemma_same_as_same_key(a: ExternalId, b: ExternalId)
    requires
        a.same_as(&b),
    ensures
        ext_key(a) == ext_key(b),
{
}

/// How storing a subject changes the records of its kind, as `(id,
/// external ids)` pairs; the other kinds are unchanged.
pub proof fn lemma_upsert_keys(m: CatalogModel, s: CanonicalSubject)
    ensures
        upsert(m, s).1 == subject_id(s),
        kind_keys(upsert(m, s).0, subject_kind(s)) == match first_index_of(
            kind_ids(m, subject_kind(s)),
            subject_id(s),
        ) {
            Some(i) => kind_keys(m, subject_kind(s)).update(
                i,
                (subject_id(s), subject_external_ids(s)),
            ),
            None => kind_keys(m, subject_kind(s)).push((subject_id(s), subject_external_ids(s))),
        },
        forall|k2: SubjectKind| k2 != subject_kind(s) ==> #[trigger] kind_keys(upsert(m, s).0, k2) == kind_keys(m, k2),
{
    let k = subject_kind(s);
    let m2 = upsert(m, s).0;
    match s {
        CanonicalSubject::Entity(r) => {
            assert(kind_ids(m, k) =~= m.entities.map_values(|x: EntityModel| x.id));
        },
        CanonicalSubject::EntityType(r) => {
            assert(kind_ids(m, k) =~= m.entity_types.map_values(|x: EntityTypeModel| x.id));
        },
        CanonicalSubject::Publisher(r) => {
            assert(kind_ids(m, k) =~= m.publishers.map_values(|x: PublisherModel| x.id));
        },
        CanonicalSubject::Source(r) => {
            assert(kind_ids(m, k) =~= m.sources.map_values(|x: SourceModel| x.id));
        },
        CanonicalSubject::Citation(r) => {
            assert(kind_ids(m, k) =~= m.citations.map_values(|x: CitationModel| x.id));
        },
    }
    lemma_first_index_of(kind_ids(m, k), subject_id(s));
    match first_index_of(kind_ids(m, k), subject_id(s)) {
        Some(i) => {
            assert(kind_keys(m2, k) =~= kind_keys(m, k).update(i, (subject_id(s), subject_external_ids(s))));
        },
        None => {
            assert(kind_keys(m2, k) =~= kind_keys(m, k).push((subject_id(s), subject_external_ids(s))));
        },
    }
}

/// Storing a subject under an id that no record of its kind has yet makes
/// each of the subject's external ids resolve to it.
pub proof fn law_upsert_new_then_lookup(m: CatalogModel, s: CanonicalSubject, e: ExternalId)
    requires
        first_index_of(kind_ids(m, subject_kind(s)), subject_id(s)) is None,
        subject_external_ids(s).contains(e),
    ensures
        upsert(m, s).1 == subject_id(s),
        lookup(upsert(m, s).0, subject_kind(s), e) == Some(subject_id(s)),
{
    let k = subject_kind(s);
    let id = subject_id(s);
    let ext = subject_external_ids(s);
    let key = ext_key(e);
    lemma_upsert_keys(m, s);
    let m2 = upsert(m, s).0;
    lemma_lookup_block(m2, k, e);
    lemma_kind_entries_concat(k, kind_keys(m, k), seq![(id, ext)]);
    lemma_kind_entries_single(k, (id, ext));
    assert(kind_keys(m, k).push((id, ext)) =~= kind_keys(m, k) + seq![(id, ext)]);
    let re = record_entries(k, id, ext);
    let j = choose|j: int| 0 <= j < ext.len() && ext[j] == e;
    assert(re[j] == (k, key, id));
    lemma_latest_found(re, k, key, j);
    lemma_latest_same_id(re, k, key, id);
    lemma_latest_append(kind_entries(k, kind_keys(m, k)), re, k, key);
}

/// Storing a subject under a new id leaves every lookup as it was, except
/// that some may now resolve to the new record.
pub proof fn lemma_upsert_new_lookup(m: CatalogModel, s: CanonicalSubject, k: SubjectKind, e: ExternalId)
    requires
        first_index_of(kind_ids(m, subject_kind(s)), subject_id(s)) is None,
    ensures
        lookup(upsert(m, s).0, k, e) == lookup(m, k, e) || lookup(upsert(m, s).0, k, e) == Some(
            subject_id(s),
        ),
{
    let sk = subject_kind(s);
    let id = subject_id(s);
    let ext = subject_external_ids(s);
    let key = ext_key(e);
    lemma_upsert_keys(m, s);
    let m2 = upsert(m, s).0;
    lemma_lookup_block(m2, k, e);
    lemma_lookup_block(m, k, e);
    if k == sk {
        lemma_kind_entries_concat(k, kind_keys(m, k), seq![(id, ext)]);
        lemma_kind_entries_single(k, (id, ext));
        assert(kind_keys(m, k).push((id, ext)) =~= kind_keys(m, k) + seq![(id, ext)]);
        let re = record_entries(k, id, ext);
        lemma_latest_same_id(re, k, key, id);
        lemma_latest_append(kind_entries(k, kind_keys(m, k)), re, k, key);
    }
}

proof fn lemma_upserted_again<T>(recs: Seq<T>, ids: Seq<CanonicalId>, rec: T, id: CanonicalId, ids2: Seq<CanonicalId>)
    requires
        ids.len() == recs.len(),
        ids2 == match first_index_of(ids, id) {
            Some(i) => ids.update(i, id),
            None => ids.push(id),
        },
    ensures
        upserted(upserted(recs, ids, rec, id), ids2, rec, id) == upserted(recs, ids, rec, id),
{
    lemma_first_index_of(ids, id);
    lemma_first_index_of(ids2, id);
    let r1 = upserted(recs, ids, rec, id);
    match first_index_of(ids, id) {
        Some(i) => {
            assert(ids2 =~= ids);
            assert(r1.update(i, rec) =~= r1);
        },
        None => {
            assert(ids2[ids.len() as int] == id);
            if first_index_of(ids2, id) != Some(ids.len() as int) {
                let k = first_index_of(ids2, id)->0;
                assert(ids2[k] == ids[k]);
            }
            assert(r1.update(ids.len() as int, rec) =~= r1);
        },
    }
}

/// Storing a subject twice is storing it once: the same store and the same id.
pub proof fn law_upsert_twice(m: CatalogModel, s: CanonicalSubject)
    ensures
        upsert(upsert(m, s).0, s) == upsert(m, s),
{
    let m1 = upsert(m, s).0;
    match s {
        CanonicalSubject::Entity(r) => {
            let ids = m.entities.map_values(|x: EntityModel| x.id);
            lemma_first_index_of(ids, r.id);
            let ids2 = m1.entities.map_values(|x: EntityModel| x.id);
            match first_index_of(ids, r.id) {
                Some(i) => assert(ids2 =~= ids.update(i, r.id)),
                None => assert(ids2 =~= ids.push(r.id)),
            }
            lemma_upserted_again(m.entities, ids, entity_model(r), r.id, ids2);
            assert(upsert(m1, s).0 =~= m1);
        },
        CanonicalSubject::EntityType(r) => {
            let ids = m.entity_types.map_values(|x: EntityTypeModel| x.id);
            lemma_first_index_of(ids, r.id);
            let ids2 = m1.entity_types.map_values(|x: EntityTypeModel| x.id);
            match first_index_of(ids, r.id) {
                Some(i) => assert(ids2 =~= ids.update(i, r.id)),
                None => assert(ids2 =~= ids.push(r.id)),
            }
            lemma_upserted_again(m.entity_types, ids, entity_type_model(r), r.id, ids2);
            assert(upsert(m1, s).0 =~= m1);
        },
        CanonicalSubject::Publisher(r) => {
            let ids = m.publishers.map_values(|x: PublisherModel| x.id);
            lemma_first_index_of(ids, r.id);
            let ids2 = m1.publishers.map_values(|x: PublisherModel| x.id);
            match first_index_of(ids, r.id) {
                Some(i) => assert(ids2 =~= ids.update(i, r.id)),
                None => assert(ids2 =~= ids.push(r.id)),
            }
            lemma_upserted_again(m.publishers, ids, publisher_model(r), r.id, ids2);
            assert(upsert(m1, s).0 =~= m1);
        },
        CanonicalSubject::Source(r) => {
            let ids = m.sources.map_values(|x: SourceModel| x.id);
            lemma_first_index_of(ids, r.id);
            let ids2 = m1.sources.map_values(|x: SourceModel| x.id);
            match first_index_of(ids, r.id) {
                Some(i) => assert(ids2 =~= ids.update(i, r.id)),
                None => assert(ids2 =~= ids.push(r.id)),
            }
            lemma_upserted_again(m.sources, ids, source_model(r), r.id, ids2);
            assert(upsert(m1, s).0 =~= m1);
        },
        CanonicalSubject::Citation(r) => {
            let ids = m.citations.map_values(|x: CitationModel| x.id);
            lemma_first_index_of(ids, r.id);
            let ids2 = m1.citations.map_values(|x: CitationModel| x.id);
            match first_index_of(ids, r.id) {
                Some(i) => assert(ids2 =~= ids.update(i, r.id)),
                None => assert(ids2 =~= ids.push(r.id)),
            }
            lemma_upserted_again(m.citations, ids, citation_model(r), r.id, ids2);
            assert(upsert(m1, s).0 =~= m1);
        },
    }
}

/// How linking changes the records of the linked kind; the other kinds
/// are unchanged.
pub proof fn lemma_link_keys(m: CatalogModel, kind: SubjectKind, c: CanonicalId, e: ExternalId)
    ensures
        kind_keys(link(m, kind, c, e), kind) == match first_index_of(kind_ids(m, kind), c) {
            Some(i) => kind_keys(m, kind).update(
                i,
                (kind_keys(m, kind)[i].0, with_external_id(kind_keys(m, kind)[i].1, e)),
            ),
            None => kind_keys(m, kind),
        },
        forall|k2: SubjectKind| k2 != kind ==> #[trigger] kind_keys(link(m, kind, c, e), k2) == kind_keys(m, k2),
{
    let m2 = link(m, kind, c, e);
    match kind {
        SubjectKind::Entity => {
            assert(kind_ids(m, kind) =~= m.entities.map_values(|x: EntityModel| x.id));
        },
        SubjectKind::EntityType => {
            assert(kind_ids(m, kind) =~= m.entity_types.map_values(|x: EntityTypeModel| x.id));
        },
        SubjectKind::Publisher => {
            assert(kind_ids(m, kind) =~= m.publishers.map_values(|x: PublisherModel| x.id));
        },
        SubjectKind::Source => {
            assert(kind_ids(m, kind) =~= m.sources.map_values(|x: SourceModel| x.id));
        },
        SubjectKind::Citation => {
            assert(kind_ids(m, kind) =~= m.citations.map_values(|x: CitationModel| x.id));
        },
    }
    lemma_first_index_of(kind_ids(m, kind), c);
    match first_index_of(kind_ids(m, kind), c) {
        Some(i) => {
            assert(kind_keys(m2, kind) =~= kind_keys(m, kind).update(
                i,
                (kind_keys(m, kind)[i].0, with_external_id(kind_keys(m, kind)[i].1, e)),
            ));
        },
        None => {
            assert(kind_keys(m2, kind) =~= kind_keys(m, kind));
        },
    }
}

/// Linking `e` to an existing record `c` of a kind makes `e` resolve to
/// `c`, when `e` resolved to nothing or already to `c`. Lookups of other
/// keys, and of other kinds, are unchanged.
pub proof fn law_link_then_lookup(
    m: CatalogModel,
    kind: SubjectKind,
    c: CanonicalId,
    e: ExternalId,
    other: ExternalId,
    other_kind: SubjectKind,
)
    requires
        first_index_of(kind_ids(m, kind), c) is Some,
        lookup(m, kind, e) is None || lookup(m, kind, e) == Some(c),
    ensures
        lookup(link(m, kind, c, e), kind, e) == Some(c),
        ext_key(other) != ext_key(e) ==> lookup(link(m, kind, c, e), kind, other) == lookup(
            m,
            kind,
            other,
        ),
        other_kind != kind ==> lookup(link(m, kind, c, e), other_kind, other) == lookup(
            m,
            other_kind,
            other,
        ),
{
    let m2 = link(m, kind, c, e);
    let keys = kind_keys(m, kind);
    let key = ext_key(e);
    let okey = ext_key(other);
    lemma_link_keys(m, kind, c, e);
    lemma_first_index_of(kind_ids(m, kind), c);
    lemma_lookup_block(m, kind, e);
    lemma_lookup_block(m2, kind, e);
    lemma_lookup_block(m, kind, other);
    lemma_lookup_block(m2, kind, other);
    lemma_lookup_block(m, other_kind, other);
    lemma_lookup_block(m2, other_kind, other);
    let i = first_index_of(kind_ids(m, kind), c).unwrap();
    assert(kind_ids(m, kind)[i] == keys[i].0);
    let x = keys[i];
    let x2 = (x.0, with_external_id(x.1, e));
    let a = keys.subrange(0, i);
    let b = keys.subrange(i + 1, keys.len() as int);
    assert(keys =~= a + seq![x] + b);
    assert(kind_keys(m2, kind) =~= a + seq![x2] + b);
    lemma_kind_entries_concat(kind, a + seq![x], b);
    lemma_kind_entries_concat(kind, a, seq![x]);
    lemma_kind_entries_concat(kind, a + seq![x2], b);
    lemma_kind_entries_concat(kind, a, seq![x2]);
    lemma_kind_entries_single(kind, x);
    lemma_kind_entries_single(kind, x2);
    let ka = kind_entries(kind, a);
    let kb = kind_entries(kind, b);
    let rx = record_entries(kind, x.0, x.1);
    let rx2 = record_entries(kind, x2.0, x2.1);
    lemma_latest_append(ka + rx, kb, kind, key);
    lemma_latest_append(ka + rx2, kb, kind, key);
    lemma_latest_append(ka + rx, kb, kind, okey);
    lemma_latest_append(ka + rx2, kb, kind, okey);
    if has_external_id(x.1, e) {
        assert(x2 == x);
        let q = choose|q: int| 0 <= q < x.1.len() && (#[trigger] x.1[q]).same_as(&e);
        lemma_same_as_same_key(x.1[q], e);
        assert((ka + rx)[ka.len() + q] == rx[q]);
        lemma_latest_found(ka + rx, kind, key, ka.len() + q);
    } else {
        let new_entry = (kind, key, c);
        assert(rx2 =~= rx + seq![new_entry]);
        assert(ka + rx2 =~= (ka + rx) + seq![new_entry]);
        lemma_latest_append(ka + rx, seq![new_entry], kind, key);
        lemma_latest_append(ka + rx, seq![new_entry], kind, okey);
        assert(seq![new_entry].drop_last() =~= Seq::<EntryView>::empty());
        assert(seq![new_entry].last() == new_entry);
        assert(latest(seq![new_entry], kind, key) == Some(c));
        if okey != key {
            assert(latest(Seq::<EntryView>::empty(), kind, okey) is None);
            assert(latest(seq![new_entry], kind, okey) is None);
            assert(latest(ka + rx2, kind, okey) == latest(ka + rx, kind, okey));
        }
    }
}

/// Linking the same external id to the same record twice is linking it once.
pub proof fn law_link_idempotent(m: CatalogModel, kind: SubjectKind, c: CanonicalId, e: ExternalId)
    ensures
        link(link(m, kind, c, e), kind, c, e) == link(m, kind, c, e),
{
    let m1 = link(m, kind, c, e);
    lemma_link_keys(m, kind, c, e);
    assert(kind_ids(m1, kind) =~= kind_ids(m, kind)) by {
        lemma_first_index_of(kind_ids(m, kind), c);
    }
    match first_index_of(kind_ids(m, kind), c) {
        Some(i) => {
            lemma_first_index_of(kind_ids(m, kind), c);
            let ids = with_external_id(kind_keys(m, kind)[i].1, e);
            if !has_external_id(kind_keys(m, kind)[i].1, e) {
                assert(ids[ids.len() - 1].same_as(&e));
            }
            assert(has_external_id(ids, e));
            match kind {
                SubjectKind::Entity => {
                    assert(kind_ids(m1, kind) =~= m1.entities.map_values(|x: EntityModel| x.id));
                    assert(link(m1, kind, c, e) =~= m1);
                },
                SubjectKind::EntityType => {
                    assert(kind_ids(m1, kind) =~= m1.entity_types.map_values(|x: EntityTypeModel| x.id));
                    assert(link(m1, kind, c, e) =~= m1);
                },
                SubjectKind::Publisher => {
                    assert(kind_ids(m1, kind) =~= m1.publishers.map_values(|x: PublisherModel| x.id));
                    assert(link(m1, kind, c, e) =~= m1);
                },
                SubjectKind::Source => {
                    assert(kind_ids(m1, kind) =~= m1.sources.map_values(|x: SourceModel| x.id));
                    assert(link(m1, kind, c, e) =~= m1);
                },
                SubjectKind::Citation => {
                    assert(kind_ids(m1, kind) =~= m1.citations.map_values(|x: CitationModel| x.id));
                    assert(link(m1, kind, c, e) =~= m1);
                },
            }
        },
        None => {
            match kind {
                SubjectKind::Entity => {
                    assert(kind_ids(m, kind) =~= m.entities.map_values(|x: EntityModel| x.id));
                },
                SubjectKind::EntityType => {
                    assert(kind_ids(m, kind) =~= m.entity_types.map_values(|x: EntityTypeModel| x.id));
                },
                SubjectKind::Publisher => {
                    assert(kind_ids(m, kind) =~= m.publishers.map_values(|x: PublisherModel| x.id));
                },
                SubjectKind::Source => {
                    assert(kind_ids(m, kind) =~= m.sources.map_values(|x: SourceModel| x.id));
                },
                SubjectKind::Citation => {
                    assert(kind_ids(m, kind) =~= m.citations.map_values(|x: CitationModel| x.id));
                },
            }
            assert(m1 == m);
        },
    }
}

/// Linking changes no record id, of any kind.
pub proof fn lemma_link_keeps_kind_ids(m: CatalogModel, kind: SubjectKind, c: CanonicalId, e: ExternalId)
    ensures
        forall|k: SubjectKind| #[trigger] kind_ids(link(m, kind, c, e), k) == kind_ids(m, k),
{
    lemma_link_keys(m, kind, c, e);
    lemma_first_index_of(kind_ids(m, kind), c);
    assert(kind_ids(link(m, kind, c, e), kind) =~= kind_ids(m, kind));
}

/// One of a record's external ids has index key `key`.
pub open spec fn record_has_key(rec: (CanonicalId, Seq<ExternalId>), key: Seq<char>) -> bool {
    exists|q: int| 0 <= q < rec.1.len() && ext_key(#[trigger] rec.1[q]) == key
}

proof fn lemma_latest_some_exists(s: Seq<EntryView>, k: SubjectKind, key: Seq<char>)
    ensures
        latest(s, k, key) matches Some(x) ==> exists|j: int|
            0 <= j < s.len() && (#[trigger] s[j]).0 == k && s[j].1 == key && s[j].2 == x,
    decreases s.len(),
{
    if s.len() > 0 {
        lemma_latest_some_exists(s.drop_last(), k, key);
        if let Some(x) = latest(s, k, key) {
            if s.last().0 == k && s.last().1 == key {
                assert(s[s.len() - 1] == s.last());
            } else {
                let j = choose|j: int|
                    0 <= j < s.drop_last().len() && (#[trigger] s.drop_last()[j]).0 == k
                        && s.drop_last()[j].1 == key && s.drop_last()[j].2 == x;
                assert(s[j] == s.drop_last()[j]);
            }
        }
    }
}

proof fn lemma_latest_record(kind: SubjectKind, rec: (CanonicalId, Seq<ExternalId>), key: Seq<char>)
    ensures
        latest(record_entries(kind, rec.0, rec.1), kind, key) == if record_has_key(rec, key) {
            Some(rec.0)
        } else {
            None
        },
{
    let re = record_entries(kind, rec.0, rec.1);
    lemma_latest_same_id(re, kind, key, rec.0);
    lemma_latest_some_exists(re, kind, key);
    if record_has_key(rec, key) {
        let q = choose|q: int| 0 <= q < rec.1.len() && ext_key(#[trigger] rec.1[q]) == key;
        assert(re[q] == (kind, key, rec.0));
        lemma_latest_found(re, kind, key, q);
    } else if latest(re, kind, key) is Some {
        let j = choose|j: int| 0 <= j < re.len() && (#[trigger] re[j]).0 == kind && re[j].1 == key;
        assert(ext_key(rec.1[j]) == key);
    }
}

proof fn lemma_latest_kind_entries(kind: SubjectKind, recs: Seq<(CanonicalId, Seq<ExternalId>)>, key: Seq<char>)
    ensures
        (latest(kind_entries(kind, recs), kind, key) is None) == !(exists|r: int|
            0 <= r < recs.len() && record_has_key(#[trigger] recs[r], key)),
        latest(kind_entries(kind, recs), kind, key) matches Some(x) ==> exists|r: int|
            0 <= r < recs.len() && (#[trigger] recs[r]).0 == x && record_has_key(recs[r], key)
                && forall|r2: int| r < r2 < recs.len() ==> !record_has_key(#[trigger] recs[r2], key),
    decreases recs.len(),
{
    if recs.len() > 0 {
        let init = recs.drop_last();
        let last = recs.last();
        lemma_latest_kind_entries(kind, init, key);
        lemma_latest_record(kind, last, key);
        lemma_latest_append(kind_entries(kind, init), record_entries(kind, last.0, last.1), kind, key);
        assert(recs[recs.len() - 1] == last);
        if record_has_key(last, key) {
            assert(recs[recs.len() - 1].0 == last.0);
        } else {
            assert forall|r: int| 0 <= r < init.len() implies recs[r] == init[r] by {}
            if let Some(x) = latest(kind_entries(kind, recs), kind, key) {
                let r = choose|r: int|
                    0 <= r < init.len() && (#[trigger] init[r]).0 == x && record_has_key(init[r], key)
                        && forall|r2: int| r < r2 < init.len() ==> !record_has_key(#[trigger] init[r2], key);
                assert(recs[r] == init[r]);
                assert forall|r2: int| r < r2 < recs.len() implies !record_has_key(#[trigger] recs[r2], key) by {
                    if r2 < init.len() {
                        assert(recs[r2] == init[r2]);
                    }
                }
            } else {
                assert forall|r: int| 0 <= r < recs.len() implies !record_has_key(#[trigger] recs[r], key) by {
                    if r < init.len() {
                        assert(recs[r] == init[r]);
                    }
                }
            }
        }
    }
}

/// What a lookup means: an external id resolves, for a kind, exactly when
/// some record of that kind has an external id with the same index key,
/// and then to the id of the last such record.
pub proof fn law_lookup_is_last_record_with_key(m: CatalogModel, kind: SubjectKind, e: ExternalId)
    ensures
        (lookup(m, kind, e) is None) == !(exists|r: int|
            0 <= r < kind_keys(m, kind).len() && record_has_key(#[trigger] kind_keys(m, kind)[r], ext_key(e))),
        lookup(m, kind, e) matches Some(x) ==> exists|r: int|
            0 <= r < kind_keys(m, kind).len() && (#[trigger] kind_keys(m, kind)[r]).0 == x
                && record_has_key(kind_keys(m, kind)[r], ext_key(e)) && forall|r2: int|
                r < r2 < kind_keys(m, kind).len() ==> !record_has_key(#[trigger] kind_keys(m, kind)[r2], ext_key(e)),
{
    lemma_lookup_block(m, kind, e);
    lemma_latest_kind_entries(kind, kind_keys(m, kind), ext_key(e));
}

/// Replacing a record drops the index entries of its old external ids: when
/// the first record of the subject's kind with the subject's id is the only
/// record there with `e`'s key among its external ids, and the subject has
/// no external id with that key, `e` resolves to nothing afterwards.
pub proof fn law_upsert_drops_replaced_ids(m: CatalogModel, s: CanonicalSubject, e: ExternalId, p: int)
    requires
        first_index_of(kind_ids(m, subject_kind(s)), subject_id(s)) == Some(p),
        forall|r: int|
            0 <= r < kind_keys(m, subject_kind(s)).len() && r != p ==> !record_has_key(
                #[trigger] kind_keys(m, subject_kind(s))[r],
                ext_key(e),
            ),
        !record_has_key((subject_id(s), subject_external_ids(s)), ext_key(e)),
    ensures
        lookup(upsert(m, s).0, subject_kind(s), e) is None,
{
    let k = subject_kind(s);
    let m2 = upsert(m, s).0;
    lemma_first_index_of(kind_ids(m, k), subject_id(s));
    lemma_upsert_keys(m, s);
    law_lookup_is_last_record_with_key(m2, k, e);
    assert forall|r: int| 0 <= r < kind_keys(m2, k).len() implies !record_has_key(
        #[trigger] kind_keys(m2, k)[r],
        ext_key(e),
    ) by {
        if r != p {
            assert(kind_keys(m2, k)[r] == kind_keys(m, k)[r]);
        }
    }
}

/// Linking `e` to an existing record `c` of a kind makes `e` resolve to `c`
/// whenever no record of the kind after the first with id `c` has `e`'s key
/// among its external ids; earlier records may have it.
pub proof fn law_link_then_lookup_when_later_free(m: CatalogModel, kind: SubjectKind, c: CanonicalId, e: ExternalId, p: int)
    requires
        first_index_of(kind_ids(m, kind), c) == Some(p),
        forall|r: int|
            p < r < kind_keys(m, kind).len() ==> !record_has_key(#[trigger] kind_keys(m, kind)[r], ext_key(e)),
    ensures
        lookup(link(m, kind, c, e), kind, e) == Some(c),
{
    let key = ext_key(e);
    let keys = kind_keys(m, kind);
    lemma_first_index_of(kind_ids(m, kind), c);
    lemma_link_keys(m, kind, c, e);
    let m2 = link(m, kind, c, e);
    let keys2 = kind_keys(m2, kind);
    assert(kind_ids(m, kind)[p] == keys[p].0);
    let ext2 = keys2[p].1;
    if has_external_id(keys[p].1, e) {
        let q = choose|q: int| 0 <= q < keys[p].1.len() && (#[trigger] keys[p].1[q]).same_as(&e);
        lemma_same_as_same_key(keys[p].1[q], e);
        assert(ext2[q] == keys[p].1[q]);
        assert(record_has_key(keys2[p], key));
    } else {
        let q = keys[p].1.len() as int;
        assert(ext2[q] == e);
        assert(record_has_key(keys2[p], key));
    }
    law_lookup_is_last_record_with_key(m2, kind, e);
    let x = lookup(m2, kind, e)->0;
    let r = choose|r: int|
        0 <= r < keys2.len() && (#[trigger] keys2[r]).0 == x && record_has_key(keys2[r], key) && forall|r2: int|
            r < r2 < keys2.len() ==> !record_has_key(#[trigger] keys2[r2], key);
    if r > p {
        assert(keys2[r] == keys[r]);
    } else if r < p {
        assert(!record_has_key(keys2[p], key));
    }
}

} // verus!
