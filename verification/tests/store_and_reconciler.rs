use artisan_core::domain::{
    CitationLocator, CitationRecord, SubjectRef, VerificationState, CompletenessState, CoreCatalog, Entity, EntityType, PublisherRecord, SourceRecord,
};
use artisan_core::id::{CanonicalId, ExternalId, FormatId};
use artisan_core::reconcile::matcher::MatchQuery;
use artisan_core::reconcile::store::{CanonicalSubject, ReconciliationStore, SubjectKind};
use artisan_core::reconcile::{
    ImportCandidate, InMemoryReconciliationStore, Reconciler, ReconciliationPolicy,
    ResolutionOutcome, SourceHint,
};

fn ext(format: FormatId, namespace: Option<&str>, value: &str) -> ExternalId {
    ExternalId { format, namespace: namespace.map(|s| s.to_string()), value: value.to_string() }
}

fn publisher(name: &str, ids: Vec<ExternalId>) -> PublisherRecord {
    PublisherRecord { id: CanonicalId::new(), name: name.to_string(), external_ids: ids }
}

fn source(title: &str, systems: &[&str], ids: Vec<ExternalId>) -> SourceRecord {
    SourceRecord {
        id: CanonicalId::new(),
        title: title.to_string(),
        publisher: None,
        publisher_ids: Vec::new(),
        edition: None,
        license: None,
        game_systems: systems.iter().map(|s| s.to_string()).collect(),
        external_ids: ids,
    }
}

fn entity_type(key: &str, name: &str) -> EntityType {
    EntityType {
        id: CanonicalId::new(),
        key: key.to_string(),
        name: name.to_string(),
        game_system: None,
        parent: None,
        fields: Vec::new(),
        relationships: Vec::new(),
        descriptive_fields: indexmap::IndexMap::new(),
        mechanical_fields: indexmap::IndexMap::new(),
        external_ids: Vec::new(),
        provenance: None,
    }
}

fn entity(name: &str, ty: CanonicalId) -> Entity {
    Entity {
        id: CanonicalId::new(),
        entity_type: ty,
        name: name.to_string(),
        attributes: indexmap::IndexMap::new(),
        effects: Vec::new(),
        prerequisites: Vec::new(),
        rule_hooks: Vec::new(),
        citations: Vec::new(),
        external_ids: Vec::new(),
        completeness: CompletenessState::Stub,
        provenance: None,
    }
}

fn query(name: Option<&str>) -> MatchQuery {
    MatchQuery {
        display_name: name.map(|s| s.to_string()),
        kind_hint: None,
        source_hint: None,
        game_system_hint: None,
    }
}

fn candidate<T>(payload: T, ids: Vec<ExternalId>, name: Option<&str>) -> ImportCandidate<T> {
    ImportCandidate {
        payload,
        external_ids: ids,
        display_name: name.map(|s| s.to_string()),
        source_hints: Vec::new(),
        provenance: None,
    }
}

#[test]
fn new_store_indexes_external_ids_case_insensitively() {
    let p = publisher("Paizo", vec![ext(FormatId::Pcgen, Some("LST"), "Paizo")]);
    let pid = p.id;
    let store = InMemoryReconciliationStore::new(CoreCatalog { publishers: vec![p], ..CoreCatalog::default() });
    assert_eq!(
        store.find_by_external_id(SubjectKind::Publisher, &ext(FormatId::Pcgen, Some("lst"), "PAIZO")),
        Some(pid)
    );
    assert_eq!(store.find_by_external_id(SubjectKind::Source, &ext(FormatId::Pcgen, Some("lst"), "paizo")), None);
    assert_eq!(store.find_by_external_id(SubjectKind::Publisher, &ext(FormatId::Herolab, Some("lst"), "paizo")), None);
    assert_eq!(store.catalog().publishers.len(), 1);
}

#[test]
fn later_record_wins_the_index() {
    let a = publisher("A", vec![ext(FormatId::Hlo, None, "dup")]);
    let b = publisher("B", vec![ext(FormatId::Hlo, None, "dup")]);
    let bid = b.id;
    let store = InMemoryReconciliationStore::new(CoreCatalog { publishers: vec![a, b], ..CoreCatalog::default() });
    assert_eq!(store.find_by_external_id(SubjectKind::Publisher, &ext(FormatId::Hlo, None, "dup")), Some(bid));
}

#[test]
fn upsert_new_then_find() {
    let mut store = InMemoryReconciliationStore::new(CoreCatalog::default());
    let s = source("Core Rulebook", &["pf2e"], vec![ext(FormatId::Foundry, None, "crb")]);
    let sid = s.id;
    let id = store.upsert_subject(CanonicalSubject::Source(s));
    assert_eq!(id, sid);
    assert_eq!(store.find_by_external_id(SubjectKind::Source, &ext(FormatId::Foundry, None, "CRB")), Some(sid));
    assert_eq!(store.catalog().sources.len(), 1);
}

#[test]
fn upsert_existing_replaces_in_place() {
    let s1 = source("Old Title", &[], vec![ext(FormatId::Foundry, None, "old")]);
    let s2 = source("Other", &[], Vec::new());
    let sid = s1.id;
    let mut store = InMemoryReconciliationStore::new(CoreCatalog { sources: vec![s1, s2], ..CoreCatalog::default() });
    let mut replacement = source("New Title", &[], vec![ext(FormatId::Foundry, None, "new")]);
    replacement.id = sid;
    store.upsert_subject(CanonicalSubject::Source(replacement));
    let catalog = store.into_catalog();
    assert_eq!(catalog.sources.len(), 2);
    assert_eq!(catalog.sources[0].title, "New Title");
    assert_eq!(catalog.sources[1].title, "Other");
}

#[test]
fn upsert_existing_drops_old_index_entries() {
    let s1 = source("Old Title", &[], vec![ext(FormatId::Foundry, None, "old")]);
    let sid = s1.id;
    let mut store = InMemoryReconciliationStore::new(CoreCatalog { sources: vec![s1], ..CoreCatalog::default() });
    let mut replacement = source("New Title", &[], vec![ext(FormatId::Foundry, None, "new")]);
    replacement.id = sid;
    store.upsert_subject(CanonicalSubject::Source(replacement));
    assert_eq!(store.find_by_external_id(SubjectKind::Source, &ext(FormatId::Foundry, None, "old")), None);
    assert_eq!(store.find_by_external_id(SubjectKind::Source, &ext(FormatId::Foundry, None, "new")), Some(sid));
}

#[test]
fn link_then_find_and_idempotent() {
    let p = publisher("Paizo", Vec::new());
    let pid = p.id;
    let mut store = InMemoryReconciliationStore::new(CoreCatalog { publishers: vec![p], ..CoreCatalog::default() });
    let e = ext(FormatId::Herolab, Some("pub"), "paizo");
    store.link_external_id(SubjectKind::Publisher, pid, e.clone());
    store.link_external_id(SubjectKind::Publisher, pid, e.clone());
    assert_eq!(store.find_by_external_id(SubjectKind::Publisher, &e), Some(pid));
    assert_eq!(store.catalog().publishers[0].external_ids.len(), 1);
    // a case variant is a different external id, though it has the same key
    store.link_external_id(SubjectKind::Publisher, pid, ext(FormatId::Herolab, Some("PUB"), "paizo"));
    assert_eq!(store.catalog().publishers[0].external_ids.len(), 2);
}

#[test]
fn link_to_missing_record_changes_nothing() {
    let mut store = InMemoryReconciliationStore::new(CoreCatalog::default());
    let e = ext(FormatId::Pcgen, None, "x");
    store.link_external_id(SubjectKind::Entity, CanonicalId::new(), e.clone());
    assert_eq!(store.find_by_external_id(SubjectKind::Entity, &e), None);
    assert_eq!(store.catalog().entities.len(), 0);
}

#[test]
fn search_scores_and_filters_publishers() {
    let store = InMemoryReconciliationStore::new(CoreCatalog {
        publishers: vec![publisher("Paizo", Vec::new()), publisher("Wizards of the Coast", Vec::new())],
        ..CoreCatalog::default()
    });
    let found = store.search_candidates(SubjectKind::Publisher, query(Some("paizo")));
    assert_eq!(found.len(), 1);
    assert_eq!(found[0].confidence, 75);
    assert_eq!(found[0].reason, "name similarity");
    // a contained name alone scores 40: below the threshold of 60
    let weak = store.search_candidates(SubjectKind::Publisher, query(Some("Wizards")));
    assert_eq!(weak.len(), 0);
    // without a display name every publisher scores 40: none qualifies
    assert_eq!(store.search_candidates(SubjectKind::Publisher, query(None)).len(), 0);
    assert_eq!(store.search_candidates(SubjectKind::Citation, query(Some("paizo"))).len(), 0);
}

#[test]
fn search_sources_with_hints() {
    let store = InMemoryReconciliationStore::new(CoreCatalog {
        sources: vec![
            source("Player's Handbook", &["5e"], Vec::new()),
            source("Player's Handbook", &["3.5e"], Vec::new()),
            source("Monster Manual", &[], Vec::new()),
        ],
        ..CoreCatalog::default()
    });
    let mut q = query(Some("Player's Handbook"));
    q.source_hint = Some("Handbook".to_string());
    q.game_system_hint = Some("5E".to_string());
    let found = store.search_candidates(SubjectKind::Source, q);
    assert_eq!(found.len(), 1);
    assert_eq!(found[0].confidence, 100);
    assert_eq!(found[0].reason, "title similarity, source hint match, game system match");
    let mut q2 = query(None);
    q2.game_system_hint = Some("pf2e".to_string());
    // no display name: 40 points; only the source with no systems passes, still below 60
    assert_eq!(store.search_candidates(SubjectKind::Source, q2).len(), 0);
}

#[test]
fn search_entity_types_by_key_and_order() {
    let store = InMemoryReconciliationStore::new(CoreCatalog {
        entity_types: vec![
            entity_type("pcgen:type:feat", "Feat"),
            entity_type("pcgen:type:spell", "Feat"),
            entity_type("pcgen:type:feat", "Feats"),
        ],
        ..CoreCatalog::default()
    });
    let mut q = query(Some("feat"));
    q.kind_hint = Some("PCGEN:TYPE:FEAT".to_string());
    let found = store.search_candidates(SubjectKind::EntityType, q);
    assert_eq!(found.len(), 2);
    assert_eq!(found[0].confidence, 100);
    assert_eq!(found[0].reason, "name similarity, type key match");
    assert_eq!(found[1].confidence, 65);
    for c in &found {
        assert!(c.confidence >= 60 && c.confidence <= 100);
    }
}

#[test]
fn reconcile_exact_external_id_match() {
    let p = publisher("Paizo", vec![ext(FormatId::Pcgen, None, "paizo")]);
    let pid = p.id;
    let mut r = Reconciler {
        store: InMemoryReconciliationStore::new(CoreCatalog { publishers: vec![p], ..CoreCatalog::default() }),
        policy: ReconciliationPolicy::Strict,
    };
    let c = candidate(publisher("Totally Different", Vec::new()), vec![ext(FormatId::Herolab, None, "none"), ext(FormatId::Pcgen, None, "PAIZO")], Some("Totally Different"));
    let out = r.reconcile_publishers(vec![c]);
    match &out[0] {
        ResolutionOutcome::Matched { id, confidence } => {
            assert_eq!(*id, pid);
            assert_eq!(*confidence, 100);
        },
        other => panic!("unexpected {other:?}"),
    }
    assert_eq!(r.store.catalog().publishers.len(), 1);
}

#[test]
fn reconcile_ambiguous_writes_nothing() {
    let mut r = Reconciler {
        store: InMemoryReconciliationStore::new(CoreCatalog {
            publishers: vec![publisher("Paizo", Vec::new()), publisher("paizo", Vec::new())],
            ..CoreCatalog::default()
        }),
        policy: ReconciliationPolicy::Guided,
    };
    let c = candidate(publisher("Paizo", Vec::new()), vec![ext(FormatId::Pcgen, None, "p")], Some("Paizo"));
    let out = r.reconcile_publishers(vec![c]);
    match &out[0] {
        ResolutionOutcome::Ambiguous { candidates } => assert_eq!(candidates.len(), 2),
        other => panic!("unexpected {other:?}"),
    }
    assert_eq!(r.store.catalog().publishers.len(), 2);
    assert_eq!(r.store.find_by_external_id(SubjectKind::Publisher, &ext(FormatId::Pcgen, None, "p")), None);
}

#[test]
fn reconcile_creates_then_matches_exactly() {
    let mut r = Reconciler {
        store: InMemoryReconciliationStore::new(CoreCatalog::default()),
        policy: ReconciliationPolicy::Permissive,
    };
    let e = ext(FormatId::Foundry, Some("items"), "sword-1");
    let payload = source("Blades", &[], vec![e.clone()]);
    let sid = payload.id;
    let out = r.reconcile_sources(vec![candidate(payload, vec![e.clone()], Some("Blades"))]);
    match &out[0] {
        ResolutionOutcome::Created { id } => assert_eq!(*id, sid),
        other => panic!("unexpected {other:?}"),
    }
    let again = r.reconcile_sources(vec![candidate(source("Blades", &[], Vec::new()), vec![e], Some("Blades"))]);
    match &again[0] {
        ResolutionOutcome::Matched { id, confidence } => {
            assert_eq!(*id, sid);
            assert_eq!(*confidence, 100);
        },
        other => panic!("unexpected {other:?}"),
    }
}

#[test]
fn reconcile_search_match_links_external_ids() {
    let ty = entity_type("pcgen:type:feat", "Feat");
    let tid = ty.id;
    let mut r = Reconciler {
        store: InMemoryReconciliationStore::new(CoreCatalog { entity_types: vec![ty], ..CoreCatalog::default() }),
        policy: ReconciliationPolicy::Guided,
    };
    let e1 = ext(FormatId::Herolab, None, "feat");
    let e2 = ext(FormatId::Hlo, None, "FEAT");
    let out = r.reconcile_entity_types(vec![candidate(entity_type("pcgen:type:feat", "Feat"), vec![e1.clone(), e2.clone()], Some("Feat"))]);
    match &out[0] {
        ResolutionOutcome::Matched { id, confidence } => {
            assert_eq!(*id, tid);
            assert_eq!(*confidence, 100);
        },
        other => panic!("unexpected {other:?}"),
    }
    assert_eq!(r.store.find_by_external_id(SubjectKind::EntityType, &e1), Some(tid));
    assert_eq!(r.store.find_by_external_id(SubjectKind::EntityType, &e2), Some(tid));
    assert_eq!(r.store.catalog().entity_types[0].external_ids.len(), 2);
}

fn near_miss_reconciler(policy: ReconciliationPolicy) -> (Reconciler<InMemoryReconciliationStore>, CanonicalId) {
    let existing = publisher("Power-Attack Press", Vec::new());
    let existing_id = existing.id;
    let r = Reconciler {
        store: InMemoryReconciliationStore::new(CoreCatalog { publishers: vec![existing], ..CoreCatalog::default() }),
        policy,
    };
    (r, existing_id)
}

#[test]
fn reconcile_below_threshold_guided_is_ambiguous() {
    let (mut r, existing_id) = near_miss_reconciler(ReconciliationPolicy::Guided);
    let out = r.reconcile_publishers(vec![candidate(publisher("power attack press", Vec::new()), Vec::new(), Some("power attack press"))]);
    // normalized names are equal: 65, one candidate below 95, so it needs review
    match &out[0] {
        ResolutionOutcome::Ambiguous { candidates } => {
            assert_eq!(candidates.len(), 1);
            assert_eq!(candidates[0].id, existing_id);
            assert_eq!(candidates[0].confidence, 65);
        },
        other => panic!("unexpected {other:?}"),
    }
    assert_eq!(r.store.catalog().publishers.len(), 1);
}

#[test]
fn reconcile_below_threshold_strict_is_refused() {
    let (mut r, existing_id) = near_miss_reconciler(ReconciliationPolicy::Strict);
    let out = r.reconcile_publishers(vec![candidate(publisher("power attack press", Vec::new()), Vec::new(), Some("power attack press"))]);
    match &out[0] {
        ResolutionOutcome::Conflict { existing, details } => {
            assert_eq!(*existing, existing_id);
            assert_eq!(details.reason, "match needs review; rejected by strict policy");
            assert!(details.fields.is_empty());
        },
        other => panic!("unexpected {other:?}"),
    }
    assert_eq!(r.store.catalog().publishers.len(), 1);
}

#[test]
fn reconcile_below_threshold_permissive_creates() {
    let (mut r, _) = near_miss_reconciler(ReconciliationPolicy::Permissive);
    let payload = publisher("power attack press", Vec::new());
    let new_id = payload.id;
    let out = r.reconcile_publishers(vec![candidate(payload, Vec::new(), Some("power attack press"))]);
    match &out[0] {
        ResolutionOutcome::Created { id } => assert_eq!(*id, new_id),
        other => panic!("unexpected {other:?}"),
    }
    assert_eq!(r.store.catalog().publishers.len(), 2);
}

#[test]
fn reconcile_permissive_creates_over_ambiguity() {
    let mut r = Reconciler {
        store: InMemoryReconciliationStore::new(CoreCatalog {
            publishers: vec![publisher("Paizo", Vec::new()), publisher("paizo", Vec::new())],
            ..CoreCatalog::default()
        }),
        policy: ReconciliationPolicy::Permissive,
    };
    let payload = publisher("Paizo", Vec::new());
    let new_id = payload.id;
    let out = r.reconcile_publishers(vec![candidate(payload, Vec::new(), Some("Paizo"))]);
    match &out[0] {
        ResolutionOutcome::Created { id } => assert_eq!(*id, new_id),
        other => panic!("unexpected {other:?}"),
    }
    assert_eq!(r.store.catalog().publishers.len(), 3);
}

#[test]
fn reconcile_never_overwrites_an_existing_id() {
    let existing = publisher("Green Ronin", Vec::new());
    let existing_id = existing.id;
    let mut r = Reconciler {
        store: InMemoryReconciliationStore::new(CoreCatalog { publishers: vec![existing], ..CoreCatalog::default() }),
        policy: ReconciliationPolicy::Permissive,
    };
    let intruder = PublisherRecord { id: existing_id, name: "Zzz Unrelated".to_string(), external_ids: Vec::new() };
    let out = r.reconcile_publishers(vec![candidate(intruder, vec![ext(FormatId::Pcgen, None, "zzz")], Some("Zzz Unrelated"))]);
    match &out[0] {
        ResolutionOutcome::Conflict { existing, details } => {
            assert_eq!(*existing, existing_id);
            assert_eq!(details.reason, "canonical id already holds a record");
            assert_eq!(details.fields, vec!["id".to_string()]);
        },
        other => panic!("unexpected {other:?}"),
    }
    assert_eq!(r.store.catalog().publishers.len(), 1);
    assert_eq!(r.store.catalog().publishers[0].name, "Green Ronin");
    assert_eq!(r.store.find_by_external_id(SubjectKind::Publisher, &ext(FormatId::Pcgen, None, "zzz")), None);
}

#[test]
fn reconcile_created_record_gets_import_ids() {
    let mut r = Reconciler {
        store: InMemoryReconciliationStore::new(CoreCatalog::default()),
        policy: ReconciliationPolicy::Guided,
    };
    let e = ext(FormatId::Herolab, Some("pub"), "kobold");
    let payload = publisher("Kobold Press", Vec::new());
    let pid = payload.id;
    let out = r.reconcile_publishers(vec![candidate(payload, vec![e.clone()], Some("Kobold Press"))]);
    match &out[0] {
        ResolutionOutcome::Created { id } => assert_eq!(*id, pid),
        other => panic!("unexpected {other:?}"),
    }
    assert_eq!(r.store.find_by_external_id(SubjectKind::Publisher, &e), Some(pid));
    assert_eq!(r.store.catalog().publishers[0].external_ids, vec![e.clone()]);
    let again = r.reconcile_publishers(vec![candidate(publisher("Kobold Press", Vec::new()), vec![e], Some("Kobold Press"))]);
    match &again[0] {
        ResolutionOutcome::Matched { id, confidence } => {
            assert_eq!(*id, pid);
            assert_eq!(*confidence, 100);
        },
        other => panic!("unexpected {other:?}"),
    }
    assert_eq!(r.store.catalog().publishers.len(), 1);
}

#[test]
fn reconcile_batch_sees_earlier_results() {
    let mut r = Reconciler {
        store: InMemoryReconciliationStore::new(CoreCatalog::default()),
        policy: ReconciliationPolicy::Guided,
    };
    let e = ext(FormatId::Pcgen, None, "cite-1");
    let first = publisher("Kobold Press", vec![e.clone()]);
    let first_id = first.id;
    let second = publisher("Kobold Press", Vec::new());
    let out = r.reconcile_publishers(vec![
        candidate(first, vec![e.clone()], Some("Kobold Press")),
        candidate(second, vec![e], Some("Kobold Press")),
    ]);
    assert_eq!(out.len(), 2);
    assert!(matches!(out[0], ResolutionOutcome::Created { .. }));
    match &out[1] {
        ResolutionOutcome::Matched { id, confidence } => {
            assert_eq!(*id, first_id);
            assert_eq!(*confidence, 100);
        },
        other => panic!("unexpected {other:?}"),
    }
}

#[test]
fn reconcile_citations_never_search() {
    let mut r = Reconciler {
        store: InMemoryReconciliationStore::new(CoreCatalog::default()),
        policy: ReconciliationPolicy::Guided,
    };
    let cite = CitationRecord {
        id: CanonicalId::new(),
        subject: SubjectRef::Entity(CanonicalId::new()),
        source: CanonicalId::new(),
        locators: Vec::new(),
        verification: VerificationState::Verified,
        external_ids: vec![ext(FormatId::Pcgen, None, "c")],
    };
    let cid = cite.id;
    let out = r.reconcile_citations(vec![candidate(cite, Vec::new(), Some("anything"))]);
    match &out[0] {
        ResolutionOutcome::Created { id } => assert_eq!(*id, cid),
        other => panic!("unexpected {other:?}"),
    }
    assert_eq!(r.store.find_by_external_id(SubjectKind::Citation, &ext(FormatId::Pcgen, None, "C")), Some(cid));
}

#[test]
fn reconcile_entities_without_known_type_or_sources() {
    let e = entity("Cleave", CanonicalId::new());
    let eid = e.id;
    let mut r = Reconciler {
        store: InMemoryReconciliationStore::new(CoreCatalog { entities: vec![e], ..CoreCatalog::default() }),
        policy: ReconciliationPolicy::Guided,
    };
    let mut payload = entity("Cleave", CanonicalId::new());
    payload.attributes.insert(
        "pcgen_entity_type_key".to_string(),
        serde_json::Value::String("pcgen:type:feat".to_string()),
    );
    let mut c = candidate(payload, Vec::new(), Some("cleave"));
    c.source_hints = vec![SourceHint { title: Some("Anything".to_string()), publisher: None, game_system: Some("5e".to_string()) }];
    let out = r.reconcile_entities(vec![c]);
    // unknown type, no known sources or systems: only the name scores (75), so it needs review
    match &out[0] {
        ResolutionOutcome::Ambiguous { candidates } => {
            assert_eq!(candidates.len(), 1);
            assert_eq!(candidates[0].id, eid);
            assert_eq!(candidates[0].confidence, 75);
        },
        other => panic!("unexpected {other:?}"),
    }
}

#[test]
fn entity_game_mode_attribute_counts_as_a_system() {
    let mut e = entity("Cleave", CanonicalId::new());
    e.attributes.insert("pcgen_game_mode".to_string(), serde_json::Value::String("35e".to_string()));
    e.attributes.insert("pcgen_source_long".to_string(), serde_json::Value::Bool(true));
    let eid = e.id;
    let store = InMemoryReconciliationStore::new(CoreCatalog { entities: vec![e], ..CoreCatalog::default() });
    let mut q = query(Some("Cleave"));
    q.game_system_hint = Some("35E".to_string());
    q.source_hint = Some("Core".to_string());
    let found = store.search_candidates(SubjectKind::Entity, q);
    assert_eq!(found.len(), 1);
    assert_eq!(found[0].id, eid);
    assert_eq!(found[0].confidence, 95);
    assert_eq!(found[0].reason, "name similarity, game system match (35E)");
}

fn locator(kind: &str, value: &str, canonical: bool) -> CitationLocator {
    CitationLocator { kind: kind.to_string(), value: value.to_string(), canonical }
}

#[test]
fn reconcile_citation_merges_locators_by_subject_and_source() {
    let subject = CanonicalId::new();
    let source_id = CanonicalId::new();
    let existing = CitationRecord {
        id: CanonicalId::new(),
        subject: SubjectRef::Entity(subject),
        source: source_id,
        locators: vec![locator("page", "12", true)],
        verification: VerificationState::Verified,
        external_ids: Vec::new(),
    };
    let existing_id = existing.id;
    let mut r = Reconciler {
        store: InMemoryReconciliationStore::new(CoreCatalog { citations: vec![existing], ..CoreCatalog::default() }),
        policy: ReconciliationPolicy::Strict,
    };
    let import = CitationRecord {
        id: CanonicalId::new(),
        subject: SubjectRef::Entity(subject),
        source: source_id,
        locators: vec![locator("page", "12", true), locator("section", "Feats", false)],
        verification: VerificationState::Unverified,
        external_ids: Vec::new(),
    };
    let e = ext(FormatId::Pcgen, None, "cite-7");
    let out = r.reconcile_citations(vec![candidate(import, vec![e.clone()], None)]);
    match &out[0] {
        ResolutionOutcome::Matched { id, confidence } => {
            assert_eq!(*id, existing_id);
            assert_eq!(*confidence, 100);
        },
        other => panic!("unexpected {other:?}"),
    }
    let cites = &r.store.catalog().citations;
    assert_eq!(cites.len(), 1);
    assert_eq!(cites[0].locators.len(), 2);
    assert_eq!(cites[0].locators[0].value, "12");
    assert_eq!(cites[0].locators[1].kind, "section");
    assert_eq!(cites[0].locators[1].value, "Feats");
    assert!(!cites[0].locators[1].canonical);
    assert_eq!(r.store.find_by_external_id(SubjectKind::Citation, &e), Some(existing_id));
}

#[test]
fn reconcile_citation_of_other_source_is_created() {
    let subject = CanonicalId::new();
    let existing = CitationRecord {
        id: CanonicalId::new(),
        subject: SubjectRef::Entity(subject),
        source: CanonicalId::new(),
        locators: vec![locator("page", "12", true)],
        verification: VerificationState::Verified,
        external_ids: Vec::new(),
    };
    let mut r = Reconciler {
        store: InMemoryReconciliationStore::new(CoreCatalog { citations: vec![existing], ..CoreCatalog::default() }),
        policy: ReconciliationPolicy::Guided,
    };
    let import = CitationRecord {
        id: CanonicalId::new(),
        subject: SubjectRef::Entity(subject),
        source: CanonicalId::new(),
        locators: vec![locator("page", "3", true)],
        verification: VerificationState::Unverified,
        external_ids: Vec::new(),
    };
    let import_id = import.id;
    let out = r.reconcile_citations(vec![candidate(import, Vec::new(), None)]);
    match &out[0] {
        ResolutionOutcome::Created { id } => assert_eq!(*id, import_id),
        other => panic!("unexpected {other:?}"),
    }
    assert_eq!(r.store.catalog().citations.len(), 2);
}

#[test]
fn upsert_twice_is_upsert_once() {
    let p = publisher("Kobold Press", vec![ext(FormatId::Pcgen, None, "kp")]);
    let pid = p.id;
    let mut store = InMemoryReconciliationStore::new(CoreCatalog::default());
    let first = store.upsert_subject(CanonicalSubject::Publisher(p.clone()));
    let second = store.upsert_subject(CanonicalSubject::Publisher(p));
    assert_eq!(first, pid);
    assert_eq!(second, pid);
    assert_eq!(store.catalog().publishers.len(), 1);
    assert_eq!(store.catalog().publishers[0].name, "Kobold Press");
    assert_eq!(store.find_by_external_id(SubjectKind::Publisher, &ext(FormatId::Pcgen, None, "KP")), Some(pid));
}

#[test]
fn new_then_into_catalog_gives_the_catalog_back() {
    let p = publisher("Paizo", vec![ext(FormatId::Pcgen, None, "paizo")]);
    let s = source("Core Rulebook", &["pf2e"], Vec::new());
    let (pid, sid) = (p.id, s.id);
    let store = InMemoryReconciliationStore::new(CoreCatalog { publishers: vec![p], sources: vec![s], ..CoreCatalog::default() });
    let back = store.into_catalog();
    assert_eq!(back.publishers.len(), 1);
    assert_eq!(back.publishers[0].id, pid);
    assert_eq!(back.publishers[0].external_ids, vec![ext(FormatId::Pcgen, None, "paizo")]);
    assert_eq!(back.sources.len(), 1);
    assert_eq!(back.sources[0].id, sid);
    assert_eq!(back.sources[0].game_systems, vec!["pf2e".to_string()]);
}

#[test]
fn default_policy_is_guided() {
    assert!(matches!(ReconciliationPolicy::default(), ReconciliationPolicy::Guided));
}
