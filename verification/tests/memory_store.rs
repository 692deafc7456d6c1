use artisan_core::domain::{
    CitationLocator, CitationRecord, CompletenessState, CoreCatalog, Entity, EntityType, RuleHook,
    SourceRecord, SubjectRef, VerificationState,
};
use artisan_core::id::{CanonicalId, ExternalId, FormatId};
use artisan_core::reconcile::{
    ImportCandidate, InMemoryReconciliationStore, Reconciler, ReconciliationPolicy,
    ResolutionOutcome, SourceHint,
};

#[test]
fn reconcile_entities_prefers_game_system_match() {
    let entity_type = make_entity_type("pcgen:type:general", "General");
    let source_5e = make_source("Player's Handbook", &["5e"]);
    let source_pf2e = make_source("Core Rulebook", &["pf2e"]);

    let mut entity_5e = make_entity("Alertness", entity_type.id);
    let mut entity_pf2e = make_entity("Alertness", entity_type.id);

    let citation_5e = make_entity_citation(entity_5e.id, source_5e.id);
    let citation_pf2e = make_entity_citation(entity_pf2e.id, source_pf2e.id);
    entity_5e.citations.push(citation_5e.id);
    entity_pf2e.citations.push(citation_pf2e.id);

    let catalog = CoreCatalog {
        sources: vec![source_5e, source_pf2e],
        citations: vec![citation_5e, citation_pf2e],
        entity_types: vec![entity_type],
        entities: vec![entity_5e.clone(), entity_pf2e],
        ..CoreCatalog::default()
    };

    let mut reconciler = Reconciler {
        store: InMemoryReconciliationStore::new(catalog),
        policy: ReconciliationPolicy::Guided,
    };

    let candidate = ImportCandidate {
        payload: make_candidate_payload("Alertness"),
        external_ids: vec![ExternalId {
            format: FormatId::Pcgen,
            namespace: Some("lst".to_string()),
            value: "Alertness@77".to_string(),
        }],
        display_name: Some("Alertness".to_string()),
        source_hints: vec![SourceHint {
            title: None,
            publisher: None,
            game_system: Some("5e".to_string()),
        }],
        provenance: None,
    };

    let outcomes = reconciler.reconcile_entities(vec![candidate]);
    assert_eq!(outcomes.len(), 1);

    match &outcomes[0] {
        ResolutionOutcome::Matched { id, .. } => assert_eq!(*id, entity_5e.id),
        other => panic!("expected matched outcome, got {other:?}"),
    }
}

#[test]
fn reconcile_entities_prefers_source_hint_match() {
    let entity_type = make_entity_type("pcgen:type:general", "General");
    let source_phb = make_source("Player's Handbook", &["5e"]);
    let source_xge = make_source("Xanathar's Guide to Everything", &["5e"]);

    let mut entity_phb = make_entity("Dodge", entity_type.id);
    let mut entity_xge = make_entity("Dodge", entity_type.id);

    let citation_phb = make_entity_citation(entity_phb.id, source_phb.id);
    let citation_xge = make_entity_citation(entity_xge.id, source_xge.id);
    entity_phb.citations.push(citation_phb.id);
    entity_xge.citations.push(citation_xge.id);

    let catalog = CoreCatalog {
        sources: vec![source_phb, source_xge],
        citations: vec![citation_phb, citation_xge],
        entity_types: vec![entity_type],
        entities: vec![entity_phb.clone(), entity_xge],
        ..CoreCatalog::default()
    };

    let mut reconciler = Reconciler {
        store: InMemoryReconciliationStore::new(catalog),
        policy: ReconciliationPolicy::Guided,
    };

    let candidate = ImportCandidate {
        payload: make_candidate_payload("Dodge"),
        external_ids: vec![ExternalId {
            format: FormatId::Pcgen,
            namespace: Some("lst".to_string()),
            value: "Dodge@5".to_string(),
        }],
        display_name: Some("Dodge".to_string()),
        source_hints: vec![SourceHint {
            title: Some("Player's Handbook".to_string()),
            publisher: None,
            game_system: None,
        }],
        provenance: None,
    };

    let outcomes = reconciler.reconcile_entities(vec![candidate]);
    assert_eq!(outcomes.len(), 1);

    match &outcomes[0] {
        ResolutionOutcome::Matched { id, .. } => assert_eq!(*id, entity_phb.id),
        other => panic!("expected matched outcome, got {other:?}"),
    }
}

fn make_entity_type(key: &str, name: &str) -> EntityType {
    EntityType {
        id: CanonicalId::new(),
        key: key.to_string(),
        name: name.to_string(),
        game_system: None,
        parent: None,
        fields: Vec::new(),
        relationships: Vec::new(),
        descriptive_fields: indexmap::IndexMap::new(),
        mechanical_fields: indexmap::IndexMap::new(),
        external_ids: Vec::new(),
        provenance: None,
    }
}

fn make_source(title: &str, game_systems: &[&str]) -> SourceRecord {
    SourceRecord {
        id: CanonicalId::new(),
        title: title.to_string(),
        publisher: None,
        publisher_ids: Vec::new(),
        edition: None,
        license: None,
        game_systems: game_systems.iter().map(|s| s.to_string()).collect(),
        external_ids: Vec::new(),
    }
}

fn make_entity(name: &str, entity_type: CanonicalId) -> Entity {
    Entity {
        id: CanonicalId::new(),
        entity_type,
        name: name.to_string(),
        attributes: indexmap::IndexMap::new(),
        effects: Vec::new(),
        prerequisites: Vec::new(),
        rule_hooks: Vec::<RuleHook>::new(),
        citations: Vec::new(),
        external_ids: Vec::new(),
        completeness: CompletenessState::Inferred,
        provenance: None,
    }
}

fn make_candidate_payload(name: &str) -> Entity {
    let mut payload = make_entity(name, CanonicalId::new());
    payload.attributes.insert(
        "pcgen_entity_type_key".to_string(),
        serde_json::Value::String("pcgen:type:general".to_string()),
    );
    payload
}

fn make_entity_citation(entity_id: CanonicalId, source_id: CanonicalId) -> CitationRecord {
    CitationRecord {
        id: CanonicalId::new(),
        subject: SubjectRef::Entity(entity_id),
        source: source_id,
        locators: vec![CitationLocator {
            kind: "page".to_string(),
            value: "1".to_string(),
            canonical: false,
        }],
        verification: VerificationState::Unverified,
        external_ids: Vec::new(),
    }
}
