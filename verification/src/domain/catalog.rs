use vstd::prelude::*;

use crate::id::{CanonicalId, ExternalId};
use crate::projection::{LossNote, ProjectionMap};

use super::{CharacterGraph, CitationRecord, Entity, EntityType, PublisherRecord, SourceRecord};

verus! {

/// An explicit link between a canonical record and an external id.
#[derive(Debug, Clone)]
pub struct IdentityLink {
    pub kind: String,
    pub canonical_id: CanonicalId,
    pub external_id: ExternalId,
}

/// Directional conversion knowledge between entity types.
#[derive(Debug, Clone)]
pub struct MappingRecord {
    pub id: String,
    pub description: Option<String>,
    pub source_entity_type: Option<CanonicalId>,
    pub target_entity_type: Option<CanonicalId>,
    pub payload: serde_json::Value,
}

/// The whole canonical store of records.
#[derive(Debug, Clone)]
pub struct CoreCatalog {
    pub publishers: Vec<PublisherRecord>,
    pub sources: Vec<SourceRecord>,
    pub citations: Vec<CitationRecord>,
    pub entity_types: Vec<EntityType>,
    pub entities: Vec<Entity>,
    pub character_graphs: Vec<CharacterGraph>,
    pub identity_links: Vec<IdentityLink>,
    pub mapping_records: Vec<MappingRecord>,
    pub projection_maps: Vec<ProjectionMap>,
    pub loss_notes: Vec<LossNote>,
}

impl Default for CoreCatalog {
    /// The empty catalog.
    fn default() -> (catalog: Self)
        ensures
            catalog.publishers@ == Seq::<PublisherRecord>::empty(),
            catalog.sources@ == Seq::<SourceRecord>::empty(),
            catalog.citations@ == Seq::<CitationRecord>::empty(),
            catalog.entity_types@ == Seq::<EntityType>::empty(),
            catalog.entities@ == Seq::<Entity>::empty(),
            catalog.character_graphs@ == Seq::<CharacterGraph>::empty(),
            catalog.identity_links@ == Seq::<IdentityLink>::empty(),
            catalog.mapping_records@ == Seq::<MappingRecord>::empty(),
            catalog.projection_maps@ == Seq::<ProjectionMap>::empty(),
            catalog.loss_notes@ == Seq::<LossNote>::empty(),
    {
        CoreCatalog {
            publishers: Vec::new(),
            sources: Vec::new(),
            citations: Vec::new(),
            entity_types: Vec::new(),
            entities: Vec::new(),
            character_graphs: Vec::new(),
            identity_links: Vec::new(),
            mapping_records: Vec::new(),
            projection_maps: Vec::new(),
            loss_notes: Vec::new(),
        }
    }
}

} // verus!
