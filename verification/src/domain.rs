//! The canonical domain model: publishers, sources, citations, entity types,
//! entities, rules IR and character graphs.

pub mod catalog;
pub mod citation;
pub mod entity;
pub mod entity_type;
pub mod graph;
pub mod publisher;
pub mod rules;
pub mod script;
pub mod source;

pub use catalog::{CoreCatalog, IdentityLink, MappingRecord};
pub use citation::{CitationLocator, CitationRecord, SubjectRef, VerificationState};
pub use entity::{CompletenessState, Entity};
pub use entity_type::{
    EntityType, FieldCardinality, FieldDef, FieldType, RelationshipCardinality, RelationshipDef,
};
pub use graph::{CharacterGraph, GraphEdge, GraphMetadata, GraphNode};
pub use publisher::PublisherRecord;
pub use rules::{Effect, Prerequisite, RuleHook, Trigger};
pub use script::{ScriptProgram, ScriptStatement};
pub use source::SourceRecord;
