use indexmap::IndexMap;
use vstd::prelude::*;

use crate::id::CanonicalId;
use crate::provenance::OpaqueExtension;

verus! {

/// A node of a persisted character graph.
#[derive(Debug, Clone)]
pub struct GraphNode {
    pub id: CanonicalId,
    pub label: String,
    pub data: IndexMap<String, serde_json::Value>,
}

/// A directed, labelled edge between two graph nodes.
#[derive(Debug, Clone)]
pub struct GraphEdge {
    pub from: CanonicalId,
    pub to: CanonicalId,
    pub relation: String,
}

/// Descriptive data of a graph.
#[derive(Debug, Clone)]
pub struct GraphMetadata {
    pub name: Option<String>,
    pub notes: Vec<String>,
}

/// Generic graph shape for persisted character state.
#[derive(Debug, Clone)]
pub struct CharacterGraph {
    pub nodes: IndexMap<CanonicalId, GraphNode>,
    pub edges: Vec<GraphEdge>,
    pub metadata: GraphMetadata,
    pub opaque_extensions: Vec<OpaqueExtension>,
}

} // verus!
