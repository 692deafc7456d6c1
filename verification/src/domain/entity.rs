use indexmap::IndexMap;
use vstd::prelude::*;

use crate::id::{CanonicalId, ExternalId};
use crate::provenance::Provenance;

use super::rules::{Effect, Prerequisite, RuleHook};

verus! {

/// How much of a record an import could fill in.
#[derive(Debug, Clone)]
pub enum CompletenessState {
    Complete,
    Descriptive,
    Inferred,
    Stub,
}

/// A canonical content record (a feat, a class, a spell, ...).
#[derive(Debug, Clone)]
pub struct Entity {
    pub id: CanonicalId,
    pub entity_type: CanonicalId,
    pub name: String,
    pub attributes: IndexMap<String, serde_json::Value>,
    pub effects: Vec<Effect>,
    pub prerequisites: Vec<Prerequisite>,
    pub rule_hooks: Vec<RuleHook>,
    pub citations: Vec<CanonicalId>,
    pub external_ids: Vec<ExternalId>,
    pub completeness: CompletenessState,
    pub provenance: Option<Provenance>,
}

} // verus!
