use indexmap::IndexMap;
use vstd::prelude::*;

use crate::id::CanonicalId;

use super::loss::LossNote;

verus! {

/// How one canonical record appears in a target format.
#[derive(Debug, Clone)]
pub struct ExternalProjection {
    pub target_format: String,
    pub external_id: Option<String>,
}

/// The explicit, reusable mapping table of one conversion job.
#[derive(Debug, Clone)]
pub struct ProjectionMap {
    pub canonical_to_external: IndexMap<CanonicalId, ExternalProjection>,
    pub unresolved: Vec<CanonicalId>,
    pub lossy_notes: Vec<LossNote>,
}

} // verus!
