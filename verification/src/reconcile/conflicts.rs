use vstd::prelude::*;

use crate::id::CanonicalId;

verus! {

/// Why an import disagrees with an existing record, and on which fields.
#[derive(Debug, Clone)]
pub struct ConflictSet {
    pub reason: String,
    pub fields: Vec<String>,
}

/// Existing records that an import could equally be.
#[derive(Debug, Clone)]
pub struct AmbiguitySet {
    pub candidates: Vec<CanonicalId>,
}

} // verus!
