use vstd::prelude::*;

use crate::id::{CanonicalId, ExternalId};

verus! {

/// A publisher of sources: a privileged provenance anchor.
#[derive(Debug, Clone)]
pub struct PublisherRecord {
    pub id: CanonicalId,
    pub name: String,
    pub external_ids: Vec<ExternalId>,
}

} // verus!
