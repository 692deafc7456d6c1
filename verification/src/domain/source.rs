use vstd::prelude::*;

use crate::id::{CanonicalId, ExternalId};

verus! {

/// A published source (book, supplement, data set): a privileged provenance anchor.
#[derive(Debug, Clone)]
pub struct SourceRecord {
    pub id: CanonicalId,
    pub title: String,
    /// Legacy compatibility field; `publisher_ids` holds the normalized relation.
    pub publisher: Option<String>,
    pub publisher_ids: Vec<CanonicalId>,
    pub edition: Option<String>,
    pub license: Option<String>,
    pub game_systems: Vec<String>,
    pub external_ids: Vec<ExternalId>,
}

} // verus!
