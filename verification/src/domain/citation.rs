use vstd::prelude::*;

use crate::id::{CanonicalId, ExternalId};

verus! {

/// The record a citation is about.
#[derive(Debug, Clone, PartialEq, Eq, Structural)]
pub enum SubjectRef {
    Entity(CanonicalId),
    EntityType(CanonicalId),
}

/// Whether a citation has been checked against its source.
#[derive(Debug, Clone)]
pub enum VerificationState {
    Unverified,
    Verified,
}

/// A place within a source, such as a page.
#[derive(Debug, Clone)]
pub struct CitationLocator {
    pub kind: String,
    pub value: String,
    pub canonical: bool,
}

/// A claim that a subject appears in a source.
#[derive(Debug, Clone)]
pub struct CitationRecord {
    pub id: CanonicalId,
    pub subject: SubjectRef,
    pub source: CanonicalId,
    pub locators: Vec<CitationLocator>,
    pub verification: VerificationState,
    pub external_ids: Vec<ExternalId>,
}

} // verus!
