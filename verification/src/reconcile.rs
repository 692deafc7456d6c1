//! Reconciliation: matching imported candidates against canonical records.

pub mod conflicts;
pub mod index_laws;
pub mod laws;
pub mod matcher;
pub mod memory_store;
pub mod matching;
pub mod model;
pub mod policy;
pub mod reconcile_laws;
pub mod reconciler;
pub mod scoring;
pub mod search;
pub mod store;

pub use conflicts::{AmbiguitySet, ConflictSet};
pub use memory_store::InMemoryReconciliationStore;
pub use matcher::{MatchCandidate, MatchQuery};
pub use policy::ReconciliationPolicy;
pub use store::{CanonicalSubject, ReconciliationStore, SubjectKind};
pub use reconciler::{ImportCandidate, Reconciler, ResolutionOutcome, SourceHint};
