use vstd::prelude::*;

verus! {

/// How reconciliation treats ambiguous or lossy outcomes.
#[derive(Debug, Clone, Copy, PartialEq, Eq, Structural)]
pub enum ReconciliationPolicy {
    /// Reject ambiguous or lossy outcomes.
    Strict,
    /// Return ambiguity and conflict sets for confirmation.
    Guided,
    /// Create inferred or stub records, with diagnostics.
    Permissive,
}

impl Default for ReconciliationPolicy {
    /// The guided policy: ambiguity and conflicts go back for confirmation.
    fn default() -> (policy: Self)
        ensures
            policy == ReconciliationPolicy::Guided,
    {
        ReconciliationPolicy::Guided
    }
}

} // verus!
