use vstd::prelude::*;
use vstd::std_specs::cmp::PartialEqSpecImpl;

use super::FormatId;

verus! {

/// An identifier of a record in some outside format: `format + namespace + value`.
#[derive(Debug, Clone, Eq, Hash)]
pub struct ExternalId {
    pub format: FormatId,
    pub namespace: Option<String>,
    pub value: String,
}

/// Two optional texts are both absent or both present with the same characters.
pub open spec fn same_opt_text(a: Option<String>, b: Option<String>) -> bool {
    match (a, b) {
        (None, None) => true,
        (Some(x), Some(y)) => x@ == y@,
        _ => false,
    }
}

impl ExternalId {
    /// Field-by-field equality of two external ids (exact, case-sensitive).
    pub open spec fn same_as(&self, other: &ExternalId) -> bool {
        &&& self.format.same_as(&other.format)
        &&& same_opt_text(self.namespace, other.namespace)
        &&& self.value@ == other.value@
    }
}

impl PartialEq for ExternalId {
    fn eq(&self, other: &ExternalId) -> (r: bool) {
        let same_namespace = match (&self.namespace, &other.namespace) {
            (None, None) => true,
            (Some(a), Some(b)) => a.eq(b),
            _ => false,
        };
        self.format.eq(&other.format) && same_namespace && self.value.eq(&other.value)
    }
}

impl PartialEqSpecImpl for ExternalId {
    open spec fn obeys_eq_spec() -> bool {
        true
    }

    open spec fn eq_spec(&self, other: &ExternalId) -> bool {
        self.same_as(other)
    }
}

} // verus!
