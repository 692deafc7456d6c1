use vstd::prelude::*;
use vstd::std_specs::cmp::PartialEqSpecImpl;

verus! {

/// The data format (ecosystem) an external identifier or record comes from.
#[derive(Debug, Clone, Eq, Hash)]
pub enum FormatId {
    ArtisanToml,
    Pcgen,
    Herolab,
    Hlo,
    Foundry,
    Other(String),
}

impl FormatId {
    /// Two format tags are the same tag (an `Other` tag by its text).
    pub open spec fn same_as(&self, other: &FormatId) -> bool {
        match (self, other) {
            (FormatId::ArtisanToml, FormatId::ArtisanToml) => true,
            (FormatId::Pcgen, FormatId::Pcgen) => true,
            (FormatId::Herolab, FormatId::Herolab) => true,
            (FormatId::Hlo, FormatId::Hlo) => true,
            (FormatId::Foundry, FormatId::Foundry) => true,
            (FormatId::Other(a), FormatId::Other(b)) => a@ == b@,
            _ => false,
        }
    }
}

impl PartialEq for FormatId {
    fn eq(&self, other: &FormatId) -> (r: bool) {
        match (self, other) {
            (FormatId::ArtisanToml, FormatId::ArtisanToml) => true,
            (FormatId::Pcgen, FormatId::Pcgen) => true,
            (FormatId::Herolab, FormatId::Herolab) => true,
            (FormatId::Hlo, FormatId::Hlo) => true,
            (FormatId::Foundry, FormatId::Foundry) => true,
            (FormatId::Other(a), FormatId::Other(b)) => a.eq(b),
            _ => false,
        }
    }
}

impl PartialEqSpecImpl for FormatId {
    open spec fn obeys_eq_spec() -> bool {
        true
    }

    open spec fn eq_spec(&self, other: &FormatId) -> bool {
        self.same_as(other)
    }
}

} // verus!
