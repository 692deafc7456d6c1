//! Contracts for adapters that read or write a whole catalog.

use vstd::prelude::*;

use crate::domain::CoreCatalog;

verus! {

/// Parses a serialized representation of a `CoreCatalog` from a string.
///
/// Formats that only produce import candidates should not implement this
/// trait; they go through `Reconciler` instead.
pub trait CatalogParser {
    type Error;

    fn parse_catalog(input: &str) -> Result<CoreCatalog, Self::Error>;
}

/// Serializes a `CoreCatalog` to a string representation.
pub trait CatalogUnparser {
    type Error;

    fn unparse_catalog(catalog: &CoreCatalog) -> Result<String, Self::Error>;
}

} // verus!
