use vstd::prelude::*;

use crate::id::FormatId;

verus! {

/// A position in an imported file.
#[derive(Debug, Clone)]
pub struct SourceLocation {
    pub path: String,
    pub line: Option<u32>,
    pub column: Option<u32>,
}

/// The origin of an imported record.
#[derive(Debug, Clone)]
pub struct Provenance {
    pub source_format: FormatId,
    pub location: Option<SourceLocation>,
    pub source_fragment: Option<String>,
}

/// A payload of a source format that the canonical model does not interpret.
#[derive(Debug, Clone)]
pub struct OpaqueExtension {
    pub path: String,
    pub raw_xml: Option<String>,
    pub raw_script: Option<String>,
    pub attributes: Vec<(String, String)>,
}

} // verus!
