use vstd::prelude::*;

use super::codes::DiagnosticCode;

verus! {

/// One reported finding.
#[derive(Debug, Clone)]
pub struct Diagnostic {
    pub code: DiagnosticCode,
    pub message: String,
}

/// The findings of one run, in the order they were reported.
#[derive(Debug, Default, Clone)]
pub struct DiagnosticReport {
    pub diagnostics: Vec<Diagnostic>,
}

} // verus!
