//! Diagnostics reported while importing and converting.

pub mod codes;
pub mod report;

pub use codes::DiagnosticCode;
pub use report::{Diagnostic, DiagnosticReport};
