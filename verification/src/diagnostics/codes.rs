use vstd::prelude::*;

verus! {

/// A stable machine-readable diagnostic code, such as `"lossy_projection"`.
#[derive(Debug, Clone)]
pub struct DiagnosticCode(pub String);

} // verus!
