use vstd::prelude::*;

verus! {

/// A known semantic gap of a conversion.
#[derive(Debug, Clone)]
pub struct LossNote {
    pub code: String,
    pub message: String,
}

} // verus!
