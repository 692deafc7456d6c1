//! Mapping tables from canonical records to a target format.

pub mod loss;
pub mod map;

pub use loss::LossNote;
pub use map::{ExternalProjection, ProjectionMap};
