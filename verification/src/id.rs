//! Identity primitives: canonical ids, external ids and format tags.

pub mod canonical;
pub mod external;
pub mod format;

pub use canonical::CanonicalId;
pub use external::ExternalId;
pub use format::FormatId;
