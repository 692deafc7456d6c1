//! Where imported data came from, and payloads kept verbatim.

pub mod opaque;

pub use opaque::{OpaqueExtension, Provenance, SourceLocation};
