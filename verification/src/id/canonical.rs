use vstd::prelude::*;

use crate::external::new_v4_bits;

verus! {

/// The stable identity of a canonical record: the 128 bits of a UUID.
#[derive(Debug, Clone, Copy, PartialEq, Eq, Structural, Hash)]
pub struct CanonicalId(pub u128);

/// A value is a random (version 4, RFC 4122 variant) UUID in its bit layout.
pub open spec fn is_v4_uuid_bits(bits: u128) -> bool {
    &&& (bits >> 76u128) & 0xfu128 == 4u128
    &&& (bits >> 62u128) & 0x3u128 == 2u128
}

impl CanonicalId {
    /// A fresh random identity (a version 4 UUID).
    pub fn new() -> (id: Self)
        ensures
            is_v4_uuid_bits(id.0),
    {
        CanonicalId(new_v4_bits())
    }
}

impl Default for CanonicalId {
    fn default() -> (id: Self)
        ensures
            is_v4_uuid_bits(id.0),
    {
        Self::new()
    }
}

} // verus!
