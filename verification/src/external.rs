//! Declarations of the outside items this crate works with, and the few
//! wrappers through which verified code calls them.

use vstd::prelude::*;

verus! {

/// `indexmap::IndexMap`, an insertion-ordered hash map; opaque to proofs.
#[verifier::external_type_specification]
#[verifier::external_body]
#[verifier::reject_recursive_types(K)]
#[verifier::reject_recursive_types(V)]
#[verifier::reject_recursive_types(S)]
pub struct ExIndexMap<K, V, S>(indexmap::IndexMap<K, V, S>);

/// `serde_json::Value`, an arbitrary JSON value; opaque to proofs.
#[verifier::external_type_specification]
#[verifier::external_body]
pub struct ExJsonValue(serde_json::Value);

/// `IndexMap::clone` (a copy of every entry, in order). Nothing is claimed
/// of the result: the map is opaque to proofs.
pub assume_specification<K: Clone, V: Clone, S: Clone>[ <indexmap::IndexMap<K, V, S> as Clone>::clone ](
    map: &indexmap::IndexMap<K, V, S>,
) -> indexmap::IndexMap<K, V, S>;

/// `serde_json::Value::clone` (a deep copy). Nothing is claimed of the
/// result: JSON values are opaque to proofs.
pub assume_specification[ <serde_json::Value as Clone>::clone ](value: &serde_json::Value) -> serde_json::Value;

/// The string-valued attributes of a JSON attribute map: each key whose
/// value is a JSON string, mapped to that string. Entries holding other JSON
/// values are not described.
pub uninterp spec fn attribute_strings(map: indexmap::IndexMap<String, serde_json::Value>) -> Map<
    Seq<char>,
    Seq<char>,
>;

/// The text stored under `key` in a JSON attribute map, when it is a JSON string.
pub open spec fn attribute_text(
    map: indexmap::IndexMap<String, serde_json::Value>,
    key: Seq<char>,
) -> Option<Seq<char>> {
    if attribute_strings(map).contains_key(key) {
        Some(attribute_strings(map)[key])
    } else {
        None
    }
}

/// `IndexMap::get` followed by `serde_json::Value::as_str`: the text stored
/// under `key` when that value is a JSON string. The contract claims that
/// the result is present exactly when [`attribute_strings`] maps `key`, and
/// then equals that text.
#[verifier::external_body]
pub(crate) fn attribute_str(attributes: &indexmap::IndexMap<String, serde_json::Value>, key: &str) -> (text:
    Option<String>)
    ensures
        match text {
            Some(t) => attribute_strings(*attributes).contains_key(key@) && t@ == attribute_strings(
                *attributes,
            )[key@],
            None => !attribute_strings(*attributes).contains_key(key@),
        },
{
    match attributes.get(key) {
        Some(serde_json::Value::String(s)) => Some(s.clone()),
        _ => None,
    }
}

/// The 128 bits of a fresh version 4 UUID.
///
/// Calls `uuid::Uuid::new_v4` and reads it back with `Uuid::as_u128`. The
/// contract claims only what holds of every outcome: `new_v4` masks random
/// bits so that the version nibble (bits 76..80) is 4 and the variant bits
/// (bits 62..64) are `0b10`. The other 122 bits are random and unstated.
#[verifier::external_body]
pub(crate) fn new_v4_bits() -> (bits: u128)
    ensures
        (bits >> 76u128) & 0xfu128 == 4u128,
        (bits >> 62u128) & 0x3u128 == 2u128,
{
    uuid::Uuid::new_v4().as_u128()
}

/// The ASCII lowercase of a character: `A`..=`Z` map to `a`..=`z`, all
/// other characters map to themselves.
pub open spec fn ascii_lower(c: char) -> char {
    if 'A' <= c && c <= 'Z' {
        ((c as u32) + 32) as char
    } else {
        c
    }
}

/// `char::to_ascii_lowercase`. Its documentation: ASCII letters `A` to `Z`
/// are mapped to `a` to `z`; every other character is returned unchanged.
#[verifier::external_body]
pub(crate) fn char_to_ascii_lowercase(c: char) -> (lower: char)
    ensures
        lower == ascii_lower(c),
{
    c.to_ascii_lowercase()
}

/// `String::push`: appends one character at the end.
#[verifier::external_body]
pub(crate) fn string_push(s: &mut String, c: char)
    ensures
        final(s)@ == old(s)@.push(c),
{
    s.push(c)
}

} // verus!
