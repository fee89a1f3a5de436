//! Calls into outside crates that the records need: the textual form of an
//! identity, JSON string literals and random notification identifiers.

use vstd::prelude::*;

verus! {

/// The textual form of the identity whose bytes are `bytes`.
pub uninterp spec fn principal_text_of(bytes: Seq<u8>) -> Seq<char>;

/// The JSON string literal that stands for `s`, quotes and escapes included.
pub uninterp spec fn json_string_of(s: Seq<char>) -> Seq<char>;

/// Relies on candid's `Principal::from_slice` (which panics beyond 29 bytes)
/// and `Principal::to_text`: the text depends on the bytes alone.
#[verifier::external_body]
pub(crate) fn principal_text(bytes: &Vec<u8>) -> (r: String)
    requires
        bytes@.len() <= 29,
    ensures
        r@ == principal_text_of(bytes@),
{
    candid::Principal::from_slice(bytes.as_slice()).to_text()
}

/// Relies on serde_json's `Value::String` and its `Display`: the JSON string
/// literal for `s`, which depends on `s` alone.
#[verifier::external_body]
pub(crate) fn json_string(s: &String) -> (r: String)
    ensures
        r@ == json_string_of(s@),
{
    serde_json::Value::String(s.clone()).to_string()
}

/// Relies on uuid's `Uuid::new_v4` and its `Display`, the hyphenated form of
/// 36 characters. The value is random.
#[verifier::external_body]
pub(crate) fn fresh_notification_id() -> (r: String)
    ensures
        r@.len() == 36,
{
    uuid::Uuid::new_v4().to_string()
}

} // verus!
