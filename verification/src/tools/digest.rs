//! The arguments digest that pins one validated set of tool arguments.

use crate::json::{same_document, spec_json_bytes, JsonValue};
use sha2::Digest;
use vstd::prelude::*;

verus! {

/// The SHA-256 digest of the bytes, as lowercase hex.
pub uninterp spec fn spec_sha256_hex(bytes: Seq<u8>) -> Seq<char>;

/// A lowercase hexadecimal digit.
pub open spec fn is_lower_hex(c: char) -> bool {
    ('0' <= c && c <= '9') || ('a' <= c && c <= 'f')
}

/// Calls `sha2::Sha256::digest` and formats the 32-byte result with `{:x}`,
/// which writes two lowercase hex digits per byte: 64 chars in all.
#[verifier::external_body]
pub(crate) fn sha256_hex(bytes: &[u8]) -> (r: String)
    ensures
        r@ == spec_sha256_hex(bytes@),
        r@.len() == 64,
        forall|i: int| 0 <= i < 64 ==> is_lower_hex(#[trigger] r@[i]),
{
    format!("{:x}", sha2::Sha256::digest(bytes))
}

/// The deterministic bytes of one parsed value: object keys in sorted order,
/// recursively, and no insignificant whitespace.
pub fn canonical_bytes(value: &JsonValue) -> (r: Vec<u8>)
    ensures
        r@ == spec_json_bytes(*value),
        forall|other: JsonValue| #[trigger] same_document(*value, other) ==> spec_json_bytes(other)
            == r@,
{
    value.to_bytes()
}

/// SHA-256 over the canonical bytes, as 64 lowercase hex digits.
pub fn arguments_digest(value: &JsonValue) -> (r: String)
    ensures
        r@ == spec_sha256_hex(spec_json_bytes(*value)),
        r@.len() == 64,
        forall|i: int| 0 <= i < 64 ==> is_lower_hex(#[trigger] r@[i]),
        forall|other: JsonValue| #[trigger] same_document(*value, other) ==> r@ == spec_sha256_hex(
            spec_json_bytes(other),
        ),
{
    let bytes = canonical_bytes(value);
    sha256_hex(bytes.as_slice())
}

} // verus!
