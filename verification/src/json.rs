//! The JSON side of the protocol, done by `serde_json`.
//!
//! Nothing in this module is proved: each item states what the crate believes
//! of `serde_json`, and the encoder and the decoder are verified against
//! these statements. What JSON text looks like is not stated anywhere: the
//! two directions are only given names, so that contracts can say which text
//! and which value they mean.

use vstd::prelude::*;

verus! {

/// `serde_json::Value`, any JSON value. The crate carries such values from
/// the caller into a packet and from the parser into a decoded frame, and
/// never looks inside.
#[verifier::external_type_specification]
#[verifier::external_body]
pub struct ExValue(serde_json::Value);

/// `serde_json::Error`, the reason why a buffer is not JSON. The decoder only
/// tells it from success and never looks inside.
#[verifier::external_type_specification]
#[verifier::external_body]
pub struct ExJsonError(serde_json::Error);

/// The compact JSON text of a value: what `serde_json`'s `Display` for
/// `Value` writes for `{}`.
pub uninterp spec fn json_text(value: serde_json::Value) -> Seq<char>;

/// The value that `serde_json::from_slice` reads from a buffer of JSON text,
/// or `None` where it rejects the buffer.
pub uninterp spec fn json_parse(bytes: Seq<u8>) -> Option<serde_json::Value>;

/// Formats a value with `{}`, which goes through `serde_json`'s `Display` for
/// `Value`. Believed: formatting succeeds, and the text is a function of the
/// value alone, namely [`json_text`].
#[verifier::external_body]
pub(crate) fn render_json(value: &serde_json::Value) -> (text: String)
    ensures
        text@ == json_text(*value),
{
    format!("{}", value)
}

/// Reads a value with `serde_json::from_slice`. Believed: whether the buffer
/// is accepted, and the value that comes out of it, are functions of the
/// bytes alone, namely [`json_parse`].
#[verifier::external_body]
pub(crate) fn parse_json(bytes: &[u8]) -> (res: Result<serde_json::Value, serde_json::Error>)
    ensures
        match res {
            Ok(value) => json_parse(bytes@) == Some(value),
            Err(_) => json_parse(bytes@) is None,
        },
{
    serde_json::from_slice(bytes)
}

} // verus!
