//! The checked conversion from bytes to text, done by the standard library.
//!
//! Nothing in this module is proved: it states what the crate believes of
//! `core::str::from_utf8`, over vstd's definition of valid UTF-8.

use vstd::prelude::*;
use vstd::string::*;
use vstd::utf8::valid_utf8;

verus! {

/// `core::str::Utf8Error`, the reason why bytes are not UTF-8. The decoder
/// only tells it from success and never looks inside.
#[verifier::external_type_specification]
#[verifier::external_body]
pub struct ExUtf8Error(core::str::Utf8Error);

/// `core::str::from_utf8` is believed to accept exactly the byte slices that
/// are valid UTF-8, and to hand back, when it accepts, a string slice made of
/// the very bytes it was given.
pub assume_specification[ core::str::from_utf8 ](v: &[u8]) -> (res: Result<
    &str,
    core::str::Utf8Error,
>)
    ensures
        res is Ok <==> valid_utf8(v@),
        res matches Ok(s) ==> s.spec_bytes() == v@,
;

} // verus!
