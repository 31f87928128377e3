//! What can go wrong while building or reading a frame.

use vstd::prelude::*;

verus! {

/// Every failure of the codec. None of them is fatal: each is handed back to
/// the caller as a value.
#[derive(Debug, Clone, Copy, PartialEq, Eq, Structural)]
pub enum HookError {
    /// The version or the hook type does not fit its fixed-width header field.
    EncodingTooLong,
    /// The buffer does not begin with the identity marker.
    IdentityMismatch,
    /// The version or hook type field, once its zero bytes are gone, is not
    /// valid UTF-8.
    InvalidEncoding,
    /// The payload is not JSON text although a JSON value was asked for.
    MalformedPayload,
}

} // verus!
