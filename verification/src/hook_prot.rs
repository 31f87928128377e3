//! Header layout and the protocol decoder.

use vstd::prelude::*;
use vstd::slice::slice_subrange;
use vstd::string::*;
use vstd::utf8::{decode_utf8, encode_utf8_decode_utf8, valid_utf8};
use crate::error::HookError;
use crate::json::{json_parse, parse_json};
use crate::wire::{
    decoded, has_identity, hook_type_field, json_decoded, lemma_identity_bytewise,
    lemma_strip_zeros_empty, lemma_strip_zeros_push, payload_field, strip_zeros, version_field,
    window, Frame,
};
use serde_json::Value;

verus! {

/// The marker that every frame begins with.
pub const IDENTITY_BYTES: [u8; 4] = [0x99, 0x99, 0x99, 0x99];

/// Width of the identity marker.
pub const IDENTITY_BYTES_LENGTH: usize = 4;

/// Width of the version field.
pub const VERSION_BYTES: usize = 4;

/// The version tag that senders use today.
pub const VERSION: &'static str = "v1";

/// Width of the hook type field.
pub const HOOK_TYPE_BYTES: usize = 8;

/// The hook type tag that senders use today.
pub const HOOK_TYPE: &'static str = "v1";

/// Offset of the payload: it runs from here to the end of the buffer.
pub const DATA_OFFSET: usize = IDENTITY_BYTES_LENGTH + VERSION_BYTES + HOOK_TYPE_BYTES;

/// The port on which receivers listen by default.
pub const HOOK_PORT: usize = 7070;

/// One received event: the two header texts, the payload bytes as they came
/// (zero bytes removed), and the payload in the form the receiver asked for.
#[derive(Debug)]
pub struct HookProtocol<T> {
    pub version: String,
    pub hook_type: String,
    pub bytes: Vec<u8>,
    pub data: T,
}

impl<T> View for HookProtocol<T> {
    type V = Frame;

    open spec fn view(&self) -> Frame {
        Frame { version: self.version@, hook_type: self.hook_type@, payload: self.bytes@ }
    }
}

/// Whether a buffer begins with the identity marker.
fn starts_with_identity(bytes: &[u8]) -> (res: bool)
    ensures
        res == has_identity(bytes@),
{
    proof {
        lemma_identity_bytewise(bytes@);
    }
    if bytes.len() < IDENTITY_BYTES_LENGTH {
        return false;
    }
    let mut i: usize = 0;
    while i < IDENTITY_BYTES_LENGTH
        invariant
            i <= IDENTITY_BYTES_LENGTH <= bytes@.len(),
            forall|j: int| 0 <= j < i ==> bytes@[j] == 0x99u8,
        decreases IDENTITY_BYTES_LENGTH - i,
    {
        if bytes[i] != IDENTITY_BYTES[i] {
            return false;
        }
        i += 1;
    }
    true
}

/// The part of a buffer at `from..to`, cut short where the buffer ends.
fn clip(bytes: &[u8], from: usize, to: usize) -> (part: &[u8])
    requires
        from <= to,
    ensures
        part@ == window(bytes@, from as int, to as int),
{
    let len = bytes.len();
    let start = if from <= len { from } else { len };
    let end = if to <= len { to } else { len };
    slice_subrange(bytes, start, end)
}

/// A copy of `bytes` that leaves the zero bytes out.
fn without_zeros(bytes: &[u8]) -> (kept: Vec<u8>)
    ensures
        kept@ == strip_zeros(bytes@),
{
    let mut kept: Vec<u8> = Vec::new();
    let mut i: usize = 0;
    proof {
        lemma_strip_zeros_empty();
        assert(bytes@.subrange(0, 0) =~= Seq::<u8>::empty());
    }
    while i < bytes.len()
        invariant
            i <= bytes@.len(),
            kept@ == strip_zeros(bytes@.subrange(0, i as int)),
        decreases bytes@.len() - i,
    {
        let byte = bytes[i];
        proof {
            lemma_strip_zeros_push(bytes@.subrange(0, i as int), byte);
            assert(bytes@.subrange(0, i + 1) =~= bytes@.subrange(0, i as int).push(byte));
        }
        if byte != 0 {
            kept.push(byte);
        }
        i += 1;
    }
    assert(bytes@.subrange(0, i as int) =~= bytes@);
    kept
}

/// A header field as text: its bytes without the zero bytes, read as UTF-8.
fn field_text(field: &[u8]) -> (res: Option<String>)
    ensures
        res is Some <==> valid_utf8(strip_zeros(field@)),
        res matches Some(text) ==> text@ == decode_utf8(strip_zeros(field@)),
{
    let kept = without_zeros(field);
    match core::str::from_utf8(kept.as_slice()) {
        Ok(text) => {
            proof {
                encode_utf8_decode_utf8(text@);
            }
            Some(text.to_owned())
        },
        Err(_) => None,
    }
}

impl HookProtocol<Vec<u8>> {
    /// Reads a buffer as a frame and keeps the payload as bytes.
    ///
    /// The buffer must begin with the identity marker. A buffer that ends
    /// inside the header, or right after it, is no error: the fields that it
    /// does not reach are empty.
    pub fn new(bytes: Vec<u8>) -> (res: Result<Self, HookError>)
        ensures
            match res {
                Ok(protocol) => decoded(bytes@) == Ok::<Frame, HookError>(protocol@)
                    && protocol.data@ == protocol.bytes@,
                Err(e) => decoded(bytes@) == Err::<Frame, HookError>(e),
            },
            res is Ok <==> has_identity(bytes@) && valid_utf8(version_field(bytes@)) && valid_utf8(
                hook_type_field(bytes@),
            ),
            res matches Err(HookError::IdentityMismatch) <==> !has_identity(bytes@),
    {
        let buffer = bytes.as_slice();
        if !starts_with_identity(buffer) {
            return Err(HookError::IdentityMismatch);
        }
        let len = buffer.len();
        let end = if len >= DATA_OFFSET { len } else { DATA_OFFSET };
        let version_at = IDENTITY_BYTES_LENGTH;
        let hook_type_at = IDENTITY_BYTES_LENGTH + VERSION_BYTES;
        let version = field_text(clip(buffer, version_at, hook_type_at));
        let hook_type = field_text(clip(buffer, hook_type_at, DATA_OFFSET));
        let data_bytes = without_zeros(clip(buffer, DATA_OFFSET, end));
        match (version, hook_type) {
            (Some(version), Some(hook_type)) => Ok(
                HookProtocol { version, hook_type, bytes: data_bytes.clone(), data: data_bytes },
            ),
            _ => Err(HookError::InvalidEncoding),
        }
    }
}

impl HookProtocol<Value> {
    /// Reads a buffer as a frame whose payload is JSON text.
    ///
    /// Fails as the byte-payload reader does, and with `MalformedPayload`
    /// where the frame is sound but its payload is not JSON.
    pub fn new(bytes: Vec<u8>) -> (res: Result<Self, HookError>)
        ensures
            json_decoded(bytes@, json_parse(payload_field(bytes@))) == match res {
                Ok(protocol) => Ok::<(Frame, Value), HookError>((protocol@, protocol.data)),
                Err(e) => Err::<(Frame, Value), HookError>(e),
            },
            res is Ok <==> decoded(bytes@) is Ok && json_parse(payload_field(bytes@)) is Some,
            res matches Err(HookError::IdentityMismatch) <==> !has_identity(bytes@),
    {
        match HookProtocol::<Vec<u8>>::new(bytes) {
            Ok(frame) => {
                let parsed = parse_json(frame.bytes.as_slice());
                Self::with_payload(frame, parsed)
            },
            Err(e) => Err(e),
        }
    }

    /// Puts a frame and the outcome of reading its payload as JSON together:
    /// the frame with the value, or `MalformedPayload` where there is none.
    pub fn with_payload(
        frame: HookProtocol<Vec<u8>>,
        parsed: Result<Value, serde_json::Error>,
    ) -> (res: Result<Self, HookError>)
        ensures
            match parsed {
                Ok(value) => res matches Ok(protocol) && protocol@ == frame@ && protocol.data
                    == value,
                Err(_) => res matches Err(HookError::MalformedPayload),
            },
    {
        match parsed {
            Ok(data) => Ok(
                HookProtocol {
                    version: frame.version,
                    hook_type: frame.hook_type,
                    bytes: frame.bytes,
                    data,
                },
            ),
            Err(_) => Err(HookError::MalformedPayload),
        }
    }

    /// Whether a buffer begins with the identity marker: a cheap test to tell
    /// a frame from other traffic, safe on any bytes.
    ///
    /// True exactly when the buffer has at least four bytes and the first
    /// four are `99 99 99 99`.
    pub fn is_hook_protocol(bytes: Vec<u8>) -> (res: bool)
        ensures
            res == has_identity(bytes@),
            res <==> bytes@.len() >= 4 && forall|i: int| 0 <= i < 4 ==> bytes@[i] == 0x99u8,
    {
        proof {
            lemma_identity_bytewise(bytes@);
        }
        starts_with_identity(bytes.as_slice())
    }
}

} // verus!
