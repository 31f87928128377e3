//! The packet encoder: builds the byte buffer that goes out for one event.

use vstd::prelude::*;
use vstd::string::*;
use vstd::utf8::encode_utf8;
use crate::error::HookError;
use crate::hook_prot::{DATA_OFFSET, HOOK_TYPE_BYTES, IDENTITY_BYTES, VERSION_BYTES};
use crate::json::{json_text, render_json};
use crate::wire::{fits, frame_bytes, has_identity, lemma_frame_is_recognised, padded};
use serde_json::Value;

verus! {

/// One outgoing event: the payload as the caller gave it, and the frame that
/// carries it.
#[derive(Debug)]
pub struct HookPacket<T> {
    data: T,
    inner_data: Vec<u8>,
}

/// A fixed-width field of `len` bytes: `initial` at the front, zero bytes
/// behind it. `initial` must fit.
pub fn create_bytes(initial: &[u8], len: u8) -> (field: Vec<u8>)
    requires
        initial@.len() <= len,
    ensures
        field@ == padded(initial@, len as nat),
{
    let mut zeros: Vec<u8> = vec![0u8; len as usize];
    let mut i: usize = 0;
    while i < initial.len()
        invariant
            i <= initial@.len() <= len,
            zeros@.len() == len,
            forall|j: int| 0 <= j < i ==> zeros@[j] == initial@[j],
            forall|j: int| i <= j < len ==> zeros@[j] == 0u8,
        decreases initial@.len() - i,
    {
        zeros.set(i, initial[i]);
        i += 1;
    }
    assert(zeros@ =~= padded(initial@, len as nat));
    zeros
}

/// Builds the frame for a version, a hook type and a payload that is already
/// in its byte form. A header text wider than its field is refused, never cut
/// short.
pub fn encode_frame(version: &str, hook_type: &str, payload: &[u8]) -> (res: Result<
    Vec<u8>,
    HookError,
>)
    ensures
        res is Ok <==> fits(version.spec_bytes(), hook_type.spec_bytes()),
        res matches Ok(frame) ==> frame@ == frame_bytes(
            version.spec_bytes(),
            hook_type.spec_bytes(),
            payload@,
        ),
        res matches Err(e) ==> e == HookError::EncodingTooLong,
{
    let version_text = version.as_bytes();
    let hook_type_text = hook_type.as_bytes();
    if version_text.len() > VERSION_BYTES || hook_type_text.len() > HOOK_TYPE_BYTES {
        return Err(HookError::EncodingTooLong);
    }
    let mut version_bytes = create_bytes(version_text, VERSION_BYTES as u8);
    let mut hook_type_bytes = create_bytes(hook_type_text, HOOK_TYPE_BYTES as u8);
    let mut inner_data: Vec<u8> = Vec::new();
    inner_data.extend_from_slice(IDENTITY_BYTES.as_slice());
    inner_data.append(&mut version_bytes);
    inner_data.append(&mut hook_type_bytes);
    inner_data.extend_from_slice(payload);
    assert(inner_data@ =~= frame_bytes(version.spec_bytes(), hook_type.spec_bytes(), payload@));
    Ok(inner_data)
}

impl<T> View for HookPacket<T> {
    type V = Seq<u8>;

    /// The bytes that go out on the wire.
    closed spec fn view(&self) -> Seq<u8> {
        self.inner_data@
    }
}

impl<T> HookPacket<T> {
    /// Whatever the payload, the bytes of a packet are a frame: the identity
    /// marker, the two header fields, then the payload.
    #[verifier::type_invariant]
    spec fn is_frame(self) -> bool {
        has_identity(self.inner_data@) && self.inner_data@.len() >= DATA_OFFSET
    }

    /// In contracts: the payload that the packet was built from.
    pub closed spec fn payload(&self) -> T {
        self.data
    }

    /// The payload that the packet was built from.
    pub fn data(&self) -> (data: &T)
        ensures
            *data == self.payload(),
    {
        &self.data
    }

    /// The bytes to hand to the transport.
    pub fn bytes(&self) -> (bytes: &[u8])
        ensures
            bytes@ == self@,
            has_identity(bytes@),
            bytes@.len() >= DATA_OFFSET,
    {
        proof {
            use_type_invariant(self);
        }
        self.inner_data.as_slice()
    }
}

impl HookPacket<Value> {
    /// A packet whose payload is the compact JSON text of `data`.
    ///
    /// Fails with `EncodingTooLong`, and only then, when the version takes
    /// more than 4 bytes of UTF-8 or the hook type more than 8.
    pub fn new(version: &str, hook_type: &str, data: Value) -> (res: Result<Self, HookError>)
        ensures
            res is Ok <==> fits(version.spec_bytes(), hook_type.spec_bytes()),
            res matches Ok(packet) ==> packet.payload() == data && packet@ == frame_bytes(
                version.spec_bytes(),
                hook_type.spec_bytes(),
                encode_utf8(json_text(data)),
            ),
            res matches Err(e) ==> e == HookError::EncodingTooLong,
    {
        let text = render_json(&data);
        match encode_frame(version, hook_type, text.as_str().as_bytes()) {
            Ok(inner_data) => {
                proof {
                    lemma_frame_is_recognised(
                        version.spec_bytes(),
                        hook_type.spec_bytes(),
                        encode_utf8(json_text(data)),
                    );
                }
                Ok(HookPacket { data, inner_data })
            },
            Err(e) => Err(e),
        }
    }
}

impl HookPacket<String> {
    /// A packet whose payload is the UTF-8 bytes of `data`.
    ///
    /// Fails with `EncodingTooLong`, and only then, when the version takes
    /// more than 4 bytes of UTF-8 or the hook type more than 8.
    pub fn new(version: &str, hook_type: &str, data: String) -> (res: Result<Self, HookError>)
        ensures
            res is Ok <==> fits(version.spec_bytes(), hook_type.spec_bytes()),
            res matches Ok(packet) ==> packet.payload() == data && packet@ == frame_bytes(
                version.spec_bytes(),
                hook_type.spec_bytes(),
                encode_utf8(data@),
            ),
            res matches Err(e) ==> e == HookError::EncodingTooLong,
    {
        match encode_frame(version, hook_type, data.as_str().as_bytes()) {
            Ok(inner_data) => {
                proof {
                    lemma_frame_is_recognised(
                        version.spec_bytes(),
                        hook_type.spec_bytes(),
                        encode_utf8(data@),
                    );
                }
                Ok(HookPacket { data, inner_data })
            },
            Err(e) => Err(e),
        }
    }
}

} // verus!
