//! The wire format as mathematics: what the bytes of a frame are, and what a
//! buffer of bytes means when it is read as a frame.
//!
//! The encoder and the decoder state their results over the functions of this
//! module, and the lemmas at its end relate the two directions.

use vstd::prelude::*;
use vstd::utf8::*;
use crate::error::HookError;
use crate::hook_prot::{DATA_OFFSET, HOOK_TYPE_BYTES, IDENTITY_BYTES_LENGTH, VERSION_BYTES};

verus! {

/// The identity marker, `99 99 99 99`.
pub open spec fn identity() -> Seq<u8> {
    seq![0x99u8, 0x99u8, 0x99u8, 0x99u8]
}

/// A buffer carries the identity marker when its first four bytes are the
/// marker, byte for byte. A shorter buffer never does.
pub open spec fn has_identity(bytes: Seq<u8>) -> bool {
    bytes.len() >= IDENTITY_BYTES_LENGTH && bytes.subrange(0, IDENTITY_BYTES_LENGTH as int)
        == identity()
}

/// `n` zero bytes.
pub open spec fn zeros(n: nat) -> Seq<u8> {
    Seq::new(n, |i: int| 0u8)
}

/// `text` followed by as many zero bytes as it takes to fill `width` bytes.
pub open spec fn padded(text: Seq<u8>, width: nat) -> Seq<u8>
    recommends
        text.len() <= width,
{
    text + zeros((width - text.len()) as nat)
}

/// Both header texts fit their fields.
pub open spec fn fits(version: Seq<u8>, hook_type: Seq<u8>) -> bool {
    version.len() <= VERSION_BYTES && hook_type.len() <= HOOK_TYPE_BYTES
}

/// The bytes of the frame that carries these three fields: the marker, the
/// padded version, the padded hook type, and the payload as it is.
pub open spec fn frame_bytes(version: Seq<u8>, hook_type: Seq<u8>, payload: Seq<u8>) -> Seq<u8>
    recommends
        fits(version, hook_type),
{
    identity() + padded(version, VERSION_BYTES as nat) + padded(hook_type, HOOK_TYPE_BYTES as nat)
        + payload
}

/// The bytes of a buffer at positions `from..to`, as far as the buffer
/// reaches: a buffer that ends early yields fewer bytes, or none.
pub open spec fn window(bytes: Seq<u8>, from: int, to: int) -> Seq<u8>
    recommends
        0 <= from <= to,
{
    let len = bytes.len() as int;
    bytes.subrange(if from <= len { from } else { len }, if to <= len { to } else { len })
}

/// The test that keeps a byte when it is not zero.
pub open spec fn nonzero() -> spec_fn(u8) -> bool {
    |b: u8| b != 0
}

/// A buffer without its zero bytes, the others in their order.
pub open spec fn strip_zeros(bytes: Seq<u8>) -> Seq<u8> {
    bytes.filter(nonzero())
}

/// The version field of a buffer, zero bytes removed.
pub open spec fn version_field(bytes: Seq<u8>) -> Seq<u8> {
    strip_zeros(
        window(bytes, IDENTITY_BYTES_LENGTH as int, IDENTITY_BYTES_LENGTH + VERSION_BYTES),
    )
}

/// The hook type field of a buffer, zero bytes removed.
pub open spec fn hook_type_field(bytes: Seq<u8>) -> Seq<u8> {
    strip_zeros(window(bytes, IDENTITY_BYTES_LENGTH + VERSION_BYTES, DATA_OFFSET as int))
}

/// The payload of a buffer: everything from the payload offset on, zero bytes
/// removed. A payload that holds a zero byte of its own therefore loses it.
pub open spec fn payload_field(bytes: Seq<u8>) -> Seq<u8> {
    strip_zeros(
        window(
            bytes,
            DATA_OFFSET as int,
            if bytes.len() >= DATA_OFFSET {
                bytes.len() as int
            } else {
                DATA_OFFSET as int
            },
        ),
    )
}

/// The fields of one hook transmission.
pub ghost struct Frame {
    pub version: Seq<char>,
    pub hook_type: Seq<char>,
    pub payload: Seq<u8>,
}

/// What a buffer means when it is read as a frame. The identity marker is
/// checked first, then the two header texts; the payload is taken as it comes.
pub open spec fn decoded(bytes: Seq<u8>) -> Result<Frame, HookError> {
    if !has_identity(bytes) {
        Err(HookError::IdentityMismatch)
    } else if !valid_utf8(version_field(bytes)) || !valid_utf8(hook_type_field(bytes)) {
        Err(HookError::InvalidEncoding)
    } else {
        Ok(
            Frame {
                version: decode_utf8(version_field(bytes)),
                hook_type: decode_utf8(hook_type_field(bytes)),
                payload: payload_field(bytes),
            },
        )
    }
}

/// What a buffer means when its payload is wanted as a JSON value: the frame
/// and the value, given what the JSON reader made of the payload (`None`
/// where it rejected it). The frame's own errors come first.
pub open spec fn json_decoded(bytes: Seq<u8>, parsed: Option<serde_json::Value>) -> Result<
    (Frame, serde_json::Value),
    HookError,
> {
    match decoded(bytes) {
        Err(e) => Err(e),
        Ok(frame) => match parsed {
            Some(value) => Ok((frame, value)),
            None => Err(HookError::MalformedPayload),
        },
    }
}

/// No byte of the buffer is zero.
pub open spec fn no_zero(bytes: Seq<u8>) -> bool {
    forall|i: int| 0 <= i < bytes.len() ==> bytes[i] != 0
}

/// No character of the text is NUL.
pub open spec fn no_nul(text: Seq<char>) -> bool {
    forall|i: int| 0 <= i < text.len() ==> text[i] != '\0'
}

/// The identity test byte by byte: the buffer reaches four bytes, and each of
/// the four is `0x99`.
pub proof fn lemma_identity_bytewise(bytes: Seq<u8>)
    ensures
        has_identity(bytes) <==> bytes.len() >= 4 && forall|i: int|
            0 <= i < 4 ==> bytes[i] == 0x99u8,
{
    if bytes.len() >= 4 {
        if has_identity(bytes) {
            assert forall|i: int| 0 <= i < 4 implies bytes[i] == 0x99u8 by {
                assert(bytes.subrange(0, 4)[i] == bytes[i]);
            }
        }
        if forall|i: int| 0 <= i < 4 ==> bytes[i] == 0x99u8 {
            assert(bytes.subrange(0, 4) =~= identity());
        }
    }
}

/// Nothing is left of an empty buffer.
pub proof fn lemma_strip_zeros_empty()
    ensures
        strip_zeros(Seq::<u8>::empty()) == Seq::<u8>::empty(),
{
    reveal(Seq::filter);
}

/// Stripping goes byte by byte: a byte at the end is kept unless it is zero.
pub proof fn lemma_strip_zeros_push(bytes: Seq<u8>, last: u8)
    ensures
        strip_zeros(bytes.push(last)) == if last != 0 {
            strip_zeros(bytes).push(last)
        } else {
            strip_zeros(bytes)
        },
{
    reveal(Seq::filter);
    assert(bytes.push(last).drop_last() =~= bytes);
}

/// Stripping leaves a buffer without zero bytes as it is.
pub proof fn lemma_strip_zeros_keeps(bytes: Seq<u8>)
    requires
        no_zero(bytes),
    ensures
        strip_zeros(bytes) == bytes,
    decreases bytes.len(),
{
    reveal(Seq::filter);
    if bytes.len() > 0 {
        lemma_strip_zeros_keeps(bytes.drop_last());
        assert(bytes.drop_last().push(bytes.last()) =~= bytes);
    }
}

/// Stripping leaves nothing of a run of zero bytes.
pub proof fn lemma_strip_zeros_drops(n: nat)
    ensures
        strip_zeros(zeros(n)) == Seq::<u8>::empty(),
    decreases n,
{
    reveal(Seq::filter);
    if n > 0 {
        lemma_strip_zeros_drops((n - 1) as nat);
        assert(zeros(n).drop_last() =~= zeros((n - 1) as nat));
    }
}

/// Stripping undoes padding: a text without zero bytes comes back out of its
/// padded field unchanged.
pub proof fn lemma_strip_zeros_padded(text: Seq<u8>, width: nat)
    requires
        text.len() <= width,
        no_zero(text),
    ensures
        strip_zeros(padded(text, width)) == text,
{
    let fill = (width - text.len()) as nat;
    Seq::filter_distributes_over_add(text, zeros(fill), nonzero());
    lemma_strip_zeros_keeps(text);
    lemma_strip_zeros_drops(fill);
    assert(text + Seq::<u8>::empty() =~= text);
}

/// Stripping leaves no zero byte behind, and never makes a buffer longer.
pub proof fn lemma_strip_zeros_result(bytes: Seq<u8>)
    ensures
        no_zero(strip_zeros(bytes)),
        strip_zeros(bytes).len() <= bytes.len(),
{
    bytes.lemma_filter_len(nonzero());
    assert forall|i: int| 0 <= i < strip_zeros(bytes).len() implies strip_zeros(bytes)[i]
        != 0 by {
        bytes.lemma_filter_pred(nonzero(), i);
    }
}

/// The UTF-8 encoding of a scalar value other than zero holds no zero byte:
/// a single byte is the value itself, and every byte of a longer encoding
/// has its top bit set.
proof fn lemma_scalar_without_zero(scalar: u32)
    requires
        scalar != 0,
    ensures
        no_zero(encode_scalar(scalar)),
{
    assert(scalar <= 0x7F ==> (scalar & 0x7F) as u8 != 0) by (bit_vector)
        requires
            scalar != 0,
    ;
    assert(0xC0u8 | ((scalar >> 6) & 0x1F) as u8 != 0) by (bit_vector);
    assert(0xE0u8 | ((scalar >> 12) & 0x0F) as u8 != 0) by (bit_vector);
    assert(0xF0u8 | ((scalar >> 18) & 0x7) as u8 != 0) by (bit_vector);
    assert(0x80u8 | (scalar & 0x3F) as u8 != 0) by (bit_vector);
    assert(0x80u8 | ((scalar >> 6) & 0x3F) as u8 != 0) by (bit_vector);
    assert(0x80u8 | ((scalar >> 12) & 0x3F) as u8 != 0) by (bit_vector);
}

/// A text without NUL characters has a UTF-8 encoding without zero bytes.
pub proof fn lemma_text_without_zero(text: Seq<char>)
    requires
        no_nul(text),
    ensures
        no_zero(encode_utf8(text)),
    decreases text.len(),
{
    if text.len() > 0 {
        assert(text[0] as u32 != 0) by {
            if text[0] as u32 == 0 {
                char_u32_cast(text[0], 0);
                char_u32_cast('\0', 0);
            }
        }
        lemma_scalar_without_zero(text[0] as u32);
        assert(no_nul(text.drop_first())) by {
            assert forall|i: int| 0 <= i < text.drop_first().len() implies text.drop_first()[i]
                != '\0' by {
                assert(text.drop_first()[i] == text[i + 1]);
            }
        }
        lemma_text_without_zero(text.drop_first());
    }
}

/// A text whose UTF-8 encoding holds no zero byte has no NUL character.
pub proof fn lemma_text_without_nul(text: Seq<char>)
    requires
        no_zero(encode_utf8(text)),
    ensures
        no_nul(text),
    decreases text.len(),
{
    if text.len() > 0 {
        let first = encode_scalar(text[0] as u32);
        let rest = encode_utf8(text.drop_first());
        assert(encode_utf8(text) == first + rest);
        if text[0] == '\0' {
            assert(first[0] == 0) by {
                assert(0u32 & 0x7F == 0) by (bit_vector);
            }
            assert((first + rest)[0] == 0);
        }
        assert(no_zero(rest)) by {
            assert forall|i: int| 0 <= i < rest.len() implies rest[i] != 0 by {
                assert((first + rest)[first.len() + i] == rest[i]);
            }
        }
        lemma_text_without_nul(text.drop_first());
        assert forall|i: int| 0 <= i < text.len() implies text[i] != '\0' by {
            if i > 0 {
                assert(text.drop_first()[i - 1] == text[i]);
            }
        }
    }
}

/// Every frame is recognised: it begins with the identity marker, and its
/// payload begins at the payload offset.
pub proof fn lemma_frame_is_recognised(version: Seq<u8>, hook_type: Seq<u8>, payload: Seq<u8>)
    requires
        fits(version, hook_type),
    ensures
        has_identity(frame_bytes(version, hook_type, payload)),
        frame_bytes(version, hook_type, payload).len() == DATA_OFFSET + payload.len(),
{
    let frame = frame_bytes(version, hook_type, payload);
    assert(frame.subrange(0, 4) =~= identity());
}

/// Round trip: a frame built from a version, a hook type and a payload reads
/// back as exactly these three, provided that the header texts fit their
/// fields and that none of the three holds a zero byte (for the texts: a NUL
/// character). A zero byte would not survive: reading strips every one.
pub proof fn lemma_round_trip(version: Seq<char>, hook_type: Seq<char>, payload: Seq<u8>)
    requires
        fits(encode_utf8(version), encode_utf8(hook_type)),
        no_nul(version),
        no_nul(hook_type),
        no_zero(payload),
    ensures
        decoded(frame_bytes(encode_utf8(version), encode_utf8(hook_type), payload)) == Ok::<
            Frame,
            HookError,
        >(Frame { version, hook_type, payload }),
{
    let v = encode_utf8(version);
    let h = encode_utf8(hook_type);
    let bytes = frame_bytes(v, h, payload);
    lemma_frame_is_recognised(v, h, payload);
    assert(window(bytes, 4, 8) =~= padded(v, 4));
    assert(window(bytes, 8, 16) =~= padded(h, 8));
    assert(window(bytes, 16, bytes.len() as int) =~= payload);
    lemma_text_without_zero(version);
    lemma_text_without_zero(hook_type);
    lemma_strip_zeros_padded(v, 4);
    lemma_strip_zeros_padded(h, 8);
    lemma_strip_zeros_keeps(payload);
    encode_utf8_valid_utf8(version);
    encode_utf8_valid_utf8(hook_type);
    encode_utf8_decode_utf8(version);
    encode_utf8_decode_utf8(hook_type);
}

/// What reading yields: header texts that fit their fields, and no zero byte
/// (in the texts: no NUL character) in any of the three fields.
pub proof fn lemma_decoded_frame(bytes: Seq<u8>)
    requires
        decoded(bytes) is Ok,
    ensures
        ({
            let frame = decoded(bytes)->Ok_0;
            &&& fits(encode_utf8(frame.version), encode_utf8(frame.hook_type))
            &&& no_nul(frame.version)
            &&& no_nul(frame.hook_type)
            &&& no_zero(frame.payload)
        }),
{
    let frame = decoded(bytes)->Ok_0;
    lemma_strip_zeros_result(window(bytes, 4, 8));
    lemma_strip_zeros_result(window(bytes, 8, 16));
    lemma_strip_zeros_result(
        window(bytes, 16, if bytes.len() >= 16 { bytes.len() as int } else { 16 }),
    );
    decode_utf8_encode_utf8(version_field(bytes));
    decode_utf8_encode_utf8(hook_type_field(bytes));
    lemma_text_without_nul(frame.version);
    lemma_text_without_nul(frame.hook_type);
}

/// Reading is stable: the fields read from any buffer can be framed again,
/// and that frame reads back as the same fields.
pub proof fn lemma_read_frame_round_trips(bytes: Seq<u8>)
    requires
        decoded(bytes) is Ok,
    ensures
        ({
            let frame = decoded(bytes)->Ok_0;
            decoded(
                frame_bytes(
                    encode_utf8(frame.version),
                    encode_utf8(frame.hook_type),
                    frame.payload,
                ),
            ) == decoded(bytes)
        }),
{
    let frame = decoded(bytes)->Ok_0;
    lemma_decoded_frame(bytes);
    lemma_round_trip(frame.version, frame.hook_type, frame.payload);
}

} // verus!
