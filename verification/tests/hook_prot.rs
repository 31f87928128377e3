use serde_json::{Number, Value};
use tcp_hook::error::HookError;
use tcp_hook::hook_prot::{
    HookProtocol, DATA_OFFSET, HOOK_PORT, HOOK_TYPE, HOOK_TYPE_BYTES, IDENTITY_BYTES,
    IDENTITY_BYTES_LENGTH, VERSION, VERSION_BYTES,
};

fn create_bytes(initial: &[u8], len: u8) -> Vec<u8> {
    let mut zeros = vec![0; len as usize];
    zeros[..initial.len()].clone_from_slice(initial);
    zeros
}

fn frame(version: &[u8], hook_type: &[u8], payload: &[u8]) -> Vec<u8> {
    let mut bytes: Vec<u8> = Vec::new();
    bytes.append(&mut create_bytes(&IDENTITY_BYTES, 4));
    bytes.append(&mut create_bytes(version, 4));
    bytes.append(&mut create_bytes(hook_type, 8));
    bytes.extend_from_slice(payload);
    bytes
}

#[test]
fn it_can_parse_protocol() {
    let mut identity_bytes = create_bytes(&IDENTITY_BYTES, 4);
    let mut version_bytes = create_bytes(b"v1", 4);
    let mut hook_type_bytes = create_bytes(b"default", 8);
    let mut bytes: Vec<u8> = Vec::new();
    bytes.append(&mut identity_bytes);
    bytes.append(&mut version_bytes);
    bytes.append(&mut hook_type_bytes);
    let protocol = HookProtocol::<Vec<u8>>::new(bytes).unwrap();
    assert_eq!(String::from("default"), protocol.hook_type);
    assert_eq!(String::from("v1"), protocol.version);
}

#[test]
fn it_should_panics() {
    let mut version_bytes = create_bytes(b"v1", 4);
    let mut hook_type_bytes = create_bytes(b"default", 8);
    let mut bytes: Vec<u8> = Vec::new();
    bytes.append(&mut version_bytes);
    bytes.append(&mut hook_type_bytes);
    let result = HookProtocol::<Value>::new(bytes.clone());
    assert_eq!(result.is_err(), true);
    let result = HookProtocol::<Vec<u8>>::new(bytes);
    assert_eq!(result.is_err(), true);
}

#[test]
fn should_have_empty_version_and_data() {
    let mut identity_bytes = create_bytes(&IDENTITY_BYTES, 4);
    let mut bytes: Vec<u8> = Vec::new();
    bytes.append(&mut identity_bytes);
    let protocol = HookProtocol::<Vec<u8>>::new(bytes).unwrap();
    let empty_string = String::from("");
    assert_eq!(empty_string, protocol.hook_type);
    assert_eq!(empty_string, protocol.version);
    assert_eq!(protocol.data, Vec::<u8>::new());
}

#[test]
fn it_should_be_protocol() {
    let mut identity_bytes = create_bytes(&IDENTITY_BYTES, 4);
    let mut bytes: Vec<u8> = Vec::new();
    bytes.append(&mut identity_bytes);
    assert_eq!(HookProtocol::is_hook_protocol(bytes), true);
}

#[test]
fn it_should_not_be_protocol() {
    let mut identity_bytes = create_bytes(&[99, 99], 2);
    let mut bytes: Vec<u8> = Vec::new();
    bytes.append(&mut identity_bytes);
    assert_eq!(false, HookProtocol::is_hook_protocol(bytes));
}

#[test]
fn layout_constants_have_their_documented_values() {
    assert_eq!(IDENTITY_BYTES, [0x99, 0x99, 0x99, 0x99]);
    assert_eq!(IDENTITY_BYTES_LENGTH, 4);
    assert_eq!(VERSION_BYTES, 4);
    assert_eq!(HOOK_TYPE_BYTES, 8);
    assert_eq!(DATA_OFFSET, 16);
    assert_eq!(HOOK_PORT, 7070);
    assert_eq!(VERSION, "v1");
    assert_eq!(HOOK_TYPE, "v1");
}

#[test]
fn identity_gate_wants_all_four_bytes() {
    assert!(!HookProtocol::is_hook_protocol(vec![]));
    assert!(!HookProtocol::is_hook_protocol(vec![0x99]));
    assert!(!HookProtocol::is_hook_protocol(vec![0x99, 0x99, 0x99]));
    assert!(HookProtocol::is_hook_protocol(vec![0x99, 0x99, 0x99, 0x99]));
    assert!(HookProtocol::is_hook_protocol(vec![0x99, 0x99, 0x99, 0x99, 0, 1, 2]));
}

#[test]
fn identity_gate_refuses_any_differing_byte() {
    for at in 0..4 {
        let mut bytes = vec![0x99, 0x99, 0x99, 0x99, 0x99];
        bytes[at] = 0x98;
        assert!(!HookProtocol::is_hook_protocol(bytes));
    }
    assert!(!HookProtocol::is_hook_protocol(vec![99, 99, 99, 99]));
    assert!(!HookProtocol::is_hook_protocol(vec![0, 0x99, 0x99, 0x99, 0x99]));
}

#[test]
fn decoding_without_the_identity_is_a_mismatch() {
    let inputs: Vec<Vec<u8>> = vec![
        vec![],
        vec![0x99, 0x99, 0x99],
        vec![0x99, 0x99, 0x99, 0x98, b'v', b'1', 0, 0],
        b"GET / HTTP/1.1\r\n\r\n".to_vec(),
    ];
    for bytes in inputs {
        assert_eq!(
            HookProtocol::<Vec<u8>>::new(bytes.clone()).err(),
            Some(HookError::IdentityMismatch)
        );
        assert_eq!(HookProtocol::<Value>::new(bytes).err(), Some(HookError::IdentityMismatch));
    }
}

#[test]
fn decoding_reads_all_three_fields() {
    let protocol = HookProtocol::<Vec<u8>>::new(frame(b"v1", b"default", b"hello")).unwrap();
    assert_eq!(protocol.version, "v1");
    assert_eq!(protocol.hook_type, "default");
    assert_eq!(protocol.bytes, b"hello".to_vec());
    assert_eq!(protocol.data, b"hello".to_vec());
}

#[test]
fn decoding_reads_full_width_fields() {
    let protocol = HookProtocol::<Vec<u8>>::new(frame(b"abcd", b"12345678", b"x")).unwrap();
    assert_eq!(protocol.version, "abcd");
    assert_eq!(protocol.hook_type, "12345678");
    assert_eq!(protocol.data, vec![b'x']);
}

#[test]
fn padded_version_field_decodes_to_its_text() {
    let mut bytes = IDENTITY_BYTES.to_vec();
    bytes.extend_from_slice(&[0x76, 0x31, 0x00, 0x00]);
    let protocol = HookProtocol::<Vec<u8>>::new(bytes).unwrap();
    assert_eq!(protocol.version, "v1");
    assert_eq!(protocol.hook_type, "");
    assert_eq!(protocol.data, Vec::<u8>::new());
}

#[test]
fn buffer_that_ends_inside_a_field_yields_what_is_there() {
    let mut bytes = IDENTITY_BYTES.to_vec();
    bytes.extend_from_slice(b"v");
    let protocol = HookProtocol::<Vec<u8>>::new(bytes).unwrap();
    assert_eq!(protocol.version, "v");
    assert_eq!(protocol.hook_type, "");
    assert!(protocol.data.is_empty());

    let mut bytes = IDENTITY_BYTES.to_vec();
    bytes.extend_from_slice(b"v1\0\0de");
    let protocol = HookProtocol::<Vec<u8>>::new(bytes).unwrap();
    assert_eq!(protocol.version, "v1");
    assert_eq!(protocol.hook_type, "de");
    assert!(protocol.data.is_empty());
}

#[test]
fn zero_bytes_are_stripped_wherever_they_stand() {
    let mut bytes = IDENTITY_BYTES.to_vec();
    bytes.extend_from_slice(&[0, b'v', 0, b'1']);
    bytes.extend_from_slice(&[b'a', 0, 0, b'b', 0, b'c', 0, 0]);
    bytes.extend_from_slice(&[1, 0, 2, 0, 0, 3]);
    let protocol = HookProtocol::<Vec<u8>>::new(bytes).unwrap();
    assert_eq!(protocol.version, "v1");
    assert_eq!(protocol.hook_type, "abc");
    assert_eq!(protocol.bytes, vec![1, 2, 3]);
    assert_eq!(protocol.data, vec![1, 2, 3]);
}

#[test]
fn header_text_with_a_nul_does_not_round_trip() {
    let protocol = HookProtocol::<Vec<u8>>::new(frame(b"a\0b", b"h", b"")).unwrap();
    assert_eq!(protocol.version, "ab");
}

#[test]
fn multibyte_header_text_is_read_as_utf8() {
    let protocol =
        HookProtocol::<Vec<u8>>::new(frame("éab".as_bytes(), "日本".as_bytes(), b"")).unwrap();
    assert_eq!(protocol.version, "éab");
    assert_eq!(protocol.hook_type, "日本");
}

#[test]
fn version_that_is_not_utf8_is_invalid_encoding() {
    let bytes = frame(&[0xff, 0xfe], b"default", b"{}");
    assert_eq!(
        HookProtocol::<Vec<u8>>::new(bytes.clone()).err(),
        Some(HookError::InvalidEncoding)
    );
    assert_eq!(HookProtocol::<Value>::new(bytes).err(), Some(HookError::InvalidEncoding));
}

#[test]
fn hook_type_that_is_not_utf8_is_invalid_encoding() {
    let bytes = frame(b"v1", &[b'a', 0xc3], b"{}");
    assert_eq!(
        HookProtocol::<Vec<u8>>::new(bytes.clone()).err(),
        Some(HookError::InvalidEncoding)
    );
    assert_eq!(HookProtocol::<Value>::new(bytes).err(), Some(HookError::InvalidEncoding));
}

#[test]
fn utf8_is_judged_after_the_zero_bytes_are_gone() {
    let mut bytes = IDENTITY_BYTES.to_vec();
    bytes.extend_from_slice(&[0xc3, 0x00, 0xa9, 0x00]);
    let protocol = HookProtocol::<Vec<u8>>::new(bytes).unwrap();
    assert_eq!(protocol.version, "é");
}

#[test]
fn payload_bytes_need_not_be_utf8() {
    let protocol = HookProtocol::<Vec<u8>>::new(frame(b"v1", b"raw", &[0xff, 0x80])).unwrap();
    assert_eq!(protocol.data, vec![0xff, 0x80]);
}

#[test]
fn json_payload_is_parsed() {
    let protocol =
        HookProtocol::<Value>::new(frame(b"v1", b"default", br#"{"id":7,"tags":["a",null]}"#))
            .unwrap();
    let mut object = serde_json::Map::new();
    object.insert(String::from("id"), Value::Number(Number::from(7)));
    object.insert(
        String::from("tags"),
        Value::Array(vec![Value::String(String::from("a")), Value::Null]),
    );
    assert_eq!(protocol.data, Value::Object(object));
    assert_eq!(protocol.version, "v1");
    assert_eq!(protocol.hook_type, "default");
    assert_eq!(protocol.bytes, br#"{"id":7,"tags":["a",null]}"#.to_vec());
}

#[test]
fn json_payload_is_parsed_after_the_zero_bytes_are_gone() {
    let protocol = HookProtocol::<Value>::new(frame(b"v1", b"x", b"tr\0ue")).unwrap();
    assert_eq!(protocol.data, Value::Bool(true));
    assert_eq!(protocol.bytes, b"true".to_vec());
}

#[test]
fn payload_that_is_not_json_is_malformed() {
    assert_eq!(
        HookProtocol::<Value>::new(frame(b"v1", b"default", b"{not json")).err(),
        Some(HookError::MalformedPayload)
    );
    assert_eq!(
        HookProtocol::<Value>::new(frame(b"v1", b"default", b"1 2")).err(),
        Some(HookError::MalformedPayload)
    );
}

#[test]
fn empty_payload_is_no_json_value() {
    assert_eq!(
        HookProtocol::<Value>::new(frame(b"v1", b"default", b"")).err(),
        Some(HookError::MalformedPayload)
    );
    assert_eq!(
        HookProtocol::<Value>::new(IDENTITY_BYTES.to_vec()).err(),
        Some(HookError::MalformedPayload)
    );
}

#[test]
fn header_errors_come_before_payload_errors() {
    assert_eq!(
        HookProtocol::<Value>::new(frame(&[0xff], b"default", b"{not json")).err(),
        Some(HookError::InvalidEncoding)
    );
    let mut bytes = frame(&[0xff], b"default", b"{not json");
    bytes[0] = 0;
    assert_eq!(HookProtocol::<Value>::new(bytes).err(), Some(HookError::IdentityMismatch));
}

#[test]
fn with_payload_keeps_the_frame_and_takes_the_value() {
    let frame = HookProtocol::<Vec<u8>>::new(frame(b"v1", b"kind", b"[1]")).unwrap();
    let protocol =
        HookProtocol::<Value>::with_payload(frame, serde_json::from_slice(b"[1]")).unwrap();
    assert_eq!(protocol.version, "v1");
    assert_eq!(protocol.hook_type, "kind");
    assert_eq!(protocol.bytes, b"[1]".to_vec());
    assert_eq!(protocol.data, Value::Array(vec![Value::Number(Number::from(1))]));
}

#[test]
fn with_payload_turns_a_parse_error_into_malformed_payload() {
    let frame = HookProtocol::<Vec<u8>>::new(frame(b"v1", b"kind", b"[1")).unwrap();
    let result = HookProtocol::<Value>::with_payload(frame, serde_json::from_slice(b"[1"));
    assert_eq!(result.err(), Some(HookError::MalformedPayload));
}
