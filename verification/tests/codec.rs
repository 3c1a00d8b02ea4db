use contract_runtime::codec::{decode, encode, DecodeError, TypeTag, Value};

fn round_trip(v: Value, tag: TypeTag) {
    let bytes = encode(&v);
    assert_eq!(decode(bytes.as_slice(), tag), Ok(v));
}

#[test]
fn round_trip_bool() {
    round_trip(Value::Bool(true), TypeTag::Bool);
    round_trip(Value::Bool(false), TypeTag::Bool);
}

#[test]
fn round_trip_u32() {
    round_trip(Value::U32(0), TypeTag::U32);
    round_trip(Value::U32(0xdeadbeef), TypeTag::U32);
    round_trip(Value::U32(u32::MAX), TypeTag::U32);
}

#[test]
fn round_trip_u64() {
    round_trip(Value::U64(0), TypeTag::U64);
    round_trip(Value::U64(1 << 40), TypeTag::U64);
    round_trip(Value::U64(u64::MAX), TypeTag::U64);
}

#[test]
fn round_trip_i32() {
    round_trip(Value::I32(0), TypeTag::I32);
    round_trip(Value::I32(-1), TypeTag::I32);
    round_trip(Value::I32(i32::MIN), TypeTag::I32);
    round_trip(Value::I32(i32::MAX), TypeTag::I32);
}

#[test]
fn round_trip_i64() {
    round_trip(Value::I64(0), TypeTag::I64);
    round_trip(Value::I64(-123456789012345), TypeTag::I64);
    round_trip(Value::I64(i64::MIN), TypeTag::I64);
    round_trip(Value::I64(i64::MAX), TypeTag::I64);
}

#[test]
fn round_trip_text() {
    round_trip(Value::Text(String::new()), TypeTag::Text);
    round_trip(Value::Text(String::from("World")), TypeTag::Text);
    round_trip(Value::Text(String::from("na\u{ef}ve \u{1F600} text")), TypeTag::Text);
}

#[test]
fn round_trip_bytes() {
    round_trip(Value::Bytes(Vec::new()), TypeTag::Bytes);
    round_trip(Value::Bytes(vec![0, 1, 2, 255, 254]), TypeTag::Bytes);
}

#[test]
fn encode_is_deterministic() {
    let v = Value::Text(String::from("same value"));
    assert_eq!(encode(&v), encode(&v.clone()));
    let w = Value::U64(77);
    assert_eq!(encode(&w), encode(&w.clone()));
}

#[test]
fn encode_layout_is_tag_then_payload() {
    // Bool: tag byte 1, then one payload byte.
    assert_eq!(encode(&Value::Bool(true)), vec![1, 1]);
    assert_eq!(encode(&Value::Bool(false)), vec![1, 0]);
    // U32: tag byte 2, then four little-endian bytes.
    assert_eq!(encode(&Value::U32(0x01020304)), vec![2, 4, 3, 2, 1]);
    // Text: tag byte 6, a 64-bit little-endian length, then UTF-8 bytes.
    assert_eq!(
        encode(&Value::Text(String::from("ab"))),
        vec![6, 2, 0, 0, 0, 0, 0, 0, 0, b'a', b'b']
    );
}

#[test]
fn decode_empty_input_is_truncated() {
    assert_eq!(decode(&[], TypeTag::U32), Err(DecodeError::TruncatedInput));
    assert_eq!(decode(&[], TypeTag::Text), Err(DecodeError::TruncatedInput));
}

#[test]
fn decode_wrong_tag_is_mismatch() {
    let bytes = encode(&Value::U32(7));
    assert_eq!(decode(bytes.as_slice(), TypeTag::U64), Err(DecodeError::TagMismatch));
    let bytes = encode(&Value::Text(String::from("x")));
    assert_eq!(decode(bytes.as_slice(), TypeTag::Bytes), Err(DecodeError::TagMismatch));
}

#[test]
fn decode_unknown_tag_byte_is_rejected() {
    // 0xaa names no kind, so it cannot agree with any expected tag.
    assert_eq!(decode(&[0xaa, 0, 0, 0, 0], TypeTag::U32), Err(DecodeError::TagMismatch));
}

#[test]
fn decode_short_input_is_truncated() {
    let mut bytes = encode(&Value::U64(500));
    bytes.pop();
    assert_eq!(decode(bytes.as_slice(), TypeTag::U64), Err(DecodeError::TruncatedInput));
    // A bare tag byte is below every kind's minimum.
    assert_eq!(decode(&[1], TypeTag::Bool), Err(DecodeError::TruncatedInput));
}

#[test]
fn decode_bad_bool_byte_is_invalid() {
    assert_eq!(decode(&[1, 2], TypeTag::Bool), Err(DecodeError::InvalidEncoding));
}

#[test]
fn decode_trailing_garbage_is_invalid() {
    let mut bytes = encode(&Value::U32(7));
    bytes.push(0);
    assert_eq!(decode(bytes.as_slice(), TypeTag::U32), Err(DecodeError::InvalidEncoding));
}

#[test]
fn decode_length_prefix_longer_than_body_is_truncated() {
    let mut bytes = encode(&Value::Bytes(vec![9, 9]));
    // Claim three payload bytes while only two are present.
    bytes[1] = 3;
    assert_eq!(decode(bytes.as_slice(), TypeTag::Bytes), Err(DecodeError::TruncatedInput));
}

#[test]
fn decode_length_prefix_shorter_than_body_is_invalid() {
    let mut bytes = encode(&Value::Bytes(vec![9, 9]));
    // Claim one payload byte while two are present.
    bytes[1] = 1;
    assert_eq!(decode(bytes.as_slice(), TypeTag::Bytes), Err(DecodeError::InvalidEncoding));
}

#[test]
fn decode_non_utf8_text_is_invalid() {
    let mut bytes = encode(&Value::Text(String::from("ab")));
    // 0xff can appear in no UTF-8 encoding.
    let last = bytes.len() - 1;
    bytes[last] = 0xff;
    assert_eq!(decode(bytes.as_slice(), TypeTag::Text), Err(DecodeError::InvalidEncoding));
}
