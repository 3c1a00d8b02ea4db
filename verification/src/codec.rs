//! Primitive codec: a tagged, flat byte representation for the fixed set of
//! primitive value kinds that may cross the guest/host boundary.
//!
//! Every encoded value starts with one tag byte naming its kind, followed by
//! the payload. Integers are little-endian and fixed width; text and byte
//! sequences carry a 64-bit little-endian length prefix ahead of their
//! contents, and text is UTF-8. Encoding is deterministic: the same logical
//! value always yields the same bytes. Decoding checks the stored tag against
//! the expected one and rejects anything malformed rather than reinterpreting
//! bytes.

use vstd::bytes::*;
use vstd::prelude::*;
use vstd::utf8::*;

verus! {

/// Type tag carried on the wire ahead of every encoded value.
#[derive(Clone, Copy, Debug, PartialEq, Eq, Structural)]
pub enum TypeTag {
    Bool,
    U32,
    U64,
    I32,
    I64,
    Text,
    Bytes,
}

/// A primitive value that can cross the guest/host boundary.
#[derive(Clone, Debug, PartialEq, Eq)]
pub enum Value {
    Bool(bool),
    U32(u32),
    U64(u64),
    I32(i32),
    I64(i64),
    Text(String),
    Bytes(Vec<u8>),
}

/// Mathematical model of a [`Value`]: text as a sequence of characters,
/// byte payloads as sequences of bytes.
pub enum ValueView {
    Bool(bool),
    U32(u32),
    U64(u64),
    I32(i32),
    I64(i64),
    Text(Seq<char>),
    Bytes(Seq<u8>),
}

impl View for Value {
    type V = ValueView;

    open spec fn view(&self) -> ValueView {
        match self {
            Value::Bool(b) => ValueView::Bool(*b),
            Value::U32(x) => ValueView::U32(*x),
            Value::U64(x) => ValueView::U64(*x),
            Value::I32(x) => ValueView::I32(*x),
            Value::I64(x) => ValueView::I64(*x),
            Value::Text(s) => ValueView::Text(s@),
            Value::Bytes(b) => ValueView::Bytes(b@),
        }
    }
}

/// Reasons a byte string is rejected by [`decode`].
#[derive(Clone, Copy, Debug, PartialEq, Eq, Structural)]
pub enum DecodeError {
    /// Fewer bytes are present than the expected tag's minimum.
    TruncatedInput,
    /// The stored tag disagrees with the expected tag.
    TagMismatch,
    /// A malformed length prefix, trailing garbage, or ill-formed payload
    /// (a boolean byte other than 0 or 1, or text that is not UTF-8).
    InvalidEncoding,
}

/// The tag a value carries on the wire.
pub open spec fn tag_of(v: ValueView) -> TypeTag {
    match v {
        ValueView::Bool(_) => TypeTag::Bool,
        ValueView::U32(_) => TypeTag::U32,
        ValueView::U64(_) => TypeTag::U64,
        ValueView::I32(_) => TypeTag::I32,
        ValueView::I64(_) => TypeTag::I64,
        ValueView::Text(_) => TypeTag::Text,
        ValueView::Bytes(_) => TypeTag::Bytes,
    }
}

/// The single wire byte that names a tag.
pub open spec fn tag_byte(t: TypeTag) -> u8 {
    match t {
        TypeTag::Bool => 1,
        TypeTag::U32 => 2,
        TypeTag::U64 => 3,
        TypeTag::I32 => 4,
        TypeTag::I64 => 5,
        TypeTag::Text => 6,
        TypeTag::Bytes => 7,
    }
}

/// A value whose variable-length payload fits the wire's 64-bit length field.
/// Every value held in an executable `String` or `Vec` satisfies this.
pub open spec fn valid_view(v: ValueView) -> bool {
    match v {
        ValueView::Text(s) => encode_utf8(s).len() <= u64::MAX,
        ValueView::Bytes(b) => b.len() <= u64::MAX,
        _ => true,
    }
}

/// Payload of a value: everything after the tag byte.
pub open spec fn spec_payload(v: ValueView) -> Seq<u8> {
    match v {
        ValueView::Bool(b) => seq![if b { 1u8 } else { 0u8 }],
        ValueView::U32(x) => spec_u32_to_le_bytes(x),
        ValueView::U64(x) => spec_u64_to_le_bytes(x),
        ValueView::I32(x) => spec_u32_to_le_bytes(x as u32),
        ValueView::I64(x) => spec_u64_to_le_bytes(x as u64),
        ValueView::Text(s) => spec_u64_to_le_bytes(encode_utf8(s).len() as u64) + encode_utf8(s),
        ValueView::Bytes(b) => spec_u64_to_le_bytes(b.len() as u64) + b,
    }
}

/// Full wire encoding of a value: its tag byte followed by its payload.
pub open spec fn spec_encode(v: ValueView) -> Seq<u8> {
    seq![tag_byte(tag_of(v))] + spec_payload(v)
}

/// Fewest bytes any encoding under the given tag can have.
pub open spec fn min_encoded_len(t: TypeTag) -> int {
    match t {
        TypeTag::Bool => 2,
        TypeTag::U32 => 5,
        TypeTag::U64 => 9,
        TypeTag::I32 => 5,
        TypeTag::I64 => 9,
        TypeTag::Text => 9,
        TypeTag::Bytes => 9,
    }
}

/// What [`decode`] returns, for every byte string and expected tag.
pub open spec fn spec_decode(bytes: Seq<u8>, expected: TypeTag) -> Result<ValueView, DecodeError> {
    if bytes.len() < 1 {
        Err(DecodeError::TruncatedInput)
    } else if bytes[0] != tag_byte(expected) {
        Err(DecodeError::TagMismatch)
    } else if bytes.len() < min_encoded_len(expected) {
        Err(DecodeError::TruncatedInput)
    } else {
        match expected {
            TypeTag::Bool => {
                if bytes.len() > 2 {
                    Err(DecodeError::InvalidEncoding)
                } else if bytes[1] == 1 {
                    Ok(ValueView::Bool(true))
                } else if bytes[1] == 0 {
                    Ok(ValueView::Bool(false))
                } else {
                    Err(DecodeError::InvalidEncoding)
                }
            },
            TypeTag::U32 => {
                if bytes.len() > 5 {
                    Err(DecodeError::InvalidEncoding)
                } else {
                    Ok(ValueView::U32(spec_u32_from_le_bytes(bytes.subrange(1, 5))))
                }
            },
            TypeTag::U64 => {
                if bytes.len() > 9 {
                    Err(DecodeError::InvalidEncoding)
                } else {
                    Ok(ValueView::U64(spec_u64_from_le_bytes(bytes.subrange(1, 9))))
                }
            },
            TypeTag::I32 => {
                if bytes.len() > 5 {
                    Err(DecodeError::InvalidEncoding)
                } else {
                    Ok(ValueView::I32(spec_u32_from_le_bytes(bytes.subrange(1, 5)) as i32))
                }
            },
            TypeTag::I64 => {
                if bytes.len() > 9 {
                    Err(DecodeError::InvalidEncoding)
                } else {
                    Ok(ValueView::I64(spec_u64_from_le_bytes(bytes.subrange(1, 9)) as i64))
                }
            },
            TypeTag::Text => {
                let n = spec_u64_from_le_bytes(bytes.subrange(1, 9));
                if bytes.len() - 9 < n {
                    Err(DecodeError::TruncatedInput)
                } else if bytes.len() - 9 > n {
                    Err(DecodeError::InvalidEncoding)
                } else {
                    let payload = bytes.subrange(9, bytes.len() as int);
                    if valid_utf8(payload) {
                        Ok(ValueView::Text(decode_utf8(payload)))
                    } else {
                        Err(DecodeError::InvalidEncoding)
                    }
                }
            },
            TypeTag::Bytes => {
                let n = spec_u64_from_le_bytes(bytes.subrange(1, 9));
                if bytes.len() - 9 < n {
                    Err(DecodeError::TruncatedInput)
                } else if bytes.len() - 9 > n {
                    Err(DecodeError::InvalidEncoding)
                } else {
                    Ok(ValueView::Bytes(bytes.subrange(9, bytes.len() as int)))
                }
            },
        }
    }
}

/// Executable mirror of [`tag_of`].
pub fn value_tag(v: &Value) -> (t: TypeTag)
    ensures
        t == tag_of(v@),
{
    match v {
        Value::Bool(_) => TypeTag::Bool,
        Value::U32(_) => TypeTag::U32,
        Value::U64(_) => TypeTag::U64,
        Value::I32(_) => TypeTag::I32,
        Value::I64(_) => TypeTag::I64,
        Value::Text(_) => TypeTag::Text,
        Value::Bytes(_) => TypeTag::Bytes,
    }
}

/// Executable mirror of [`tag_byte`].
pub fn tag_byte_of(t: TypeTag) -> (b: u8)
    ensures
        b == tag_byte(t),
{
    match t {
        TypeTag::Bool => 1,
        TypeTag::U32 => 2,
        TypeTag::U64 => 3,
        TypeTag::I32 => 4,
        TypeTag::I64 => 5,
        TypeTag::Text => 6,
        TypeTag::Bytes => 7,
    }
}

/// Encode a value into its deterministic wire representation. Every value an
/// executable `String` or `Vec` can hold fits the wire's 64-bit length
/// field, which the second postcondition records for callers.
pub fn encode(v: &Value) -> (r: Vec<u8>)
    ensures
        r@ == spec_encode(v@),
        valid_view(v@),
{
    let mut out: Vec<u8> = Vec::new();
    out.push(tag_byte_of(value_tag(v)));
    match v {
        Value::Bool(b) => {
            out.push(if *b { 1 } else { 0 });
        },
        Value::U32(x) => {
            let mut p = u32_to_le_bytes(*x);
            out.append(&mut p);
        },
        Value::U64(x) => {
            let mut p = u64_to_le_bytes(*x);
            out.append(&mut p);
        },
        Value::I32(x) => {
            let mut p = u32_to_le_bytes(*x as u32);
            out.append(&mut p);
        },
        Value::I64(x) => {
            let mut p = u64_to_le_bytes(*x as u64);
            out.append(&mut p);
        },
        Value::Text(s) => {
            let mut payload = s.as_str().as_bytes_vec();
            let mut len_prefix = u64_to_le_bytes(payload.len() as u64);
            out.append(&mut len_prefix);
            out.append(&mut payload);
        },
        Value::Bytes(bs) => {
            let mut len_prefix = u64_to_le_bytes(bs.len() as u64);
            out.append(&mut len_prefix);
            out.extend_from_slice(bs.as_slice());
        },
    }
    proof {
        assert(out@ =~= spec_encode(v@));
    }
    out
}

/// Law: decoding an encoded value under the value's own tag gives the value
/// back. Holds for every supported primitive kind.
pub proof fn lemma_encode_decode(v: ValueView)
    requires
        valid_view(v),
    ensures
        spec_decode(spec_encode(v), tag_of(v)) == Ok::<ValueView, DecodeError>(v),
{
    let enc = spec_encode(v);
    assert(enc[0] == tag_byte(tag_of(v)));
    match v {
        ValueView::Bool(b) => {
            assert(enc.len() == 2);
            assert(enc[1] == (if b { 1u8 } else { 0u8 }));
        },
        ValueView::U32(x) => {
            lemma_auto_spec_u32_to_from_le_bytes();
            assert(enc.subrange(1, 5) =~= spec_u32_to_le_bytes(x));
        },
        ValueView::U64(x) => {
            lemma_auto_spec_u64_to_from_le_bytes();
            assert(enc.subrange(1, 9) =~= spec_u64_to_le_bytes(x));
        },
        ValueView::I32(x) => {
            lemma_auto_spec_u32_to_from_le_bytes();
            assert(enc.subrange(1, 5) =~= spec_u32_to_le_bytes(x as u32));
            assert(((x as u32) as i32) == x) by (bit_vector);
        },
        ValueView::I64(x) => {
            lemma_auto_spec_u64_to_from_le_bytes();
            assert(enc.subrange(1, 9) =~= spec_u64_to_le_bytes(x as u64));
            assert(((x as u64) as i64) == x) by (bit_vector);
        },
        ValueView::Text(s) => {
            lemma_auto_spec_u64_to_from_le_bytes();
            let body = encode_utf8(s);
            let n = body.len() as u64;
            assert(enc.subrange(1, 9) =~= spec_u64_to_le_bytes(n));
            assert(enc.len() - 9 == n);
            assert(enc.subrange(9, enc.len() as int) =~= body);
            encode_utf8_valid_utf8(s);
            encode_utf8_decode_utf8(s);
        },
        ValueView::Bytes(b) => {
            lemma_auto_spec_u64_to_from_le_bytes();
            let n = b.len() as u64;
            assert(enc.subrange(1, 9) =~= spec_u64_to_le_bytes(n));
            assert(enc.len() - 9 == n);
            assert(enc.subrange(9, enc.len() as int) =~= b);
        },
    }
}

/// Law: decoding is unambiguous — a byte string decodes successfully only to
/// the value whose canonical encoding it is. Together with
/// [`lemma_encode_decode`] this makes the wire format a bijection between
/// encodable values and accepted byte strings.
pub proof fn lemma_decode_canonical(bytes: Seq<u8>, expected: TypeTag, v: ValueView)
    requires
        spec_decode(bytes, expected) == Ok::<ValueView, DecodeError>(v),
    ensures
        bytes == spec_encode(v),
        tag_of(v) == expected,
        valid_view(v),
{
    match expected {
        TypeTag::Bool => {
            assert(bytes =~= spec_encode(v));
        },
        TypeTag::U32 => {
            lemma_auto_spec_u32_to_from_le_bytes();
            let x = spec_u32_from_le_bytes(bytes.subrange(1, 5));
            assert(spec_u32_to_le_bytes(x) =~= bytes.subrange(1, 5));
            assert(bytes =~= spec_encode(v));
        },
        TypeTag::U64 => {
            lemma_auto_spec_u64_to_from_le_bytes();
            let x = spec_u64_from_le_bytes(bytes.subrange(1, 9));
            assert(spec_u64_to_le_bytes(x) =~= bytes.subrange(1, 9));
            assert(bytes =~= spec_encode(v));
        },
        TypeTag::I32 => {
            lemma_auto_spec_u32_to_from_le_bytes();
            let x = spec_u32_from_le_bytes(bytes.subrange(1, 5));
            assert(((x as i32) as u32) == x) by (bit_vector);
            assert(spec_u32_to_le_bytes(x) =~= bytes.subrange(1, 5));
            assert(bytes =~= spec_encode(v));
        },
        TypeTag::I64 => {
            lemma_auto_spec_u64_to_from_le_bytes();
            let x = spec_u64_from_le_bytes(bytes.subrange(1, 9));
            assert(((x as i64) as u64) == x) by (bit_vector);
            assert(spec_u64_to_le_bytes(x) =~= bytes.subrange(1, 9));
            assert(bytes =~= spec_encode(v));
        },
        TypeTag::Text => {
            lemma_auto_spec_u64_to_from_le_bytes();
            let n = spec_u64_from_le_bytes(bytes.subrange(1, 9));
            let payload = bytes.subrange(9, bytes.len() as int);
            decode_utf8_encode_utf8(payload);
            assert(encode_utf8(decode_utf8(payload)) == payload);
            assert(payload.len() == n);
            assert(spec_u64_to_le_bytes(payload.len() as u64) =~= bytes.subrange(1, 9));
            assert(bytes =~= spec_encode(v));
        },
        TypeTag::Bytes => {
            lemma_auto_spec_u64_to_from_le_bytes();
            let n = spec_u64_from_le_bytes(bytes.subrange(1, 9));
            let payload = bytes.subrange(9, bytes.len() as int);
            assert(payload.len() == n);
            assert(spec_u64_to_le_bytes(payload.len() as u64) =~= bytes.subrange(1, 9));
            assert(bytes =~= spec_encode(v));
        },
    }
}

/// Relies on `String::from_utf8`: it returns `Ok` exactly when the bytes are
/// a valid UTF-8 encoding, and then the returned string's UTF-8 encoding is
/// those bytes.
#[verifier::external_body]
fn bytes_to_text(bytes: &[u8]) -> (r: Option<String>)
    ensures
        r is Some <==> valid_utf8(bytes@),
        r matches Some(s) ==> encode_utf8(s@) == bytes@,
{
    match String::from_utf8(bytes.to_vec()) {
        Ok(s) => Some(s),
        Err(_) => None,
    }
}

/// Decode a byte string that is expected to carry a value of the given tag.
/// Fails closed: a stored tag other than the expected one is a
/// [`DecodeError::TagMismatch`], too few bytes are a
/// [`DecodeError::TruncatedInput`], and anything else malformed is a
/// [`DecodeError::InvalidEncoding`], exactly as [`spec_decode`] lays out.
pub fn decode(bytes: &[u8], expected: TypeTag) -> (r: Result<Value, DecodeError>)
    ensures
        (match r {
            Ok(v) => spec_decode(bytes@, expected) == Ok::<ValueView, DecodeError>(v@),
            Err(e) => spec_decode(bytes@, expected) == Err::<ValueView, DecodeError>(e),
        }),
{
    let len = bytes.len();
    if len < 1 {
        return Err(DecodeError::TruncatedInput);
    }
    let stored = *vstd::slice::slice_index_get(bytes, 0);
    if stored != tag_byte_of(expected) {
        return Err(DecodeError::TagMismatch);
    }
    match expected {
        TypeTag::Bool => {
            if len < 2 {
                Err(DecodeError::TruncatedInput)
            } else if len > 2 {
                Err(DecodeError::InvalidEncoding)
            } else {
                let b = *vstd::slice::slice_index_get(bytes, 1);
                if b == 1 {
                    Ok(Value::Bool(true))
                } else if b == 0 {
                    Ok(Value::Bool(false))
                } else {
                    Err(DecodeError::InvalidEncoding)
                }
            }
        },
        TypeTag::U32 => {
            if len < 5 {
                Err(DecodeError::TruncatedInput)
            } else if len > 5 {
                Err(DecodeError::InvalidEncoding)
            } else {
                let x = u32_from_le_bytes(vstd::slice::slice_subrange(bytes, 1, 5));
                Ok(Value::U32(x))
            }
        },
        TypeTag::U64 => {
            if len < 9 {
                Err(DecodeError::TruncatedInput)
            } else if len > 9 {
                Err(DecodeError::InvalidEncoding)
            } else {
                let x = u64_from_le_bytes(vstd::slice::slice_subrange(bytes, 1, 9));
                Ok(Value::U64(x))
            }
        },
        TypeTag::I32 => {
            if len < 5 {
                Err(DecodeError::TruncatedInput)
            } else if len > 5 {
                Err(DecodeError::InvalidEncoding)
            } else {
                let x = u32_from_le_bytes(vstd::slice::slice_subrange(bytes, 1, 5));
                Ok(Value::I32(x as i32))
            }
        },
        TypeTag::I64 => {
            if len < 9 {
                Err(DecodeError::TruncatedInput)
            } else if len > 9 {
                Err(DecodeError::InvalidEncoding)
            } else {
                let x = u64_from_le_bytes(vstd::slice::slice_subrange(bytes, 1, 9));
                Ok(Value::I64(x as i64))
            }
        },
        TypeTag::Text => {
            if len < 9 {
                return Err(DecodeError::TruncatedInput);
            }
            let n = u64_from_le_bytes(vstd::slice::slice_subrange(bytes, 1, 9));
            let body_len = len - 9;
            if (body_len as u64) < n {
                Err(DecodeError::TruncatedInput)
            } else if (body_len as u64) > n {
                Err(DecodeError::InvalidEncoding)
            } else {
                let payload = vstd::slice::slice_subrange(bytes, 9, len);
                match bytes_to_text(payload) {
                    Some(s) => {
                        proof {
                            vstd::utf8::encode_utf8_decode_utf8(s@);
                        }
                        Ok(Value::Text(s))
                    },
                    None => Err(DecodeError::InvalidEncoding),
                }
            }
        },
        TypeTag::Bytes => {
            if len < 9 {
                return Err(DecodeError::TruncatedInput);
            }
            let n = u64_from_le_bytes(vstd::slice::slice_subrange(bytes, 1, 9));
            let body_len = len - 9;
            if (body_len as u64) < n {
                Err(DecodeError::TruncatedInput)
            } else if (body_len as u64) > n {
                Err(DecodeError::InvalidEncoding)
            } else {
                let payload = vstd::slice::slice_to_vec(vstd::slice::slice_subrange(bytes, 9, len));
                Ok(Value::Bytes(payload))
            }
        },
    }
}

} // verus!
