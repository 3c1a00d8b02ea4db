//! Content addressing: a stable, fixed-width key derived from a function's
//! exported name and declared parameter shape.
//!
//! The pair is first laid out as a canonical byte string — the shape's tag
//! bytes, a separator byte that can occur in neither part, then the name's
//! UTF-8 bytes — and that string is hashed with 64-bit FNV-1a. Derivation is
//! a pure function of its inputs, so a host can precompute a key from an
//! externally known signature without loading the module. Distinct
//! name/shape pairs always have distinct canonical byte strings
//! ([`lemma_canonical_injective`]); keys of distinct pairs can therefore
//! coincide only where the hash itself collides.

use crate::codec::{tag_byte, tag_byte_of, TypeTag};
use vstd::prelude::*;
use vstd::utf8::{encode_utf8, encode_utf8_decode_utf8};

verus! {

/// FNV-1a 64-bit offset basis.
pub const FNV_OFFSET_BASIS: u64 = 0xcbf29ce484222325;

/// FNV-1a 64-bit prime.
pub const FNV_PRIME: u64 = 0x100000001b3;

/// Separator between the shape's tag bytes and the name's UTF-8 bytes in the
/// canonical layout. No tag byte equals it, and no byte of a valid UTF-8
/// encoding equals it either.
pub const SHAPE_NAME_SEPARATOR: u8 = 0xff;

/// One FNV-1a step: fold a byte into the running hash.
pub open spec fn fnv1a_step(h: u64, b: u8) -> u64 {
    (h ^ (b as u64)).wrapping_mul(FNV_PRIME)
}

/// FNV-1a over a byte string, starting from the given running hash.
pub open spec fn fnv1a_acc(bytes: Seq<u8>, h: u64) -> u64
    decreases bytes.len(),
{
    if bytes.len() == 0 {
        h
    } else {
        fnv1a_acc(bytes.drop_first(), fnv1a_step(h, bytes[0]))
    }
}

/// FNV-1a 64-bit hash of a byte string.
pub open spec fn fnv1a(bytes: Seq<u8>) -> u64 {
    fnv1a_acc(bytes, FNV_OFFSET_BASIS)
}

/// Canonical byte layout of a (name, parameter shape) pair: the shape's tag
/// bytes, the separator, then the name's UTF-8 bytes.
pub open spec fn canonical_of(name: Seq<char>, shape: Seq<TypeTag>) -> Seq<u8> {
    shape.map_values(|t: TypeTag| tag_byte(t)) + seq![SHAPE_NAME_SEPARATOR] + encode_utf8(name)
}

/// The function key of a (name, parameter shape) pair.
pub open spec fn key_of(name: Seq<char>, shape: Seq<TypeTag>) -> u64 {
    fnv1a(canonical_of(name, shape))
}

/// Executable FNV-1a 64-bit hash.
fn fnv1a_bytes(bytes: &Vec<u8>) -> (h: u64)
    ensures
        h == fnv1a(bytes@),
{
    let mut h: u64 = FNV_OFFSET_BASIS;
    let mut i: usize = 0;
    proof {
        assert(bytes@.skip(0) =~= bytes@);
    }
    while i < bytes.len()
        invariant
            0 <= i <= bytes@.len(),
            fnv1a_acc(bytes@.skip(i as int), h) == fnv1a(bytes@),
        decreases bytes@.len() - i,
    {
        proof {
            assert(bytes@.skip(i as int).drop_first() =~= bytes@.skip(i as int + 1));
        }
        h = (h ^ (bytes[i] as u64)).wrapping_mul(FNV_PRIME);
        i = i + 1;
    }
    proof {
        assert(bytes@.skip(i as int) =~= Seq::<u8>::empty());
    }
    h
}

/// Derive the stable key for an exported name and its declared parameter
/// shape. Deterministic: the result is a pure function of the two inputs,
/// identical across processes and builds.
pub fn derive_key(name: &str, shape: &Vec<TypeTag>) -> (k: u64)
    ensures
        k == key_of(name@, shape@),
{
    let mut canonical: Vec<u8> = Vec::new();
    let mut i: usize = 0;
    while i < shape.len()
        invariant
            0 <= i <= shape@.len(),
            canonical@.len() == i,
            forall|j: int| 0 <= j < i ==> canonical@[j] == tag_byte(#[trigger] shape@[j]),
        decreases shape@.len() - i,
    {
        canonical.push(tag_byte_of(shape[i]));
        i = i + 1;
    }
    canonical.push(SHAPE_NAME_SEPARATOR);
    let mut name_bytes = name.as_bytes_vec();
    canonical.append(&mut name_bytes);
    proof {
        assert(canonical@ =~= canonical_of(name@, shape@));
    }
    fnv1a_bytes(&canonical)
}

/// Law: key derivation is deterministic — identical names and shapes always
/// yield identical keys.
pub proof fn lemma_derive_key_deterministic(
    name1: Seq<char>,
    shape1: Seq<TypeTag>,
    name2: Seq<char>,
    shape2: Seq<TypeTag>,
)
    requires
        name1 == name2,
        shape1 == shape2,
    ensures
        key_of(name1, shape1) == key_of(name2, shape2),
{
}

/// Law (the part of collision freedom that holds unconditionally): distinct
/// (name, shape) pairs always have distinct canonical byte strings. Equal
/// keys for distinct pairs can therefore arise only as collisions of the
/// 64-bit hash itself.
pub proof fn lemma_canonical_injective(
    name1: Seq<char>,
    shape1: Seq<TypeTag>,
    name2: Seq<char>,
    shape2: Seq<TypeTag>,
)
    requires
        canonical_of(name1, shape1) == canonical_of(name2, shape2),
    ensures
        name1 == name2,
        shape1 == shape2,
{
    let c1 = canonical_of(name1, shape1);
    let c2 = canonical_of(name2, shape2);
    assert forall|t: TypeTag| tag_byte(t) != SHAPE_NAME_SEPARATOR by {
        match t {
            TypeTag::Bool => {},
            TypeTag::U32 => {},
            TypeTag::U64 => {},
            TypeTag::I32 => {},
            TypeTag::I64 => {},
            TypeTag::Text => {},
            TypeTag::Bytes => {},
        }
    }
    // The first separator byte stands right after the tag bytes, so equal
    // canonical strings put it at the same index: the shapes have one length.
    assert(shape1.len() == shape2.len()) by {
        if shape1.len() < shape2.len() {
            assert(c1[shape1.len() as int] == SHAPE_NAME_SEPARATOR);
            assert(c2[shape1.len() as int] == tag_byte(shape2[shape1.len() as int]));
        } else if shape2.len() < shape1.len() {
            assert(c2[shape2.len() as int] == SHAPE_NAME_SEPARATOR);
            assert(c1[shape2.len() as int] == tag_byte(shape1[shape2.len() as int]));
        }
    }
    assert forall|j: int| 0 <= j < shape1.len() implies shape1[j] == shape2[j] by {
        assert(c1[j] == tag_byte(shape1[j]));
        assert(c2[j] == tag_byte(shape2[j]));
        match (shape1[j], shape2[j]) {
            _ => {},
        }
    }
    assert(shape1 =~= shape2);
    assert(encode_utf8(name1) =~= encode_utf8(name2)) by {
        let off = shape1.len() + 1;
        assert(c1.len() == off + encode_utf8(name1).len());
        assert(c2.len() == off + encode_utf8(name2).len());
        assert forall|j: int| 0 <= j < encode_utf8(name1).len() implies encode_utf8(name1)[j]
            == encode_utf8(name2)[j] by {
            assert(c1[off + j] == encode_utf8(name1)[j]);
            assert(c2[off + j] == encode_utf8(name2)[j]);
        }
    }
    encode_utf8_decode_utf8(name1);
    encode_utf8_decode_utf8(name2);
}

} // verus!
