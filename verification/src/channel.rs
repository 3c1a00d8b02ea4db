//! Per-invocation channels across the guest/host boundary.
//!
//! The host fills an [`ArgumentChannel`] with encoded slots before an
//! invocation; the guest reads them back by zero-based index with
//! [`ArgumentChannel::get_arg`]. The guest hands its single result to the
//! host through a [`ReturnChannel`], whose slot can be set at most once per
//! invocation. Both channels hold values in their wire encoding, so every
//! read goes through the primitive codec.

use crate::codec::{
    decode, encode, lemma_encode_decode, spec_decode, spec_encode, tag_of, valid_view, value_tag,
    DecodeError, TypeTag, Value, ValueView,
};
use vstd::prelude::*;

verus! {

/// Reasons an argument read is refused.
#[derive(Clone, Copy, Debug, PartialEq, Eq, Structural)]
pub enum ArgumentError {
    /// The index is at or past the number of filled slots.
    OutOfRange,
    /// The slot exists but carries a different type than the one requested.
    TypeMismatch,
}

/// Reasons a return-value operation is refused.
#[derive(Clone, Copy, Debug, PartialEq, Eq, Structural)]
pub enum ReturnError {
    /// `ret` was already called once in this invocation.
    AlreadySet,
    /// The invocation never produced a value, but its declared return arity
    /// requires one.
    MissingValue,
}

/// One encoded value with its type tag, as it sits on the wire.
struct Slot {
    tag: TypeTag,
    bytes: Vec<u8>,
}

/// The value a slot carries.
spec fn slot_value(s: Slot) -> ValueView {
    spec_decode(s.bytes@, s.tag)->Ok_0
}

/// A slot is coherent when its bytes are the canonical encoding of its value
/// and its stored tag names that value's kind.
spec fn slot_wf(s: Slot) -> bool {
    &&& spec_decode(s.bytes@, s.tag) == Ok::<ValueView, DecodeError>(slot_value(s))
    &&& s.bytes@ == spec_encode(slot_value(s))
    &&& s.tag == tag_of(slot_value(s))
    &&& valid_view(slot_value(s))
}

/// Ordered list of encoded argument slots for one invocation.
pub struct ArgumentChannel {
    slots: Vec<Slot>,
}

impl View for ArgumentChannel {
    type V = Seq<ValueView>;

    /// The channel is modelled as the sequence of values its slots carry.
    closed spec fn view(&self) -> Seq<ValueView> {
        Seq::new(self.slots@.len(), |i: int| slot_value(self.slots@[i]))
    }
}

impl ArgumentChannel {
    /// Every slot holds the canonical encoding of its value.
    pub closed spec fn wf(self) -> bool {
        forall|i: int| 0 <= i < self.slots@.len() ==> slot_wf(#[trigger] self.slots@[i])
    }

    /// Fresh, empty channel for a new invocation.
    pub fn new() -> (c: ArgumentChannel)
        ensures
            c@ =~= Seq::<ValueView>::empty(),
            c.wf(),
    {
        ArgumentChannel { slots: Vec::new() }
    }

    /// Number of filled slots.
    pub fn slot_count(&self) -> (n: usize)
        ensures
            n == self@.len(),
    {
        self.slots.len()
    }

    /// Host-side injection: encode one value and append it as the next slot.
    pub fn push_arg(&mut self, v: &Value)
        requires
            old(self).wf(),
        ensures
            final(self).wf(),
            final(self)@ =~= old(self)@.push(v@),
    {
        let tag = value_tag(v);
        let bytes = encode(v);
        proof {
            lemma_encode_decode(v@);
        }
        self.slots.push(Slot { tag, bytes });
        proof {
            assert(self@ =~= old(self)@.push(v@));
        }
    }

    /// Guest-side indexed retrieval. Side-effect-free, so a slot may be read
    /// any number of times within one invocation. Fails with
    /// [`ArgumentError::OutOfRange`] when the index is at or past the slot
    /// count, and with [`ArgumentError::TypeMismatch`] when the slot's stored
    /// tag is not the requested one; otherwise returns the slot's value.
    pub fn get_arg(&self, index: usize, expected: TypeTag) -> (r: Result<Value, ArgumentError>)
        requires
            self.wf(),
        ensures
            index >= self@.len() ==> r == Err::<Value, ArgumentError>(ArgumentError::OutOfRange),
            index < self@.len() && tag_of(self@[index as int]) != expected ==> r == Err::<
                Value,
                ArgumentError,
            >(ArgumentError::TypeMismatch),
            index < self@.len() && tag_of(self@[index as int]) == expected ==> (r matches Ok(v)
                && v@ == self@[index as int]),
    {
        if index >= self.slots.len() {
            return Err(ArgumentError::OutOfRange);
        }
        let slot = &self.slots[index];
        if slot.tag != expected {
            return Err(ArgumentError::TypeMismatch);
        }
        match decode(slot.bytes.as_slice(), expected) {
            Ok(v) => Ok(v),
            Err(_) => Err(ArgumentError::TypeMismatch),
        }
    }
}

/// Single-slot channel for the one value an invocation may hand back.
pub struct ReturnChannel {
    slot: Option<Slot>,
}

impl View for ReturnChannel {
    type V = Option<ValueView>;

    /// The channel is modelled as the value its slot carries, if any.
    closed spec fn view(&self) -> Option<ValueView> {
        match self.slot {
            Some(s) => Some(slot_value(s)),
            None => None,
        }
    }
}

impl ReturnChannel {
    /// The slot, when filled, holds the canonical encoding of its value.
    pub closed spec fn wf(self) -> bool {
        self.slot matches Some(s) ==> slot_wf(s)
    }

    /// Fresh, empty channel for a new invocation.
    pub fn new() -> (c: ReturnChannel)
        ensures
            c@ is None,
            c.wf(),
    {
        ReturnChannel { slot: None }
    }

    /// Guest-side: encode the invocation's result into the return slot.
    /// Setting the slot a second time is refused with
    /// [`ReturnError::AlreadySet`] and leaves the first value in place.
    pub fn ret(&mut self, v: &Value) -> (r: Result<(), ReturnError>)
        requires
            old(self).wf(),
        ensures
            final(self).wf(),
            old(self)@ is Some ==> r == Err::<(), ReturnError>(ReturnError::AlreadySet)
                && final(self)@ == old(self)@,
            old(self)@ is None ==> r == Ok::<(), ReturnError>(()) && final(self)@ == Some(v@),
    {
        if self.slot.is_some() {
            return Err(ReturnError::AlreadySet);
        }
        let tag = value_tag(v);
        let bytes = encode(v);
        proof {
            lemma_encode_decode(v@);
        }
        self.slot = Some(Slot { tag, bytes });
        Ok(())
    }

    /// Host-side: read the invocation's outcome. An unset slot is an explicit
    /// "no value" result, not a failure, unless the entry point's declared
    /// return arity requires a value; then it is
    /// [`ReturnError::MissingValue`].
    pub fn finish(&self, value_required: bool) -> (r: Result<Option<Value>, ReturnError>)
        requires
            self.wf(),
        ensures
            self@ matches Some(w) ==> (r matches Ok(o) && o matches Some(v) && v@ == w),
            self@ is None && value_required ==> r == Err::<Option<Value>, ReturnError>(
                ReturnError::MissingValue,
            ),
            self@ is None && !value_required ==> r == Ok::<Option<Value>, ReturnError>(None),
    {
        match &self.slot {
            Some(slot) => {
                match decode(slot.bytes.as_slice(), slot.tag) {
                    Ok(v) => Ok(Some(v)),
                    Err(_) => Err(ReturnError::MissingValue),
                }
            },
            None => {
                if value_required {
                    Err(ReturnError::MissingValue)
                } else {
                    Ok(None)
                }
            },
        }
    }
}

} // verus!
