//! An example guest contract built on the registry and channel protocol: a
//! one-argument text-to-text handler that greets the name it is given.
//!
//! [`call`] is the contract's initialization export: invoked once by the
//! host while the registry is populating, it registers the handler's
//! entry-point wrapper. [`hello_name_ext`] is that wrapper: it reads its one
//! text argument from the invocation's argument channel, computes the
//! greeting, and writes the result to the return channel. The business logic
//! itself lives in [`hello_name`].

use crate::channel::{ArgumentChannel, ArgumentError, ReturnChannel};
use crate::codec::{TypeTag, Value, ValueView};
use crate::key::key_of;
use crate::registry::{Phase, Registry, RegistryError};
use vstd::prelude::*;
use vstd::string::StringExecFns;

verus! {

/// The greeting for a name: `"Hello, "` followed by the name.
pub fn hello_name(name: &str) -> (r: String)
    ensures
        r@ == "Hello, "@ + name@,
{
    let mut result = String::from_str("Hello, ");
    result.append(name);
    result
}

/// Entry-point wrapper for [`hello_name`], in the shape the host dispatches
/// to: it reads argument 0 as text, computes the greeting, and sets it as
/// the invocation's return value. A missing or non-text argument aborts the
/// invocation with the corresponding [`ArgumentError`] and leaves the return
/// slot empty.
pub fn hello_name_ext(args: &ArgumentChannel, out: &mut ReturnChannel) -> (r: Result<
    (),
    ArgumentError,
>)
    requires
        args.wf(),
        old(out).wf(),
        old(out)@ is None,
    ensures
        final(out).wf(),
        args@.len() == 0 ==> r == Err::<(), ArgumentError>(ArgumentError::OutOfRange)
            && final(out)@ is None,
        args@.len() > 0 && !(args@[0] is Text) ==> r == Err::<(), ArgumentError>(
            ArgumentError::TypeMismatch,
        ) && final(out)@ is None,
        args@.len() > 0 && args@[0] is Text ==> r == Ok::<(), ArgumentError>(()) && final(out)@
            == Some(ValueView::Text("Hello, "@ + args@[0]->Text_0)),
{
    let name = match args.get_arg(0, TypeTag::Text) {
        Ok(Value::Text(s)) => s,
        Ok(_) => { return Err(ArgumentError::TypeMismatch) },
        Err(e) => { return Err(e) },
    };
    let greeting = hello_name(name.as_str());
    let value = Value::Text(greeting);
    match out.ret(&value) {
        Ok(_) => Ok(()),
        Err(_) => Err(ArgumentError::TypeMismatch),
    }
}

/// Name under which [`hello_name_ext`] is exported.
pub const HELLO_NAME_EXPORT: &'static str = "hello_name_ext";

/// Declared parameter shape of [`hello_name_ext`]: one text argument.
pub open spec fn hello_shape() -> Seq<TypeTag> {
    seq![TypeTag::Text]
}

/// The content-derived key of [`hello_name_ext`].
pub open spec fn hello_key() -> u64 {
    key_of(HELLO_NAME_EXPORT@, hello_shape())
}

/// The contract's initialization export: registers [`hello_name_ext`] under
/// its name and one-text-argument shape, and hands the derived key back for
/// the host's bookkeeping. The host invokes it exactly once per module load,
/// while the registry is populating; the outcome follows
/// [`Registry::store_function`].
pub fn call(registry: &mut Registry) -> (r: Result<u64, RegistryError>)
    requires
        old(registry).wf(),
    ensures
        final(registry).wf(),
        final(registry).phase() == old(registry).phase(),
        old(registry).phase() != Phase::Populating ==> r == Err::<u64, RegistryError>(
            RegistryError::SealedRegistry,
        ) && final(registry).table() == old(registry).table(),
        old(registry).phase() == Phase::Populating && old(registry).table().contains_key(
            hello_key(),
        ) ==> r == Err::<u64, RegistryError>(RegistryError::DuplicateRegistration)
            && final(registry).table() == old(registry).table(),
        old(registry).phase() == Phase::Populating && !old(registry).table().contains_key(
            hello_key(),
        ) ==> r == Ok::<u64, RegistryError>(hello_key()) && final(registry).table()
            == old(registry).table().insert(hello_key(), HELLO_NAME_EXPORT@),
{
    let mut shape: Vec<TypeTag> = Vec::new();
    shape.push(TypeTag::Text);
    proof {
        assert(shape@ =~= hello_shape());
    }
    registry.store_function(HELLO_NAME_EXPORT, &shape)
}

} // verus!
