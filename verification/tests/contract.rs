use contract_runtime::channel::{ArgumentChannel, ArgumentError, ReturnChannel};
use contract_runtime::codec::{TypeTag, Value};
use contract_runtime::contract::{call, hello_name, hello_name_ext, HELLO_NAME_EXPORT};
use contract_runtime::key::derive_key;
use contract_runtime::registry::{Registry, RegistryError};

#[test]
fn hello_name_greets() {
    assert_eq!(hello_name("World"), "Hello, World");
    assert_eq!(hello_name(""), "Hello, ");
}

#[test]
fn end_to_end_hello_name() {
    // Register a one-argument text-to-text function named hello_name with
    // parameter shape [Text].
    let mut reg = Registry::new();
    assert_eq!(reg.begin_populating(), Ok(()));
    let shape = vec![TypeTag::Text];
    let key = reg.store_function("hello_name", &shape).unwrap();
    assert_eq!(reg.seal(), Ok(()));

    // The host precomputes the key from the known signature and dispatches.
    assert_eq!(key, derive_key("hello_name", &shape));
    let entry = reg.resolve(key).unwrap();
    assert_eq!(entry.name, "hello_name");

    // Invoke it with argument "World"; expect return value "Hello, World".
    let mut args = ArgumentChannel::new();
    args.push_arg(&Value::Text(String::from("World")));
    let mut out = ReturnChannel::new();
    assert_eq!(hello_name_ext(&args, &mut out), Ok(()));
    assert_eq!(out.finish(true), Ok(Some(Value::Text(String::from("Hello, World")))));
}

#[test]
fn resolve_never_registered_key_fails() {
    let mut reg = Registry::new();
    assert_eq!(reg.begin_populating(), Ok(()));
    assert_eq!(reg.seal(), Ok(()));
    let key = derive_key("hello_name", &vec![TypeTag::Text]);
    assert!(matches!(reg.resolve(key), Err(RegistryError::NotFound)));
}

#[test]
fn call_registers_the_export() {
    let mut reg = Registry::new();
    assert_eq!(reg.begin_populating(), Ok(()));
    let key = call(&mut reg).unwrap();
    assert_eq!(reg.seal(), Ok(()));
    assert_eq!(key, derive_key(HELLO_NAME_EXPORT, &vec![TypeTag::Text]));
    let entry = reg.resolve(key).unwrap();
    assert_eq!(entry.name, HELLO_NAME_EXPORT);
    // Invoked outside the populating phase, the export's registration is
    // refused and the table stands.
    assert_eq!(call(&mut reg), Err(RegistryError::SealedRegistry));
}

#[test]
fn hello_name_ext_without_argument_fails() {
    let args = ArgumentChannel::new();
    let mut out = ReturnChannel::new();
    assert_eq!(hello_name_ext(&args, &mut out), Err(ArgumentError::OutOfRange));
    assert_eq!(out.finish(false), Ok(None));
}

#[test]
fn hello_name_ext_with_wrong_type_fails() {
    let mut args = ArgumentChannel::new();
    args.push_arg(&Value::U64(5));
    let mut out = ReturnChannel::new();
    assert_eq!(hello_name_ext(&args, &mut out), Err(ArgumentError::TypeMismatch));
    assert_eq!(out.finish(false), Ok(None));
}
