use contract_runtime::codec::TypeTag;
use contract_runtime::key::derive_key;
use contract_runtime::registry::{Registry, RegistryError};

#[test]
fn store_function_returns_the_derived_key() {
    let mut reg = Registry::new();
    assert_eq!(reg.begin_populating(), Ok(()));
    let shape = vec![TypeTag::Text];
    let key = reg.store_function("hello_name", &shape).unwrap();
    assert_eq!(key, derive_key("hello_name", &shape));
}

#[test]
fn duplicate_registration_is_refused() {
    let mut reg = Registry::new();
    assert_eq!(reg.begin_populating(), Ok(()));
    let shape = vec![TypeTag::Text];
    assert!(reg.store_function("hello_name", &shape).is_ok());
    assert_eq!(
        reg.store_function("hello_name", &shape),
        Err(RegistryError::DuplicateRegistration)
    );
}

#[test]
fn same_name_other_shape_is_a_new_registration() {
    let mut reg = Registry::new();
    assert_eq!(reg.begin_populating(), Ok(()));
    let k1 = reg.store_function("hello_name", &vec![TypeTag::Text]).unwrap();
    let k2 = reg.store_function("hello_name", &vec![TypeTag::Text, TypeTag::Text]).unwrap();
    assert_ne!(k1, k2);
}

#[test]
fn store_outside_populating_is_sealed_registry() {
    let shape = vec![TypeTag::U32];
    // Before initialization begins.
    let mut reg = Registry::new();
    assert_eq!(reg.store_function("f", &shape), Err(RegistryError::SealedRegistry));
    // After initialization returned.
    assert_eq!(reg.begin_populating(), Ok(()));
    assert!(reg.store_function("f", &shape).is_ok());
    assert_eq!(reg.seal(), Ok(()));
    assert_eq!(reg.store_function("g", &shape), Err(RegistryError::SealedRegistry));
}

#[test]
fn reinitialization_is_refused() {
    let mut reg = Registry::new();
    assert_eq!(reg.begin_populating(), Ok(()));
    assert_eq!(reg.begin_populating(), Err(RegistryError::SealedRegistry));
    assert_eq!(reg.seal(), Ok(()));
    assert_eq!(reg.begin_populating(), Err(RegistryError::SealedRegistry));
    assert_eq!(reg.seal(), Err(RegistryError::SealedRegistry));
}

#[test]
fn resolve_finds_registered_entries() {
    let mut reg = Registry::new();
    assert_eq!(reg.begin_populating(), Ok(()));
    let shape = vec![TypeTag::Text];
    let key = reg.store_function("hello_name", &shape).unwrap();
    assert_eq!(reg.seal(), Ok(()));
    let entry = reg.resolve(key).unwrap();
    assert_eq!(entry.key, key);
    assert_eq!(entry.name, "hello_name");
}

#[test]
fn resolve_unregistered_key_is_not_found() {
    let mut reg = Registry::new();
    assert_eq!(reg.begin_populating(), Ok(()));
    let key = reg.store_function("hello_name", &vec![TypeTag::Text]).unwrap();
    assert_eq!(reg.seal(), Ok(()));
    match reg.resolve(key.wrapping_add(1)) {
        Err(e) => assert_eq!(e, RegistryError::NotFound),
        Ok(_) => panic!("an unregistered key resolved"),
    }
    // An empty registry resolves nothing.
    let empty = Registry::new();
    assert!(matches!(empty.resolve(key), Err(RegistryError::NotFound)));
}
