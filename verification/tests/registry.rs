use lib::registry::{ComponentInfo, Registry, RegistryError};
use std::any::TypeId;

struct Position;
struct Velocity;

#[test]
fn registry_records_each_type_once() {
    let mut registry = Registry::new();
    let position = TypeId::of::<Position>();
    let velocity = TypeId::of::<Velocity>();
    assert_eq!(registry.get(&position), None);
    assert_eq!(registry.record(position, 42, 8), Ok(ComponentInfo { id: 42, size: 8 }));
    assert_eq!(registry.get(&position), Some(ComponentInfo { id: 42, size: 8 }));
    // A second answer for the same type changes nothing.
    assert_eq!(registry.record(position, 99, 8), Ok(ComponentInfo { id: 42, size: 8 }));
    assert_eq!(registry.get(&position), Some(ComponentInfo { id: 42, size: 8 }));
    assert_eq!(registry.get(&velocity), None);
}

#[test]
fn registry_refuses_the_invalid_id() {
    let mut registry = Registry::new();
    let velocity = TypeId::of::<Velocity>();
    assert_eq!(registry.record(velocity, 0, 8), Err(RegistryError::RegistrationFailed));
    assert_eq!(registry.get(&velocity), None);
    assert_eq!(registry.record(velocity, 5, 8), Ok(ComponentInfo { id: 5, size: 8 }));
}
