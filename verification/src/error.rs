//! The library's refusals.
use vstd::prelude::*;

use crate::borrow::BorrowError;

verus! {

/// Why an operation of the library was refused.
#[derive(Clone, Copy, PartialEq, Eq, Structural, Debug)]
pub enum EcsError {
    /// A component borrow is active somewhere in the world, and the operation would
    /// change the world's structure (register a component, create a query, system,
    /// observer or entities in bulk).
    ActiveComponentBorrows,
    /// A component of the entity is borrowed, and the operation would change the
    /// entity's structure.
    EntityBorrowed,
    /// A component borrow was refused.
    Borrow(BorrowError),
    /// flecs answered a component registration with the invalid id 0.
    RegistrationFailed,
    /// `add` was asked for a component type that carries data.
    NotATag,
    /// The entity does not have the component that was asked for.
    ComponentMissing,
    /// The entity id 0 was given.
    ZeroEntityId,
    /// The entity id is not alive in the world.
    EntityNotAlive,
    /// flecs answered an entity creation with the invalid id 0.
    EntityCreationFailed,
    /// A count does not fit the 32-bit count that flecs takes.
    CountTooLarge,
    /// flecs refused to create entities in bulk.
    BulkInitFailed,
    /// Two terms of a query, system or observer name the same component.
    DuplicateTerms,
    /// flecs refused to create a query.
    QueryCreationFailed,
    /// flecs refused to create a system.
    SystemCreationFailed,
    /// flecs refused to create an observer.
    ObserverCreationFailed,
    /// An iterator reported a negative row count.
    NegativeRowCount,
    /// An iterator reported the invalid entity 0 for a row.
    InvalidEntity,
}

} // verus!
