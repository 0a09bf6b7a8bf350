//! The low-level names of the flecs C interface that the library speaks of.
//! The world, query and iterator types are opaque: the library never looks inside them.
use vstd::prelude::*;

verus! {

/// An opaque flecs world.
pub struct ecs_world_t {
    _opaque: (),
}

/// An opaque flecs query.
pub struct ecs_query_t {
    _opaque: (),
}

/// An opaque flecs iterator, as handed to system and observer callbacks.
pub struct ecs_iter_t {
    _opaque: (),
}

/// An opaque query iterator of the C shim.
pub struct soul_ecs_query_iter_t {
    _opaque: (),
}

/// A flecs entity id; 0 is never a valid entity.
pub type ecs_entity_t = u64;

/// A flecs id (component ids are entity ids).
pub type ecs_id_t = u64;

/// Term access: default.
pub const ECS_INOUT_DEFAULT: i16 = 0;
/// Term access: none.
pub const ECS_INOUT_NONE: i16 = 1;
/// Term access: filter only.
pub const ECS_INOUT_FILTER: i16 = 2;
/// Term access: read and write.
pub const ECS_INOUT: i16 = 3;
/// Term access: read only.
pub const ECS_IN: i16 = 4;
/// Term access: write only.
pub const ECS_OUT: i16 = 5;

} // verus!
