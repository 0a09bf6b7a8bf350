//! The per-world table from Rust component types to their flecs component ids.
//! A type is registered with flecs once; afterwards its id comes from this table.
use std::any::TypeId;
use std::marker::PhantomData;
use vstd::prelude::*;

use crate::sys::ecs_id_t;

verus! {

/// `std::any::TypeId`, the identity of a Rust type.
#[verifier::external_type_specification]
#[verifier::external_body]
pub struct ExTypeId(TypeId);

/// The identity of the Rust type `T`: a value fixed for each type, of which nothing
/// else is known. Two types are given values that Verus cannot prove equal, and a
/// type is always given the same value.
pub closed spec fn type_identity<T: ?Sized>() -> TypeId {
    vstd::pervasive::arbitrary::<(TypeId, PhantomData<T>)>().0
}

/// Calls `std::any::TypeId::of::<T>()`. Claimed: the result is `T`'s identity,
/// `type_identity::<T>()`, the same value for every call with the same `T` (std
/// documents a `TypeId` as the globally unique identifier of a type). Nothing is
/// claimed of how identities of different types relate.
#[verifier::external_body]
pub(crate) fn type_id_of<T: ?Sized + 'static>() -> (r: TypeId)
    ensures
        r == type_identity::<T>(),
{
    TypeId::of::<T>()
}

/// Calls `<TypeId as PartialEq>::eq`. Claimed: two identities compare equal exactly
/// when they are the same value (std documents a `TypeId` as a globally unique
/// identifier of a type).
#[verifier::external_body]
fn same_type_id(a: &TypeId, b: &TypeId) -> (r: bool)
    ensures
        r == (*a == *b),
{
    *a == *b
}

/// What the library keeps of a registered component type.
#[derive(Clone, Copy, PartialEq, Eq, Structural, Debug)]
pub struct ComponentInfo {
    /// The flecs component id.
    pub id: ecs_id_t,
    /// The byte size of the Rust type.
    pub size: usize,
}

/// Why a registration was refused.
#[derive(Clone, Copy, PartialEq, Eq, Structural, Debug)]
pub enum RegistryError {
    /// flecs answered the registration with the invalid id 0.
    RegistrationFailed,
}

/// The registry, as a map from type identities to what was registered for them.
pub type ComponentMap = Map<TypeId, ComponentInfo>;

/// What recording flecs' answer `raw_id` for `type_id` does to the registry: a type
/// already present keeps its entry; otherwise the id 0 is refused and any other id
/// is recorded.
pub open spec fn spec_record(m: ComponentMap, type_id: TypeId, raw_id: ecs_id_t, size: usize) -> Result<
    (ComponentMap, ComponentInfo),
    RegistryError,
> {
    if m.contains_key(type_id) {
        Ok((m, m[type_id]))
    } else if raw_id == 0 {
        Err(RegistryError::RegistrationFailed)
    } else {
        Ok((m.insert(type_id, ComponentInfo { id: raw_id, size }), ComponentInfo { id: raw_id, size }))
    }
}

#[derive(Clone, Copy)]
struct RegistryEntry {
    type_id: TypeId,
    info: ComponentInfo,
}

/// The component types registered in one world.
pub struct Registry {
    entries: Vec<RegistryEntry>,
    map: Ghost<ComponentMap>,
}

impl View for Registry {
    type V = ComponentMap;

    closed spec fn view(&self) -> ComponentMap {
        self.map@
    }
}

impl Registry {
    /// The registry's consistency: each registered type is listed once, with the
    /// information the map gives it.
    pub closed spec fn wf(&self) -> bool {
        &&& forall|i: int, j: int|
            0 <= i < j < self.entries@.len() ==> #[trigger] self.entries@[i].type_id
                != #[trigger] self.entries@[j].type_id
        &&& forall|i: int|
            0 <= i < self.entries@.len() ==> {
                &&& self.map@.contains_key(#[trigger] self.entries@[i].type_id)
                &&& self.map@[self.entries@[i].type_id] == self.entries@[i].info
            }
        &&& forall|t: TypeId|
            #[trigger] self.map@.contains_key(t) ==> exists|i: int|
                0 <= i < self.entries@.len() && #[trigger] self.entries@[i].type_id == t
    }

    /// An empty registry.
    pub fn new() -> (r: Self)
        ensures
            r.wf(),
            r@ == ComponentMap::empty(),
    {
        Registry { entries: Vec::new(), map: Ghost(ComponentMap::empty()) }
    }

    /// What was registered for `type_id`, if anything.
    pub fn get(&self, type_id: &TypeId) -> (r: Option<ComponentInfo>)
        requires
            self.wf(),
        ensures
            r == (if self@.contains_key(*type_id) {
                Some(self@[*type_id])
            } else {
                None::<ComponentInfo>
            }),
    {
        let mut i: usize = 0;
        while i < self.entries.len()
            invariant
                self.wf(),
                i <= self.entries@.len(),
                forall|j: int| 0 <= j < i ==> self.entries@[j].type_id != *type_id,
            decreases self.entries@.len() - i,
        {
            if same_type_id(&self.entries[i].type_id, type_id) {
                return Some(self.entries[i].info);
            }
            i = i + 1;
        }
        proof {
            if self@.contains_key(*type_id) {
                let w = choose|j: int|
                    0 <= j < self.entries@.len() && #[trigger] self.entries@[j].type_id == *type_id;
                assert(self.entries@[w].type_id == *type_id);
            }
        }
        None
    }

    /// Records flecs' answer `raw_id` to the registration of `type_id`, a type of
    /// `size` bytes, as `spec_record` says.
    pub fn record(&mut self, type_id: TypeId, raw_id: ecs_id_t, size: usize) -> (r: Result<
        ComponentInfo,
        RegistryError,
    >)
        requires
            old(self).wf(),
        ensures
            final(self).wf(),
            match spec_record(old(self)@, type_id, raw_id, size) {
                Ok((m, info)) => r == Ok::<ComponentInfo, RegistryError>(info) && final(self)@ == m,
                Err(e) => r == Err::<ComponentInfo, RegistryError>(e) && final(self)@ == old(self)@,
            },
    {
        if let Some(info) = self.get(&type_id) {
            return Ok(info);
        }
        if raw_id == 0 {
            return Err(RegistryError::RegistrationFailed);
        }
        let info = ComponentInfo { id: raw_id, size };
        let ghost old_entries = self.entries@;
        self.entries.push(RegistryEntry { type_id, info });
        self.map = Ghost(self.map@.insert(type_id, info));
        assert forall|i: int, j: int|
            0 <= i < j < self.entries@.len() implies #[trigger] self.entries@[i].type_id
            != #[trigger] self.entries@[j].type_id by {
            if j == old_entries.len() {
                assert(old(self).map@.contains_key(old_entries[i].type_id));
            }
        }
        assert forall|t: TypeId| #[trigger] self.map@.contains_key(t) implies exists|i: int|
            0 <= i < self.entries@.len() && #[trigger] self.entries@[i].type_id == t by {
            if t == type_id {
                assert(self.entries@[old_entries.len() as int].type_id == t);
            } else {
                let w = choose|i: int| 0 <= i < old_entries.len() && #[trigger] old_entries[i].type_id == t;
                assert(self.entries@[w].type_id == t);
            }
        }
        Ok(info)
    }
}

/// A type is registered at most once: once recorded, recording it again changes
/// nothing and gives back the first answer, whatever flecs says the second time.
pub proof fn lemma_record_once(m: ComponentMap, type_id: TypeId, first: ecs_id_t, second: ecs_id_t, size: usize)
    requires
        spec_record(m, type_id, first, size) is Ok,
    ensures
        ({
            let (m1, info) = spec_record(m, type_id, first, size)->Ok_0;
            spec_record(m1, type_id, second, size) == Ok::<(ComponentMap, ComponentInfo), RegistryError>(
                (m1, info),
            )
        }),
{
}

/// Recording only ever adds: every type registered before is still registered,
/// with the same information.
pub proof fn lemma_record_keeps_entries(
    m: ComponentMap,
    type_id: TypeId,
    raw_id: ecs_id_t,
    size: usize,
    other: TypeId,
)
    requires
        spec_record(m, type_id, raw_id, size) is Ok,
        m.contains_key(other),
    ensures
        spec_record(m, type_id, raw_id, size)->Ok_0.0.contains_key(other),
        spec_record(m, type_id, raw_id, size)->Ok_0.0[other] == m[other],
{
}

} // verus!
