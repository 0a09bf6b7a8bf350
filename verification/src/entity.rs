//! Entity handles and the checks and borrows that guard entity operations.
use vstd::prelude::*;

use crate::borrow::{
    entity_borrowed, spec_acquire_mutable, spec_acquire_shared, BorrowKey, BorrowMap, BorrowState,
    ComponentBorrowGuard, GuardKind,
};
use crate::error::EcsError;
use crate::observer::{build_entity_observer, spec_entity_observer_plan, EntityObserverInit};
use crate::registry::{type_identity, ComponentInfo};
use crate::sys::{ecs_entity_t, ecs_id_t};
use crate::world::{map_step, then_lookup, Step, World};

verus! {

/// A handle to an entity of a world, seen as its flecs id.
#[derive(Clone, Copy, Debug)]
pub struct Entity {
    raw: ecs_entity_t,
}

impl View for Entity {
    type V = ecs_entity_t;

    closed spec fn view(&self) -> ecs_entity_t {
        self.raw
    }
}

/// A component write that may go ahead: the registered component, the mutable borrow
/// held while flecs writes it, and whether it is a zero-sized tag (added, not set).
pub struct ComponentAccess {
    pub info: ComponentInfo,
    pub guard: ComponentBorrowGuard,
    pub tag: bool,
}

/// A component write seen as its component, the borrowed pair, the guard kind and
/// whether it is a tag.
pub open spec fn access_view(a: ComponentAccess) -> (ComponentInfo, BorrowKey, GuardKind, bool) {
    (a.info, a.guard.key(), a.guard.kind(), a.tag)
}

/// What a structural write of a component to `entity` gives once its lookup `lookup`
/// is known: the lookup's refusal or request, or else the write's mutable borrow of
/// the pair (released without a modified flag), and the borrow table `after` that
/// follows.
pub open spec fn spec_write_step(
    borrows: BorrowMap,
    entity: ecs_entity_t,
    lookup: Result<Step<ComponentInfo>, EcsError>,
    tag: bool,
    r: Result<Step<ComponentAccess>, EcsError>,
    after: BorrowMap,
) -> bool {
    match lookup {
        Err(e) => r == Err::<Step<ComponentAccess>, EcsError>(e) && after == borrows,
        Ok(Step::NeedsComponent(q)) => r == Ok::<Step<ComponentAccess>, EcsError>(
            Step::NeedsComponent(q),
        ) && after == borrows,
        Ok(Step::Ready(info)) => match spec_acquire_mutable(
            borrows,
            BorrowKey { entity, component: info.id },
        ) {
            Ok(m) => (r matches Ok(Step::Ready(a)) && access_view(a) == (
                info,
                BorrowKey { entity, component: info.id },
                GuardKind::Mutable { notify_modified: false },
                tag,
            )) && after == m,
            Err(e) => r == Err::<Step<ComponentAccess>, EcsError>(EcsError::Borrow(e)) && after
                == borrows,
        },
    }
}

/// The plan of a custom event: the event's component id, the entity it is emitted
/// for, and the component ids it names with their count.
pub struct EventPlan {
    pub event: ecs_id_t,
    pub entity: ecs_entity_t,
    pub ids: Vec<ecs_id_t>,
    pub id_count: i32,
}

/// An event plan seen as its event, entity, ids and id count.
pub open spec fn event_view(p: EventPlan) -> (ecs_id_t, ecs_entity_t, Seq<ecs_id_t>, i32) {
    (p.event, p.entity, p.ids@, p.id_count)
}

/// What planning the event `E` for `entity` with no component ids gives: the event's
/// lookup, then the plan.
pub open spec fn spec_event_plan<E>(
    world: World,
    entity: ecs_entity_t,
    r: Result<Step<(ecs_id_t, ecs_entity_t, Seq<ecs_id_t>, i32)>, EcsError>,
) -> bool {
    exists|le: Result<Step<ComponentInfo>, EcsError>|
        world.lookup_of::<E>(le) && r == then_lookup(
            le,
            |e: ComponentInfo|
                Ok::<Step<(ecs_id_t, ecs_entity_t, Seq<ecs_id_t>, i32)>, EcsError>(
                    Step::Ready((e.id, entity, Seq::<ecs_id_t>::empty(), 0i32)),
                ),
        )
}

/// What planning the event `E` for `entity` naming the components `T` and `U` gives:
/// the lookups of `E`, `T` and `U`, then the plan.
pub open spec fn spec_event_plan2<E, T, U>(
    world: World,
    entity: ecs_entity_t,
    r: Result<Step<(ecs_id_t, ecs_entity_t, Seq<ecs_id_t>, i32)>, EcsError>,
) -> bool {
    exists|
        le: Result<Step<ComponentInfo>, EcsError>,
        lt: Result<Step<ComponentInfo>, EcsError>,
        lu: Result<Step<ComponentInfo>, EcsError>,
    |
        world.lookup_of::<E>(le) && world.lookup_of::<T>(lt) && world.lookup_of::<U>(lu) && r
            == then_lookup(
            le,
            |e: ComponentInfo|
                then_lookup(
                    lt,
                    |i: ComponentInfo|
                        then_lookup(
                            lu,
                            |j: ComponentInfo|
                                Ok::<Step<(ecs_id_t, ecs_entity_t, Seq<ecs_id_t>, i32)>, EcsError>(
                                    Step::Ready((e.id, entity, seq![i.id, j.id], 2i32)),
                                ),
                        ),
                ),
        )
}

impl Entity {
    fn plan_event<E: 'static>(&self, world: &World) -> (r: Result<Step<EventPlan>, EcsError>)
        requires
            world.wf(),
        ensures
            spec_event_plan::<E>(*world, self@, map_step(r, |p: EventPlan| event_view(p))),
    {
        let le = world.component_info::<E>();
        assert(world.lookup_of::<E>(le));
        match le {
            Err(e) => Err(e),
            Ok(Step::NeedsComponent(q)) => Ok(Step::NeedsComponent(q)),
            Ok(Step::Ready(info)) => {
                let ids: Vec<ecs_id_t> = Vec::new();
                assert(ids@ =~= Seq::<ecs_id_t>::empty());
                Ok(Step::Ready(EventPlan { event: info.id, entity: self.raw, ids, id_count: 0 }))
            },
        }
    }

    fn plan_event2<E: 'static, T: 'static, U: 'static>(&self, world: &World) -> (r: Result<
        Step<EventPlan>,
        EcsError,
    >)
        requires
            world.wf(),
        ensures
            spec_event_plan2::<E, T, U>(*world, self@, map_step(r, |p: EventPlan| event_view(p))),
    {
        let le = world.component_info::<E>();
        let lt = world.component_info::<T>();
        let lu = world.component_info::<U>();
        let event = match le {
            Err(e) => return Err(e),
            Ok(Step::NeedsComponent(q)) => return Ok(Step::NeedsComponent(q)),
            Ok(Step::Ready(info)) => info,
        };
        let first = match lt {
            Err(e) => return Err(e),
            Ok(Step::NeedsComponent(q)) => return Ok(Step::NeedsComponent(q)),
            Ok(Step::Ready(info)) => info,
        };
        let second = match lu {
            Err(e) => return Err(e),
            Ok(Step::NeedsComponent(q)) => return Ok(Step::NeedsComponent(q)),
            Ok(Step::Ready(info)) => info,
        };
        let mut ids: Vec<ecs_id_t> = Vec::new();
        ids.push(first.id);
        ids.push(second.id);
        assert(ids@ =~= seq![first.id, second.id]);
        Ok(Step::Ready(EventPlan { event: event.id, entity: self.raw, ids, id_count: 2 }))
    }

    /// Plans emitting the event `E` for this entity now. Once flecs has run its
    /// observers, a failure they kept is raised with `World::resume_pending_panic`.
    pub fn emit<E: Copy + 'static>(&self, world: &World) -> (r: Result<Step<EventPlan>, EcsError>)
        requires
            world.wf(),
        ensures
            spec_event_plan::<E>(*world, self@, map_step(r, |p: EventPlan| event_view(p))),
    {
        self.plan_event::<E>(world)
    }

    /// Plans enqueueing the event `E` for this entity, to run when deferred mode ends.
    pub fn enqueue<E: Copy + 'static>(&self, world: &World) -> (r: Result<Step<EventPlan>, EcsError>)
        requires
            world.wf(),
        ensures
            spec_event_plan::<E>(*world, self@, map_step(r, |p: EventPlan| event_view(p))),
    {
        self.plan_event::<E>(world)
    }

    /// Plans emitting the event `E` for this entity now, naming the components `T`
    /// and `U`.
    pub fn emit2<E: Copy + 'static, T: Copy + 'static, U: Copy + 'static>(&self, world: &World) -> (r:
        Result<Step<EventPlan>, EcsError>)
        requires
            world.wf(),
        ensures
            spec_event_plan2::<E, T, U>(*world, self@, map_step(r, |p: EventPlan| event_view(p))),
    {
        self.plan_event2::<E, T, U>(world)
    }

    /// Plans enqueueing the event `E` for this entity, naming the components `T` and
    /// `U`, to run when deferred mode ends.
    pub fn enqueue2<E: Copy + 'static, T: Copy + 'static, U: Copy + 'static>(&self, world: &World) -> (r:
        Result<Step<EventPlan>, EcsError>)
        requires
            world.wf(),
        ensures
            spec_event_plan2::<E, T, U>(*world, self@, map_step(r, |p: EventPlan| event_view(p))),
    {
        self.plan_event2::<E, T, U>(world)
    }

    pub(crate) fn new(raw: ecs_entity_t) -> (r: Entity)
        ensures
            r@ == raw,
    {
        Entity { raw }
    }

    /// The entity's flecs id.
    pub fn id(&self) -> (r: ecs_entity_t)
        ensures
            r == self@,
    {
        self.raw
    }

    /// Looks up `T` so that flecs can be asked whether the entity has it.
    pub fn has<T: Copy + 'static>(&self, world: &World) -> (r: Result<Step<ComponentInfo>, EcsError>)
        requires
            world.wf(),
        ensures
            world.lookup_of::<T>(r),
    {
        world.component_info::<T>()
    }

    /// Checks that the entity may be deleted: refused while any of its components is
    /// borrowed.
    pub fn destruct(self, world: &World) -> (r: Result<(), EcsError>)
        requires
            world.wf(),
        ensures
            r is Ok <==> !entity_borrowed(world.borrows(), self@),
            r is Err ==> r == Err::<(), EcsError>(EcsError::EntityBorrowed),
    {
        world.assert_can_mutate_structure(self.raw)
    }

    fn write<T: 'static>(self, world: &mut World, tag: bool) -> (r: Result<
        Step<ComponentAccess>,
        EcsError,
    >)
        requires
            old(world).wf(),
        ensures
            final(world).wf(),
            final(world).components() == old(world).components(),
            final(world).pending() == old(world).pending(),
            entity_borrowed(old(world).borrows(), self@) ==> r == Err::<
                Step<ComponentAccess>,
                EcsError,
            >(EcsError::EntityBorrowed) && final(world).borrows() == old(world).borrows(),
            !entity_borrowed(old(world).borrows(), self@) ==> exists|
                lt: Result<Step<ComponentInfo>, EcsError>,
            |
                old(world).lookup_of::<T>(lt) && spec_write_step(
                    old(world).borrows(),
                    self@,
                    lt,
                    tag,
                    r,
                    final(world).borrows(),
                ),
    {
        world.assert_can_mutate_structure(self.raw)?;
        let lt = world.component_info::<T>();
        let ghost w0 = *world;
        let r = match lt {
            Err(e) => Err(e),
            Ok(Step::NeedsComponent(q)) => Ok(Step::NeedsComponent(q)),
            Ok(Step::Ready(info)) => match world.borrow_component_mut(self.raw, info.id, false) {
                Ok(guard) => Ok(Step::Ready(ComponentAccess { info, guard, tag })),
                Err(e) => Err(e),
            },
        };
        assert(w0.lookup_of::<T>(lt));
        r
    }

    /// Checks adding the zero-sized tag `T`: refused for a type with data, then while
    /// any component of the entity is borrowed; then `T` is looked up, and the pair is
    /// borrowed mutably while flecs adds it.
    pub fn add<T: Copy + 'static>(self, world: &mut World) -> (r: Result<
        Step<ComponentAccess>,
        EcsError,
    >)
        requires
            old(world).wf(),
        ensures
            final(world).wf(),
            final(world).components() == old(world).components(),
            final(world).pending() == old(world).pending(),
            vstd::layout::size_of::<T>() != 0 ==> r == Err::<Step<ComponentAccess>, EcsError>(
                EcsError::NotATag,
            ) && final(world).borrows() == old(world).borrows(),
            vstd::layout::size_of::<T>() == 0 && entity_borrowed(old(world).borrows(), self@) ==> r
                == Err::<Step<ComponentAccess>, EcsError>(EcsError::EntityBorrowed) && final(world).borrows() == old(world).borrows(),
            vstd::layout::size_of::<T>() == 0 && !entity_borrowed(old(world).borrows(), self@)
                ==> exists|lt: Result<Step<ComponentInfo>, EcsError>|
                old(world).lookup_of::<T>(lt) && spec_write_step(
                    old(world).borrows(),
                    self@,
                    lt,
                    true,
                    r,
                    final(world).borrows(),
                ),
    {
        if core::mem::size_of::<T>() != 0 {
            return Err(EcsError::NotATag);
        }
        self.write::<T>(world, true)
    }

    /// Checks setting a value of `T`: refused while any component of the entity is
    /// borrowed; then `T` is looked up, and the pair is borrowed mutably while flecs
    /// writes it. A zero-sized `T` is a tag, which flecs adds instead.
    pub fn set<T: Copy + 'static>(self, world: &mut World) -> (r: Result<
        Step<ComponentAccess>,
        EcsError,
    >)
        requires
            old(world).wf(),
        ensures
            final(world).wf(),
            final(world).components() == old(world).components(),
            final(world).pending() == old(world).pending(),
            entity_borrowed(old(world).borrows(), self@) ==> r == Err::<
                Step<ComponentAccess>,
                EcsError,
            >(EcsError::EntityBorrowed) && final(world).borrows() == old(world).borrows(),
            !entity_borrowed(old(world).borrows(), self@) ==> exists|
                lt: Result<Step<ComponentInfo>, EcsError>,
            |
                old(world).lookup_of::<T>(lt) && spec_write_step(
                    old(world).borrows(),
                    self@,
                    lt,
                    vstd::layout::size_of::<T>() == 0,
                    r,
                    final(world).borrows(),
                ),
    {
        let tag = core::mem::size_of::<T>() == 0;
        self.write::<T>(world, tag)
    }

    /// Checks removing `T`: refused while any component of the entity is borrowed;
    /// then `T` is looked up, and the pair is borrowed mutably while flecs removes it.
    pub fn remove<T: Copy + 'static>(self, world: &mut World) -> (r: Result<
        Step<ComponentAccess>,
        EcsError,
    >)
        requires
            old(world).wf(),
        ensures
            final(world).wf(),
            final(world).components() == old(world).components(),
            final(world).pending() == old(world).pending(),
            entity_borrowed(old(world).borrows(), self@) ==> r == Err::<
                Step<ComponentAccess>,
                EcsError,
            >(EcsError::EntityBorrowed) && final(world).borrows() == old(world).borrows(),
            !entity_borrowed(old(world).borrows(), self@) ==> exists|
                lt: Result<Step<ComponentInfo>, EcsError>,
            |
                old(world).lookup_of::<T>(lt) && spec_write_step(
                    old(world).borrows(),
                    self@,
                    lt,
                    vstd::layout::size_of::<T>() == 0,
                    r,
                    final(world).borrows(),
                ),
    {
        let tag = core::mem::size_of::<T>() == 0;
        self.write::<T>(world, tag)
    }

    /// Borrows the component `info` of the entity for reading, where `present` is
    /// whether flecs found it on the entity: refused when it did not.
    pub fn get(&self, world: &mut World, info: ComponentInfo, present: bool) -> (r: Result<
        ComponentBorrowGuard,
        EcsError,
    >)
        requires
            old(world).wf(),
        ensures
            final(world).wf(),
            final(world).components() == old(world).components(),
            final(world).pending() == old(world).pending(),
            !present ==> (r matches Err(e) && e == EcsError::ComponentMissing) && final(world).borrows()
                == old(world).borrows(),
            present ==> match spec_acquire_shared(
                old(world).borrows(),
                BorrowKey { entity: self@, component: info.id },
            ) {
                Ok(m) => (r matches Ok(g) && g.key() == (BorrowKey { entity: self@, component: info.id })
                    && g.kind() == GuardKind::Shared) && final(world).borrows() == m,
                Err(e) => (r matches Err(x) && x == EcsError::Borrow(e)) && final(world).borrows()
                    == old(world).borrows(),
            },
    {
        if !present {
            return Err(EcsError::ComponentMissing);
        }
        world.borrow_component(self.raw, info.id)
    }

    /// Borrows the component `info` of the entity for writing, where `present` is
    /// whether flecs found it on the entity: refused when it did not. Releasing the
    /// borrow flags the component as modified.
    pub fn get_mut(&self, world: &mut World, info: ComponentInfo, present: bool) -> (r: Result<
        ComponentBorrowGuard,
        EcsError,
    >)
        requires
            old(world).wf(),
        ensures
            final(world).wf(),
            final(world).components() == old(world).components(),
            final(world).pending() == old(world).pending(),
            !present ==> (r matches Err(e) && e == EcsError::ComponentMissing) && final(world).borrows()
                == old(world).borrows(),
            present ==> match spec_acquire_mutable(
                old(world).borrows(),
                BorrowKey { entity: self@, component: info.id },
            ) {
                Ok(m) => (r matches Ok(g) && g.key() == (BorrowKey { entity: self@, component: info.id })
                    && g.kind() == (GuardKind::Mutable { notify_modified: true })) && final(world).borrows() == m,
                Err(e) => (r matches Err(x) && x == EcsError::Borrow(e)) && final(world).borrows()
                    == old(world).borrows(),
            },
    {
        if !present {
            return Err(EcsError::ComponentMissing);
        }
        world.borrow_component_mut(self.raw, info.id, true)
    }

    /// Checks an observer of the event `E` on this entity; see `build_entity_observer`.
    pub fn observe<E: Copy + 'static>(&self, world: &World) -> (r: Result<
        Step<EntityObserverInit>,
        EcsError,
    >)
        requires
            world.wf(),
        ensures
            spec_entity_observer_plan::<E>(*world, self@, map_step(r, |o: EntityObserverInit| o@)),
    {
        build_entity_observer::<E>(world, self.raw)
    }
}

/// Looking up `T` for `has` gives, for a registered `T`, `T`'s own registration:
/// flecs is then asked about the id registered for `T`.
pub proof fn lemma_has_registered<T>(world: World, r: Result<Step<ComponentInfo>, EcsError>)
    requires
        world.lookup_of::<T>(r),
        world.components().contains_key(type_identity::<T>()),
    ensures
        r == Ok::<Step<ComponentInfo>, EcsError>(
            Step::Ready(world.components()[type_identity::<T>()]),
        ),
{
    crate::world::lemma_lookup_of_registered::<T>(world, r);
}

/// A structural write of a registered `T`, on an entity none of whose components is
/// borrowed, goes ahead: it hands out `T`'s registration and borrows the pair of the
/// entity and `T`'s registered id mutably, without a modified flag.
proof fn lemma_write_registered<T>(
    world: World,
    entity: ecs_entity_t,
    tag: bool,
    r: Result<Step<ComponentAccess>, EcsError>,
    after: BorrowMap,
)
    requires
        !entity_borrowed(world.borrows(), entity),
        world.components().contains_key(type_identity::<T>()),
        exists|lt: Result<Step<ComponentInfo>, EcsError>|
            world.lookup_of::<T>(lt) && spec_write_step(world.borrows(), entity, lt, tag, r, after),
    ensures
        (r matches Ok(Step::Ready(a)) && a.info == world.components()[type_identity::<T>()]
            && a.guard.key() == (BorrowKey {
            entity,
            component: world.components()[type_identity::<T>()].id,
        }) && a.guard.kind() == (GuardKind::Mutable { notify_modified: false }) && a.tag == tag),
        after == world.borrows().insert(
            BorrowKey { entity, component: world.components()[type_identity::<T>()].id },
            BorrowState::Mutable,
        ),
{
    let lt = choose|lt: Result<Step<ComponentInfo>, EcsError>|
        world.lookup_of::<T>(lt) && spec_write_step(world.borrows(), entity, lt, tag, r, after);
    crate::world::lemma_lookup_of_registered::<T>(world, lt);
    let key = BorrowKey { entity, component: world.components()[type_identity::<T>()].id };
    if world.borrows().contains_key(key) {
        assert(entity_borrowed(world.borrows(), entity));
    }
}

/// Removing a registered `T` from an entity none of whose components is borrowed
/// goes ahead with `T`'s registration: the pair of the entity and `T`'s registered id
/// is borrowed mutably, without a modified flag, while flecs removes that id; the
/// write is a tag exactly when `T` is zero-sized.
pub proof fn lemma_remove_registered<T>(
    world: World,
    entity: ecs_entity_t,
    r: Result<Step<ComponentAccess>, EcsError>,
    after: BorrowMap,
)
    requires
        !entity_borrowed(world.borrows(), entity),
        world.components().contains_key(type_identity::<T>()),
        exists|lt: Result<Step<ComponentInfo>, EcsError>|
            world.lookup_of::<T>(lt) && spec_write_step(
                world.borrows(),
                entity,
                lt,
                vstd::layout::size_of::<T>() == 0,
                r,
                after,
            ),
    ensures
        (r matches Ok(Step::Ready(a)) && a.info == world.components()[type_identity::<T>()]
            && a.guard.key() == (BorrowKey {
            entity,
            component: world.components()[type_identity::<T>()].id,
        }) && a.guard.kind() == (GuardKind::Mutable { notify_modified: false }) && a.tag == (
        vstd::layout::size_of::<T>() == 0)),
        after == world.borrows().insert(
            BorrowKey { entity, component: world.components()[type_identity::<T>()].id },
            BorrowState::Mutable,
        ),
{
    lemma_write_registered::<T>(world, entity, vstd::layout::size_of::<T>() == 0, r, after);
}

/// Setting a registered `T` on an entity none of whose components is borrowed goes
/// ahead with `T`'s registration: the pair of the entity and `T`'s registered id is
/// borrowed mutably, without a modified flag, while flecs writes it; a zero-sized
/// `T` is a tag.
pub proof fn lemma_set_registered<T>(
    world: World,
    entity: ecs_entity_t,
    r: Result<Step<ComponentAccess>, EcsError>,
    after: BorrowMap,
)
    requires
        !entity_borrowed(world.borrows(), entity),
        world.components().contains_key(type_identity::<T>()),
        exists|lt: Result<Step<ComponentInfo>, EcsError>|
            world.lookup_of::<T>(lt) && spec_write_step(
                world.borrows(),
                entity,
                lt,
                vstd::layout::size_of::<T>() == 0,
                r,
                after,
            ),
    ensures
        (r matches Ok(Step::Ready(a)) && a.info == world.components()[type_identity::<T>()]
            && a.guard.key() == (BorrowKey {
            entity,
            component: world.components()[type_identity::<T>()].id,
        }) && a.guard.kind() == (GuardKind::Mutable { notify_modified: false }) && a.tag == (
        vstd::layout::size_of::<T>() == 0)),
        after == world.borrows().insert(
            BorrowKey { entity, component: world.components()[type_identity::<T>()].id },
            BorrowState::Mutable,
        ),
{
    lemma_write_registered::<T>(world, entity, vstd::layout::size_of::<T>() == 0, r, after);
}

/// With the event `E` registered and nothing borrowed, an observer of `E` on `entity`
/// listens to `E`'s registered id on that entity.
pub proof fn lemma_entity_observer_registered<E>(
    world: World,
    entity: ecs_entity_t,
    r: Result<Step<(u64, ecs_entity_t)>, EcsError>,
)
    requires
        spec_entity_observer_plan::<E>(world, entity, r),
        world.no_borrows(),
        world.components().contains_key(type_identity::<E>()),
    ensures
        r == Ok::<Step<(u64, ecs_entity_t)>, EcsError>(
            Step::Ready((world.components()[type_identity::<E>()].id, entity)),
        ),
{
    let le = choose|le: Result<Step<ComponentInfo>, EcsError>|
        world.lookup_of::<E>(le) && r == then_lookup(
            le,
            |e: ComponentInfo| Ok::<Step<(u64, ecs_entity_t)>, EcsError>(Step::Ready((e.id, entity))),
        );
    crate::world::lemma_lookup_of_registered::<E>(world, le);
}

/// An observer of the event `E` listens to the very event id that emitting `E` sends,
/// whenever both are planned in the same world.
pub proof fn lemma_observer_hears_emit<E>(
    world: World,
    entity: ecs_entity_t,
    observed: Result<Step<(u64, ecs_entity_t)>, EcsError>,
    emitted: Result<Step<(ecs_id_t, ecs_entity_t, Seq<ecs_id_t>, i32)>, EcsError>,
)
    requires
        spec_entity_observer_plan::<E>(world, entity, observed),
        spec_event_plan::<E>(world, entity, emitted),
        observed is Ok && observed->Ok_0 is Ready,
        emitted is Ok && emitted->Ok_0 is Ready,
    ensures
        observed->Ok_0->Ready_0.0 == emitted->Ok_0->Ready_0.0,
{
    let le = choose|le: Result<Step<ComponentInfo>, EcsError>|
        world.lookup_of::<E>(le) && emitted == then_lookup(
            le,
            |e: ComponentInfo|
                Ok::<Step<(ecs_id_t, ecs_entity_t, Seq<ecs_id_t>, i32)>, EcsError>(
                    Step::Ready((e.id, entity, Seq::<ecs_id_t>::empty(), 0i32)),
                ),
        );
    let lo = choose|lo: Result<Step<ComponentInfo>, EcsError>|
        world.lookup_of::<E>(lo) && observed == then_lookup(
            lo,
            |e: ComponentInfo| Ok::<Step<(u64, ecs_entity_t)>, EcsError>(Step::Ready((e.id, entity))),
        );
    assert(le == lo);
}

} // verus!
