//! The library's side of a world: the component registry, the borrow table and the
//! slot in which a failure inside a flecs callback waits to be raised again.
use std::any::TypeId;
use vstd::prelude::*;

use crate::borrow::{
    entity_borrowed, spec_acquire_mutable, spec_acquire_shared, spec_release_shared, BorrowKey,
    BorrowMap, BorrowState, BorrowTracker, ComponentBorrowGuard, GuardKind,
};
use crate::entity::Entity;
use crate::error::EcsError;
use crate::observer::ObserverBuilder;
use crate::param::QueryParam;
use crate::query::QueryBuilder;
use crate::registry::{spec_record, type_id_of, type_identity, ComponentInfo, ComponentMap, Registry};
use crate::sys::{ecs_entity_t, ecs_id_t};
use crate::system::SystemBuilder;

verus! {

/// A component type that has not been registered with flecs yet: the identity, byte
/// size and alignment that its registration needs.
#[derive(Clone, Copy, Debug)]
pub struct ComponentRequest {
    pub type_id: TypeId,
    pub size: usize,
    pub align: usize,
}

/// An operation that either needs a component type registered first, or is ready.
pub enum Step<X> {
    /// Register this component type (and record the answer with
    /// `World::register_component`), then ask again.
    NeedsComponent(ComponentRequest),
    /// Nothing is missing.
    Ready(X),
}

/// Which kind of flecs callback recorded a failure.
#[derive(Clone, Copy, PartialEq, Eq, Structural, Debug)]
pub enum CallbackKind {
    System,
    Observer,
}

/// A failure inside a flecs callback, kept until the world can raise it again.
#[derive(Clone, Copy, PartialEq, Eq, Structural, Debug)]
pub enum PendingPanic {
    /// The callback's iterator reported a negative row count.
    NegativeRowCount(CallbackKind),
    /// The callback's iterator reported the invalid entity 0.
    InvalidEntity(CallbackKind),
    /// An entity observer's event came from the invalid entity 0.
    InvalidSource,
    /// A row's component borrows were refused.
    Borrow(crate::borrow::BorrowError),
    /// The user callback panicked; its payload is kept by the caller.
    CallbackPanicked,
}

/// What looking up the type `type_id` gives in a world with the registry `components`
/// and the borrow table `borrows`: its registration if there is one; else a request to
/// register it, which is refused while any borrow is active.
pub open spec fn spec_lookup(
    components: ComponentMap,
    borrows: BorrowMap,
    type_id: TypeId,
    size: usize,
    align: usize,
) -> Result<Step<ComponentInfo>, EcsError> {
    if components.contains_key(type_id) {
        Ok(Step::Ready(components[type_id]))
    } else if !borrows.dom().is_empty() {
        Err(EcsError::ActiveComponentBorrows)
    } else {
        Ok(Step::NeedsComponent(ComponentRequest { type_id, size, align }))
    }
}

/// Once a type is registered, every later lookup of it gives that registration,
/// whatever is borrowed then.
pub proof fn lemma_register_then_lookup(
    components: ComponentMap,
    type_id: TypeId,
    raw_id: ecs_id_t,
    size: usize,
    align: usize,
    later_borrows: BorrowMap,
)
    requires
        spec_record(components, type_id, raw_id, size) is Ok,
    ensures
        spec_lookup(
            spec_record(components, type_id, raw_id, size)->Ok_0.0,
            later_borrows,
            type_id,
            size,
            align,
        ) == Ok::<Step<ComponentInfo>, EcsError>(
            Step::Ready(spec_record(components, type_id, raw_id, size)->Ok_0.1),
        ),
{
}

/// A lookup never asks for a registration while a borrow is active.
pub proof fn lemma_no_registration_while_borrowed(
    components: ComponentMap,
    borrows: BorrowMap,
    type_id: TypeId,
    size: usize,
    align: usize,
)
    requires
        !borrows.dom().is_empty(),
    ensures
        !(spec_lookup(components, borrows, type_id, size, align) matches Ok(Step::NeedsComponent(_))),
{
}

/// What a lookup gives once it is resolved.
pub open spec fn then_lookup<X>(
    lookup: Result<Step<ComponentInfo>, EcsError>,
    f: spec_fn(ComponentInfo) -> Result<Step<X>, EcsError>,
) -> Result<Step<X>, EcsError> {
    match lookup {
        Err(e) => Err(e),
        Ok(Step::NeedsComponent(q)) => Ok(Step::NeedsComponent(q)),
        Ok(Step::Ready(info)) => f(info),
    }
}

/// The same result, with the ready value seen through `f`.
pub open spec fn map_step<X, Y>(r: Result<Step<X>, EcsError>, f: spec_fn(X) -> Y) -> Result<
    Step<Y>,
    EcsError,
> {
    match r {
        Err(e) => Err(e),
        Ok(Step::NeedsComponent(q)) => Ok(Step::NeedsComponent(q)),
        Ok(Step::Ready(x)) => Ok(Step::Ready(f(x))),
    }
}

/// What a bulk creation of `count` entities with the components `ids` asks of flecs:
/// the ids, the entity count and the id count, each count as the 32-bit number flecs
/// takes.
pub open spec fn spec_bulk(ids: Seq<ecs_id_t>, count: usize) -> Result<
    Step<(Seq<ecs_id_t>, i32, i32)>,
    EcsError,
> {
    if count > i32::MAX {
        Err(EcsError::CountTooLarge)
    } else {
        Ok(Step::Ready((ids, count as i32, ids.len() as i32)))
    }
}

/// The entities, ids and counts of a bulk creation.
pub struct BulkPlan {
    /// The components every new entity gets.
    pub ids: Vec<ecs_id_t>,
    /// How many entities to create.
    pub entity_count: i32,
    /// How many components each gets.
    pub id_count: i32,
}

/// A bulk plan seen as its ids and counts.
pub open spec fn bulk_view(p: BulkPlan) -> (Seq<ecs_id_t>, i32, i32) {
    (p.ids@, p.entity_count, p.id_count)
}

impl BulkPlan {
    /// Turns flecs' answer into entities: `ok` is whether flecs created them, `out`
    /// the ids it wrote, one per entity.
    pub fn finish(self, ok: bool, out: Vec<ecs_entity_t>) -> (r: Result<Vec<Entity>, EcsError>)
        requires
            out@.len() == self.entity_count,
        ensures
            !ok ==> r == Err::<Vec<Entity>, EcsError>(EcsError::BulkInitFailed),
            ok ==> (r matches Ok(es) && es@.len() == out@.len() && forall|i: int|
                0 <= i < out@.len() ==> #[trigger] es@[i]@ == out@[i]),
    {
        if !ok {
            return Err(EcsError::BulkInitFailed);
        }
        let mut entities: Vec<Entity> = Vec::new();
        let mut i: usize = 0;
        while i < out.len()
            invariant
                i <= out@.len(),
                entities@.len() == i,
                forall|j: int| 0 <= j < i ==> #[trigger] entities@[j]@ == out@[j],
            decreases out@.len() - i,
        {
            entities.push(Entity::new(out[i]));
            i = i + 1;
        }
        Ok(entities)
    }
}

/// Looking up a registered Rust type `T` gives `T`'s own registration, whatever is
/// borrowed.
pub proof fn lemma_lookup_of_registered<T>(world: World, r: Result<Step<ComponentInfo>, EcsError>)
    requires
        world.lookup_of::<T>(r),
        world.components().contains_key(type_identity::<T>()),
    ensures
        r == Ok::<Step<ComponentInfo>, EcsError>(
            Step::Ready(world.components()[type_identity::<T>()]),
        ),
{
}

/// A lookup of the Rust type `T` that asks for a registration asks for `T` itself,
/// with `T`'s size and alignment, and asks only when `T` is not registered and nothing
/// is borrowed.
pub proof fn lemma_lookup_of_requests_own_type<T>(
    world: World,
    r: Result<Step<ComponentInfo>, EcsError>,
    request: ComponentRequest,
)
    requires
        world.lookup_of::<T>(r),
        r == Ok::<Step<ComponentInfo>, EcsError>(Step::NeedsComponent(request)),
    ensures
        request.type_id == type_identity::<T>(),
        request.size == vstd::layout::size_of_as_usize::<T>(),
        request.align == vstd::layout::align_of_as_usize::<T>(),
        !world.components().contains_key(type_identity::<T>()),
        world.no_borrows(),
{
}

/// Recording flecs' answer `raw_id` (not 0) to the registration that a lookup of `T`
/// asked for makes every later lookup of `T` give a registration with that id and
/// `T`'s size, whatever is borrowed then.
pub proof fn lemma_registered_request_answers_lookup<T>(
    world: World,
    r: Result<Step<ComponentInfo>, EcsError>,
    request: ComponentRequest,
    raw_id: ecs_id_t,
    later: World,
    r2: Result<Step<ComponentInfo>, EcsError>,
)
    requires
        world.lookup_of::<T>(r),
        r == Ok::<Step<ComponentInfo>, EcsError>(Step::NeedsComponent(request)),
        raw_id != 0,
        later.components() == spec_record(world.components(), request.type_id, raw_id, request.size)->Ok_0.0,
        later.lookup_of::<T>(r2),
    ensures
        r2 == Ok::<Step<ComponentInfo>, EcsError>(
            Step::Ready(ComponentInfo { id: raw_id, size: vstd::layout::size_of_as_usize::<T>() }),
        ),
{
}

/// The library's state of one world.
pub struct World {
    registry: Registry,
    tracker: BorrowTracker,
    pending_panic: Option<PendingPanic>,
}

impl World {
    /// The world's consistency.
    pub closed spec fn wf(&self) -> bool {
        self.registry.wf() && self.tracker.wf()
    }

    /// The registered component types.
    pub closed spec fn components(&self) -> ComponentMap {
        self.registry@
    }

    /// The active component borrows.
    pub closed spec fn borrows(&self) -> BorrowMap {
        self.tracker@
    }

    /// The failure waiting to be raised again, if any.
    pub closed spec fn pending(&self) -> Option<PendingPanic> {
        self.pending_panic
    }

    /// Whether no component borrow is active.
    pub open spec fn no_borrows(&self) -> bool {
        self.borrows().dom().is_empty()
    }

    /// What a lookup of the type `type_id` gives: its registration if there is one;
    /// else a request to register it, which is refused while any borrow is active.
    pub open spec fn lookup_spec(&self, type_id: TypeId, size: usize, align: usize) -> Result<
        Step<ComponentInfo>,
        EcsError,
    > {
        spec_lookup(self.components(), self.borrows(), type_id, size, align)
    }

    /// Whether `r` is what looking up the Rust type `T` gives: the lookup of `T`'s own
    /// identity, with `T`'s size and alignment.
    pub open spec fn lookup_of<T>(&self, r: Result<Step<ComponentInfo>, EcsError>) -> bool {
        r == self.lookup_spec(
            type_identity::<T>(),
            vstd::layout::size_of_as_usize::<T>(),
            vstd::layout::align_of_as_usize::<T>(),
        )
    }

    /// A world with nothing registered, nothing borrowed and nothing pending.
    pub fn new() -> (r: World)
        ensures
            r.wf(),
            r.components() == ComponentMap::empty(),
            r.borrows() == BorrowMap::empty(),
            r.pending() == None::<PendingPanic>,
    {
        World {
            registry: Registry::new(),
            tracker: BorrowTracker::new(),
            pending_panic: None,
        }
    }

    /// Looks up the component type `type_id` of `size` bytes and alignment `align`.
    pub fn lookup_component(&self, type_id: TypeId, size: usize, align: usize) -> (r: Result<
        Step<ComponentInfo>,
        EcsError,
    >)
        requires
            self.wf(),
        ensures
            r == self.lookup_spec(type_id, size, align),
    {
        if let Some(info) = self.registry.get(&type_id) {
            return Ok(Step::Ready(info));
        }
        if self.tracker.has_active_borrows() {
            return Err(EcsError::ActiveComponentBorrows);
        }
        Ok(Step::NeedsComponent(ComponentRequest { type_id, size, align }))
    }

    /// Looks up the component type `T`.
    pub fn component_info<T: 'static>(&self) -> (r: Result<Step<ComponentInfo>, EcsError>)
        requires
            self.wf(),
        ensures
            self.lookup_of::<T>(r),
    {
        let type_id = type_id_of::<T>();
        let r = self.lookup_component(
            type_id,
            core::mem::size_of::<T>(),
            core::mem::align_of::<T>(),
        );
        assert(r == self.lookup_spec(
            type_id,
            vstd::layout::size_of_as_usize::<T>(),
            vstd::layout::align_of_as_usize::<T>(),
        ));
        r
    }

    /// Records flecs' answer `raw_id` to the registration that `request` asked for.
    /// A type that is registered already keeps its registration; otherwise the
    /// registration is refused while any borrow is active, and refused if flecs
    /// answered 0.
    pub fn register_component(&mut self, request: ComponentRequest, raw_id: ecs_id_t) -> (r: Result<
        ComponentInfo,
        EcsError,
    >)
        requires
            old(self).wf(),
        ensures
            final(self).wf(),
            final(self).borrows() == old(self).borrows(),
            final(self).pending() == old(self).pending(),
            old(self).components().contains_key(request.type_id) ==> r == Ok::<ComponentInfo, EcsError>(
                old(self).components()[request.type_id],
            ) && final(self).components() == old(self).components(),
            !old(self).components().contains_key(request.type_id) && !old(self).no_borrows() ==> r
                == Err::<ComponentInfo, EcsError>(EcsError::ActiveComponentBorrows)
                && final(self).components() == old(self).components(),
            !old(self).components().contains_key(request.type_id) && old(self).no_borrows() ==> match spec_record(
                old(self).components(),
                request.type_id,
                raw_id,
                request.size,
            ) {
                Ok((m, info)) => r == Ok::<ComponentInfo, EcsError>(info) && final(self).components() == m,
                Err(_) => r == Err::<ComponentInfo, EcsError>(EcsError::RegistrationFailed)
                    && final(self).components() == old(self).components(),
            },
    {
        if let Some(info) = self.registry.get(&request.type_id) {
            return Ok(info);
        }
        if self.tracker.has_active_borrows() {
            return Err(EcsError::ActiveComponentBorrows);
        }
        match self.registry.record(request.type_id, raw_id, request.size) {
            Ok(info) => Ok(info),
            Err(_) => Err(EcsError::RegistrationFailed),
        }
    }

    /// Takes a shared borrow of `component` on `entity`.
    pub fn borrow_component(&mut self, entity: ecs_entity_t, component: ecs_id_t) -> (r: Result<
        ComponentBorrowGuard,
        EcsError,
    >)
        requires
            old(self).wf(),
        ensures
            final(self).wf(),
            final(self).components() == old(self).components(),
            final(self).pending() == old(self).pending(),
            match spec_acquire_shared(old(self).borrows(), BorrowKey { entity, component }) {
                Ok(m) => r matches Ok(g) && g.key() == (BorrowKey { entity, component })
                    && g.kind() == GuardKind::Shared && final(self).borrows() == m,
                Err(e) => r matches Err(x) && x == EcsError::Borrow(e) && final(self).borrows()
                    == old(self).borrows(),
            },
    {
        match ComponentBorrowGuard::shared(&mut self.tracker, entity, component) {
            Ok(g) => Ok(g),
            Err(e) => Err(EcsError::Borrow(e)),
        }
    }

    /// Takes the mutable borrow of `component` on `entity`; `notify_modified` says
    /// whether its release flags the component as modified.
    pub fn borrow_component_mut(
        &mut self,
        entity: ecs_entity_t,
        component: ecs_id_t,
        notify_modified: bool,
    ) -> (r: Result<ComponentBorrowGuard, EcsError>)
        requires
            old(self).wf(),
        ensures
            final(self).wf(),
            final(self).components() == old(self).components(),
            final(self).pending() == old(self).pending(),
            match spec_acquire_mutable(old(self).borrows(), BorrowKey { entity, component }) {
                Ok(m) => r matches Ok(g) && g.key() == (BorrowKey { entity, component })
                    && g.kind() == (GuardKind::Mutable { notify_modified })
                    && final(self).borrows() == m,
                Err(e) => r matches Err(x) && x == EcsError::Borrow(e) && final(self).borrows()
                    == old(self).borrows(),
            },
    {
        match ComponentBorrowGuard::mutable(&mut self.tracker, entity, component, notify_modified) {
            Ok(g) => Ok(g),
            Err(e) => Err(EcsError::Borrow(e)),
        }
    }

    /// Gives a component borrow back; see `ComponentBorrowGuard::release`.
    pub fn release_component(&mut self, guard: ComponentBorrowGuard) -> (r: (
        Option<BorrowKey>,
        Result<(), EcsError>,
    ))
        requires
            old(self).wf(),
        ensures
            final(self).wf(),
            final(self).components() == old(self).components(),
            final(self).pending() == old(self).pending(),
            r.0 == (if guard.kind() == (GuardKind::Mutable { notify_modified: true }) {
                Some(guard.key())
            } else {
                None::<BorrowKey>
            }),
            match guard.kind() {
                GuardKind::Shared => match spec_release_shared(old(self).borrows(), guard.key()) {
                    Ok(m) => r.1 is Ok && final(self).borrows() == m,
                    Err(e) => r.1 == Err::<(), EcsError>(EcsError::Borrow(e)) && final(self).borrows()
                        == old(self).borrows(),
                },
                GuardKind::Mutable { .. } => {
                    &&& final(self).borrows() == old(self).borrows().remove(guard.key())
                    &&& (r.1 is Ok <==> (old(self).borrows().contains_key(guard.key())
                        && old(self).borrows()[guard.key()] == BorrowState::Mutable))
                    &&& (r.1 is Err ==> r.1 == Err::<(), EcsError>(
                        EcsError::Borrow(crate::borrow::BorrowError::InconsistentMutableRelease),
                    ))
                },
            },
    {
        let (modified, result) = guard.release(&mut self.tracker);
        match result {
            Ok(()) => (modified, Ok(())),
            Err(e) => (modified, Err(EcsError::Borrow(e))),
        }
    }

    /// Refuses while any component of `entity` is borrowed: its structure may not
    /// change then.
    pub fn assert_can_mutate_structure(&self, entity: ecs_entity_t) -> (r: Result<(), EcsError>)
        requires
            self.wf(),
        ensures
            r is Ok <==> !entity_borrowed(self.borrows(), entity),
            r is Err ==> r == Err::<(), EcsError>(EcsError::EntityBorrowed),
    {
        if self.tracker.can_mutate_structure(entity) {
            Ok(())
        } else {
            Err(EcsError::EntityBorrowed)
        }
    }

    /// Refuses while any component borrow is active.
    pub fn assert_no_active_component_borrows(&self) -> (r: Result<(), EcsError>)
        requires
            self.wf(),
        ensures
            r is Ok <==> self.no_borrows(),
            r is Err ==> r == Err::<(), EcsError>(EcsError::ActiveComponentBorrows),
    {
        if self.tracker.has_active_borrows() {
            Err(EcsError::ActiveComponentBorrows)
        } else {
            Ok(())
        }
    }

    /// In a consistent world, every shared borrow in the table is counted at least
    /// once.
    pub proof fn lemma_counts(&self)
        requires
            self.wf(),
        ensures
            crate::borrow::counts_positive(self.borrows()),
    {
        self.tracker.lemma_wf_counts();
    }

    /// Whether a failure is kept.
    pub fn has_pending_panic(&self) -> (r: bool)
        ensures
            r == self.pending() is Some,
    {
        self.pending_panic.is_some()
    }

    /// Keeps `failure` until the world raises it again, in place of any failure kept
    /// before.
    pub fn set_pending_panic(&mut self, failure: PendingPanic)
        requires
            old(self).wf(),
        ensures
            final(self).wf(),
            final(self).components() == old(self).components(),
            final(self).borrows() == old(self).borrows(),
            final(self).pending() == Some(failure),
    {
        self.pending_panic = Some(failure);
    }

    /// Takes the kept failure out of the world, to be raised again.
    pub fn resume_pending_panic(&mut self) -> (r: Option<PendingPanic>)
        requires
            old(self).wf(),
        ensures
            final(self).wf(),
            final(self).components() == old(self).components(),
            final(self).borrows() == old(self).borrows(),
            r == old(self).pending(),
            final(self).pending() == None::<PendingPanic>,
    {
        self.pending_panic.take()
    }

    /// Finishes a frame: `progressed` is what flecs answered. A failure kept during
    /// the frame is raised in place of the answer.
    pub fn progress(&mut self, progressed: bool) -> (r: Result<bool, PendingPanic>)
        requires
            old(self).wf(),
        ensures
            final(self).wf(),
            final(self).components() == old(self).components(),
            final(self).borrows() == old(self).borrows(),
            final(self).pending() == None::<PendingPanic>,
            r == match old(self).pending() {
                Some(p) => Err::<bool, PendingPanic>(p),
                None => Ok(progressed),
            },
    {
        match self.resume_pending_panic() {
            Some(p) => Err(p),
            None => Ok(progressed),
        }
    }

    /// Ends deferred mode: `ended` is what flecs answered. A failure kept while the
    /// deferred operations ran is raised in place of the answer.
    pub fn defer_end(&mut self, ended: bool) -> (r: Result<bool, PendingPanic>)
        requires
            old(self).wf(),
        ensures
            final(self).wf(),
            final(self).components() == old(self).components(),
            final(self).borrows() == old(self).borrows(),
            final(self).pending() == None::<PendingPanic>,
            r == match old(self).pending() {
                Some(p) => Err::<bool, PendingPanic>(p),
                None => Ok(ended),
            },
    {
        match self.resume_pending_panic() {
            Some(p) => Err(p),
            None => Ok(ended),
        }
    }

    /// The entity that flecs created with the id `raw`; 0 means the creation failed.
    pub fn entity(&self, raw: ecs_entity_t) -> (r: Result<Entity, EcsError>)
        ensures
            raw == 0 ==> r == Err::<Entity, EcsError>(EcsError::EntityCreationFailed),
            raw != 0 ==> (r matches Ok(e) && e@ == raw),
    {
        if raw == 0 {
            Err(EcsError::EntityCreationFailed)
        } else {
            Ok(Entity::new(raw))
        }
    }

    /// The entity with the id `id`, where `alive` is whether flecs knows it as alive.
    pub fn entity_from_id(&self, id: ecs_entity_t, alive: bool) -> (r: Result<Entity, EcsError>)
        ensures
            id == 0 ==> r == Err::<Entity, EcsError>(EcsError::ZeroEntityId),
            id != 0 && !alive ==> r == Err::<Entity, EcsError>(EcsError::EntityNotAlive),
            id != 0 && alive ==> (r matches Ok(e) && e@ == id),
    {
        if id == 0 {
            return Err(EcsError::ZeroEntityId);
        }
        if !alive {
            return Err(EcsError::EntityNotAlive);
        }
        Ok(Entity::new(id))
    }

    /// Starts a query over the terms `P`.
    pub fn query<P: QueryParam>(&self) -> (r: QueryBuilder<P>) {
        QueryBuilder::new()
    }

    /// Starts a system over the terms `P`.
    pub fn system<P: QueryParam>(&self) -> (r: SystemBuilder<P>) {
        SystemBuilder::new()
    }

    /// Starts an observer over the terms `P`.
    pub fn observer<P: QueryParam>(&self) -> (r: ObserverBuilder<P>) {
        ObserverBuilder::new()
    }

    fn bulk_plan(ids: Vec<ecs_id_t>, count: usize) -> (r: Result<Step<BulkPlan>, EcsError>)
        requires
            ids@.len() <= 3,
        ensures
            map_step(r, |p: BulkPlan| bulk_view(p)) == spec_bulk(ids@, count),
    {
        if count > i32::MAX as usize {
            return Err(EcsError::CountTooLarge);
        }
        let id_count = ids.len() as i32;
        Ok(Step::Ready(BulkPlan { ids, entity_count: count as i32, id_count }))
    }

    /// Plans the creation of `count` entities without components. Refused while any
    /// borrow is active, and when `count` does not fit 32 bits.
    pub fn bulk_empty(&self, count: usize) -> (r: Result<BulkPlan, EcsError>)
        requires
            self.wf(),
        ensures
            !self.no_borrows() ==> r == Err::<BulkPlan, EcsError>(EcsError::ActiveComponentBorrows),
            self.no_borrows() && count > i32::MAX ==> r == Err::<BulkPlan, EcsError>(
                EcsError::CountTooLarge,
            ),
            self.no_borrows() && count <= i32::MAX ==> (r matches Ok(p) && p.ids@ == Seq::<ecs_id_t>::empty()
                && p.entity_count == count && p.id_count == 0),
    {
        self.assert_no_active_component_borrows()?;
        match Self::bulk_plan(Vec::new(), count) {
            Ok(Step::Ready(p)) => Ok(p),
            Ok(Step::NeedsComponent(_)) => Err(EcsError::CountTooLarge),
            Err(e) => Err(e),
        }
    }

    /// Plans the creation of `count` entities, each with a default `T`; the plan comes
    /// with the `count` default values to hand to flecs.
    pub fn bulk_with1<T: Copy + Default + 'static>(&self, count: usize) -> (r: Result<
        Step<(BulkPlan, Vec<T>)>,
        EcsError,
    >)
        requires
            self.wf(),
        ensures
            !self.no_borrows() ==> r == Err::<Step<(BulkPlan, Vec<T>)>, EcsError>(
                EcsError::ActiveComponentBorrows,
            ),
            r matches Ok(Step::Ready((_, a))) ==> a@.len() == count,
            self.no_borrows() ==> exists|lt: Result<Step<ComponentInfo>, EcsError>|
                self.lookup_of::<T>(lt) && map_step(r, |x: (BulkPlan, Vec<T>)| bulk_view(x.0))
                    == then_lookup(
                    lt,
                    |i: ComponentInfo| spec_bulk(seq![i.id], count),
                ),
    {
        self.assert_no_active_component_borrows()?;
        let lt = self.component_info::<T>();
        let first = match lt {
            Err(e) => return Err(e),
            Ok(Step::NeedsComponent(q)) => return Ok(Step::NeedsComponent(q)),
            Ok(Step::Ready(info)) => info,
        };
        let mut ids: Vec<ecs_id_t> = Vec::new();
        ids.push(first.id);
        let planned = Self::bulk_plan(ids, count);
        assert(self.lookup_of::<T>(lt));
        match planned {
            Err(e) => Err(e),
            Ok(Step::NeedsComponent(q)) => Ok(Step::NeedsComponent(q)),
            Ok(Step::Ready(p)) => Ok(Step::Ready((p, vec![T::default(); count]))),
        }
    }

    /// Plans the creation of `count` entities, each with a default `T` and `U`; the plan
    /// comes with the default values to hand to flecs.
    pub fn bulk_with2<T: Copy + Default + 'static, U: Copy + Default + 'static>(
        &self,
        count: usize,
    ) -> (r: Result<Step<(BulkPlan, Vec<T>, Vec<U>)>, EcsError>)
        requires
            self.wf(),
        ensures
            !self.no_borrows() ==> r == Err::<Step<(BulkPlan, Vec<T>, Vec<U>)>, EcsError>(
                EcsError::ActiveComponentBorrows,
            ),
            r matches Ok(Step::Ready((_, a, b))) ==> a@.len() == count && b@.len() == count,
            self.no_borrows() ==> exists|
                lt: Result<Step<ComponentInfo>, EcsError>,
                lu: Result<Step<ComponentInfo>, EcsError>,
            |
                self.lookup_of::<T>(lt) && self.lookup_of::<U>(lu) && map_step(
                    r,
                    |x: (BulkPlan, Vec<T>, Vec<U>)| bulk_view(x.0),
                ) == then_lookup(
                    lt,
                    |i: ComponentInfo|
                        then_lookup(lu, |j: ComponentInfo| spec_bulk(seq![i.id, j.id], count)),
                ),
    {
        self.assert_no_active_component_borrows()?;
        let lt = self.component_info::<T>();
        let lu = self.component_info::<U>();
        let first = match lt {
            Err(e) => return Err(e),
            Ok(Step::NeedsComponent(q)) => return Ok(Step::NeedsComponent(q)),
            Ok(Step::Ready(info)) => info,
        };
        let second = match lu {
            Err(e) => return Err(e),
            Ok(Step::NeedsComponent(q)) => return Ok(Step::NeedsComponent(q)),
            Ok(Step::Ready(info)) => info,
        };
        let mut ids: Vec<ecs_id_t> = Vec::new();
        ids.push(first.id);
        ids.push(second.id);
        assert(ids@ == seq![first.id, second.id]);
        match Self::bulk_plan(ids, count) {
            Err(e) => Err(e),
            Ok(Step::NeedsComponent(q)) => Ok(Step::NeedsComponent(q)),
            Ok(Step::Ready(p)) => Ok(
                Step::Ready((p, vec![T::default(); count], vec![U::default(); count])),
            ),
        }
    }

    /// Plans the creation of `count` entities, each with a default `T`, `U` and `V`; the
    /// plan comes with the default values to hand to flecs.
    pub fn bulk_with3<
        T: Copy + Default + 'static,
        U: Copy + Default + 'static,
        V: Copy + Default + 'static,
    >(&self, count: usize) -> (r: Result<Step<(BulkPlan, Vec<T>, Vec<U>, Vec<V>)>, EcsError>)
        requires
            self.wf(),
        ensures
            !self.no_borrows() ==> r == Err::<Step<(BulkPlan, Vec<T>, Vec<U>, Vec<V>)>, EcsError>(
                EcsError::ActiveComponentBorrows,
            ),
            r matches Ok(Step::Ready((_, a, b, c))) ==> a@.len() == count && b@.len() == count
                && c@.len() == count,
            self.no_borrows() ==> exists|
                lt: Result<Step<ComponentInfo>, EcsError>,
                lu: Result<Step<ComponentInfo>, EcsError>,
                lv: Result<Step<ComponentInfo>, EcsError>,
            |
                self.lookup_of::<T>(lt) && self.lookup_of::<U>(lu) && self.lookup_of::<V>(lv)
                    && map_step(r, |x: (BulkPlan, Vec<T>, Vec<U>, Vec<V>)| bulk_view(x.0))
                    == then_lookup(
                    lt,
                    |i: ComponentInfo|
                        then_lookup(
                            lu,
                            |j: ComponentInfo|
                                then_lookup(
                                    lv,
                                    |k: ComponentInfo| spec_bulk(seq![i.id, j.id, k.id], count),
                                ),
                        ),
                ),
    {
        self.assert_no_active_component_borrows()?;
        let lt = self.component_info::<T>();
        let lu = self.component_info::<U>();
        let lv = self.component_info::<V>();
        let first = match lt {
            Err(e) => return Err(e),
            Ok(Step::NeedsComponent(q)) => return Ok(Step::NeedsComponent(q)),
            Ok(Step::Ready(info)) => info,
        };
        let second = match lu {
            Err(e) => return Err(e),
            Ok(Step::NeedsComponent(q)) => return Ok(Step::NeedsComponent(q)),
            Ok(Step::Ready(info)) => info,
        };
        let third = match lv {
            Err(e) => return Err(e),
            Ok(Step::NeedsComponent(q)) => return Ok(Step::NeedsComponent(q)),
            Ok(Step::Ready(info)) => info,
        };
        let mut ids: Vec<ecs_id_t> = Vec::new();
        ids.push(first.id);
        ids.push(second.id);
        ids.push(third.id);
        assert(ids@ == seq![first.id, second.id, third.id]);
        match Self::bulk_plan(ids, count) {
            Err(e) => Err(e),
            Ok(Step::NeedsComponent(q)) => Ok(Step::NeedsComponent(q)),
            Ok(Step::Ready(p)) => Ok(
                Step::Ready(
                    (
                        p,
                        vec![T::default(); count],
                        vec![U::default(); count],
                        vec![V::default(); count],
                    ),
                ),
            ),
        }
    }
}

impl Default for World {
    fn default() -> (r: World)
        ensures
            r.wf(),
            r.components() == ComponentMap::empty(),
            r.borrows() == BorrowMap::empty(),
            r.pending() == None::<PendingPanic>,
    {
        World::new()
    }
}

} // verus!
