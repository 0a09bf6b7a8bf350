//! Typed observers of custom events: checking their terms before flecs creates them,
//! and the row logic of their callbacks.
use std::marker::PhantomData;
use vstd::prelude::*;

use crate::entity::Entity;
use crate::error::EcsError;
use crate::param::{
    begin_callback_rows, checked_terms, plan_terms2, spec_plan2, term_of, RowCursor, Term,
    TermAccess,
};
use crate::registry::ComponentInfo;
use crate::sys::ecs_entity_t;
use crate::world::{map_step, then_lookup, CallbackKind, PendingPanic, Step, World};

verus! {

/// The start of an observer over the terms `P`.
pub struct ObserverBuilder<P> {
    _marker: PhantomData<P>,
}

impl<P> ObserverBuilder<P> {
    pub(crate) fn new() -> (r: ObserverBuilder<P>) {
        ObserverBuilder { _marker: PhantomData }
    }
}

impl<'param, T: Copy + 'static, U: Copy + 'static> ObserverBuilder<(&'param T, &'param U)> {
    /// Chooses the event `E` that the observer reacts to.
    pub fn event<E: Copy + 'static>(self) -> (r: ObserverEventBuilder<(&'param T, &'param U), E>) {
        ObserverEventBuilder { _marker: PhantomData }
    }
}

/// An observer over the terms `P` of the event `E`.
pub struct ObserverEventBuilder<P, E> {
    _marker: PhantomData<(P, E)>,
}

/// An observer whose event and terms are checked, waiting for flecs to create it.
pub struct ObserverInit<P> {
    terms: Vec<Term>,
    event: u64,
    _marker: PhantomData<P>,
}

impl<P> View for ObserverInit<P> {
    type V = (Seq<Term>, u64);

    /// The terms, and the event's component id.
    closed spec fn view(&self) -> (Seq<Term>, u64) {
        (self.terms@, self.event)
    }
}

impl<P> ObserverInit<P> {
    /// The terms to hand to flecs, in order; the callback borrows them for each row.
    pub fn terms(&self) -> (r: &Vec<Term>)
        ensures
            r@ == self@.0,
    {
        &self.terms
    }

    /// The event's component id.
    pub fn event(&self) -> (r: u64)
        ensures
            r == self@.1,
    {
        self.event
    }

    /// The observer, once flecs answered its id; 0 means the creation failed.
    pub fn finish(self, id: ecs_entity_t) -> (r: Result<Observer<P>, EcsError>)
        ensures
            id == 0 ==> (r matches Err(e) && e == EcsError::ObserverCreationFailed),
            id != 0 ==> (r matches Ok(o) && o@ == id),
    {
        if id == 0 {
            return Err(EcsError::ObserverCreationFailed);
        }
        Ok(Observer { id, _marker: PhantomData })
    }
}

/// What checking an observer of two shared terms `T`, `U` of the event `E` gives:
/// refused while any borrow is active; otherwise the event's lookup, then the terms.
pub open spec fn spec_observer_plan<E, T, U>(world: World, r: Result<Step<(Seq<Term>, u64)>, EcsError>) -> bool {
    &&& !world.no_borrows() ==> r == Err::<Step<(Seq<Term>, u64)>, EcsError>(
        EcsError::ActiveComponentBorrows,
    )
    &&& world.no_borrows() ==> exists|
        le: Result<Step<ComponentInfo>, EcsError>,
        lt: Result<Step<ComponentInfo>, EcsError>,
        lu: Result<Step<ComponentInfo>, EcsError>,
    |
        world.lookup_of::<E>(le) && world.lookup_of::<T>(lt) && world.lookup_of::<U>(lu) && r
            == then_lookup(
            le,
            |e: ComponentInfo|
                map_step(
                    then_lookup(
                        lt,
                        |i: ComponentInfo|
                            then_lookup(
                                lu,
                                |j: ComponentInfo|
                                    checked_terms(
                                        seq![term_of(TermAccess::Shared, i), term_of(TermAccess::Shared, j)],
                                    ),
                            ),
                    ),
                    |ts: Seq<Term>| (ts, e.id),
                ),
        )
}

impl<'param, T: Copy + 'static, U: Copy + 'static, E: Copy + 'static> ObserverEventBuilder<
    (&'param T, &'param U),
    E,
> {
    /// Checks the observer: its event `E`, then its terms, a shared `T` and a shared `U`.
    pub fn each(self, world: &World) -> (r: Result<
        Step<ObserverInit<(&'param T, &'param U)>>,
        EcsError,
    >)
        requires
            world.wf(),
        ensures
            spec_observer_plan::<E, T, U>(
                *world,
                map_step(r, |o: ObserverInit<(&'param T, &'param U)>| o@),
            ),
    {
        world.assert_no_active_component_borrows()?;
        let le = world.component_info::<E>();
        let planned = plan_terms2::<T, U>(world, TermAccess::Shared, TermAccess::Shared);
        let event = match le {
            Err(e) => return Err(e),
            Ok(Step::NeedsComponent(q)) => return Ok(Step::NeedsComponent(q)),
            Ok(Step::Ready(info)) => info,
        };
        match planned {
            Err(e) => Err(e),
            Ok(Step::NeedsComponent(q)) => Ok(Step::NeedsComponent(q)),
            Ok(Step::Ready(terms)) => Ok(
                Step::Ready(ObserverInit { terms, event: event.id, _marker: PhantomData }),
            ),
        }
    }
}

/// An observer created by flecs.
pub struct Observer<P> {
    id: ecs_entity_t,
    _marker: PhantomData<P>,
}

impl<P> View for Observer<P> {
    type V = ecs_entity_t;

    closed spec fn view(&self) -> ecs_entity_t {
        self.id
    }
}

impl<P> Observer<P> {
    /// The observer's flecs id.
    pub fn id(&self) -> (r: ecs_entity_t)
        ensures
            r == self@,
    {
        self.id
    }
}

/// An observer of one entity's events, waiting for flecs to create it.
pub struct EntityObserverInit {
    event: u64,
    entity: ecs_entity_t,
}

impl View for EntityObserverInit {
    type V = (u64, ecs_entity_t);

    /// The event's component id, and the observed entity.
    closed spec fn view(&self) -> (u64, ecs_entity_t) {
        (self.event, self.entity)
    }
}

impl EntityObserverInit {
    /// The event's component id.
    pub fn event(&self) -> (r: u64)
        ensures
            r == self@.0,
    {
        self.event
    }

    /// The observed entity.
    pub fn entity(&self) -> (r: ecs_entity_t)
        ensures
            r == self@.1,
    {
        self.entity
    }

    /// The observer, once flecs answered its id; 0 means the creation failed.
    pub fn finish(self, id: ecs_entity_t) -> (r: Result<EntityObserver, EcsError>)
        ensures
            id == 0 ==> (r matches Err(e) && e == EcsError::ObserverCreationFailed),
            id != 0 ==> (r matches Ok(o) && o@ == id),
    {
        if id == 0 {
            return Err(EcsError::ObserverCreationFailed);
        }
        Ok(EntityObserver { id })
    }
}

/// What checking an observer of the event `E` on `entity` gives: refused while any
/// borrow is active; otherwise the event's lookup.
pub open spec fn spec_entity_observer_plan<E>(
    world: World,
    entity: ecs_entity_t,
    r: Result<Step<(u64, ecs_entity_t)>, EcsError>,
) -> bool {
    &&& !world.no_borrows() ==> r == Err::<Step<(u64, ecs_entity_t)>, EcsError>(
        EcsError::ActiveComponentBorrows,
    )
    &&& world.no_borrows() ==> exists|le: Result<Step<ComponentInfo>, EcsError>|
        world.lookup_of::<E>(le) && r == then_lookup(
            le,
            |e: ComponentInfo| Ok::<Step<(u64, ecs_entity_t)>, EcsError>(Step::Ready((e.id, entity))),
        )
}

/// Checks an observer of the event `E` on `entity`.
pub fn build_entity_observer<E: Copy + 'static>(world: &World, entity: ecs_entity_t) -> (r: Result<
    Step<EntityObserverInit>,
    EcsError,
>)
    requires
        world.wf(),
    ensures
        spec_entity_observer_plan::<E>(*world, entity, map_step(r, |o: EntityObserverInit| o@)),
{
    world.assert_no_active_component_borrows()?;
    let le = world.component_info::<E>();
    let r = match le {
        Err(e) => Err(e),
        Ok(Step::NeedsComponent(q)) => Ok(Step::NeedsComponent(q)),
        Ok(Step::Ready(info)) => Ok(Step::Ready(EntityObserverInit { event: info.id, entity })),
    };
    assert(world.lookup_of::<E>(le));
    r
}

/// An observer of one entity's events, created by flecs.
pub struct EntityObserver {
    id: ecs_entity_t,
}

impl View for EntityObserver {
    type V = ecs_entity_t;

    closed spec fn view(&self) -> ecs_entity_t {
        self.id
    }
}

impl EntityObserver {
    /// The observer's flecs id.
    pub fn id(&self) -> (r: ecs_entity_t)
        ensures
            r == self@,
    {
        self.id
    }
}

/// Starts an observer callback for which flecs reported `count` rows; see
/// `begin_callback_rows`.
pub fn observer_callback_rows(world: &mut World, count: i32) -> (r: Option<RowCursor>)
    requires
        old(world).wf(),
    ensures
        final(world).wf(),
        final(world).components() == old(world).components(),
        final(world).borrows() == old(world).borrows(),
        old(world).pending() is Some ==> r is None && final(world).pending() == old(world).pending(),
        old(world).pending() is None && count < 0 ==> r is None && final(world).pending() == Some(
            PendingPanic::NegativeRowCount(CallbackKind::Observer),
        ),
        old(world).pending() is None && count >= 0 ==> (r matches Some(c) && c@ == (count as nat, 0nat)
            && final(world).pending() == old(world).pending()),
{
    begin_callback_rows(world, CallbackKind::Observer, count)
}

/// Starts an entity observer callback whose event came from `source`: nothing runs
/// while a failure is kept; the invalid source 0 is kept as a failure; otherwise the
/// source entity is handed to the callback.
pub fn entity_observer_source(world: &mut World, source: ecs_entity_t) -> (r: Option<Entity>)
    requires
        old(world).wf(),
    ensures
        final(world).wf(),
        final(world).components() == old(world).components(),
        final(world).borrows() == old(world).borrows(),
        old(world).pending() is Some ==> r is None && final(world).pending() == old(world).pending(),
        old(world).pending() is None && source == 0 ==> r is None && final(world).pending() == Some(
            PendingPanic::InvalidSource,
        ),
        old(world).pending() is None && source != 0 ==> (r matches Some(e) && e@ == source
            && final(world).pending() == old(world).pending()),
{
    if world.has_pending_panic() {
        return None;
    }
    if source == 0 {
        world.set_pending_panic(PendingPanic::InvalidSource);
        return None;
    }
    Some(Entity::new(source))
}

} // verus!
