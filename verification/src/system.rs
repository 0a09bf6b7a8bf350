//! Typed systems: checking one's terms before flecs registers it, and the row logic of
//! its callback.
use std::marker::PhantomData;
use vstd::prelude::*;

use crate::error::EcsError;
use crate::param::{
    begin_callback_rows, plan_terms1, plan_terms2, spec_plan1, spec_plan2, RowCursor, Term,
    TermAccess,
};
use crate::sys::ecs_entity_t;
use crate::world::{map_step, CallbackKind, PendingPanic, Step, World};

verus! {

/// The start of a system over the terms `P`.
pub struct SystemBuilder<P> {
    _marker: PhantomData<P>,
}

impl<P> SystemBuilder<P> {
    pub(crate) fn new() -> (r: SystemBuilder<P>) {
        SystemBuilder { _marker: PhantomData }
    }
}

/// A system whose terms are checked, waiting for flecs to register it.
pub struct SystemInit<P> {
    terms: Vec<Term>,
    _marker: PhantomData<P>,
}

impl<P> View for SystemInit<P> {
    type V = Seq<Term>;

    closed spec fn view(&self) -> Seq<Term> {
        self.terms@
    }
}

impl<P> SystemInit<P> {
    /// The terms to hand to flecs, in order; the callback borrows them for each row.
    pub fn terms(&self) -> (r: &Vec<Term>)
        ensures
            r@ == self@,
    {
        &self.terms
    }

    /// The system, once flecs answered its id; 0 means the registration failed.
    pub fn finish(self, id: ecs_entity_t) -> (r: Result<System<P>, EcsError>)
        ensures
            id == 0 ==> (r matches Err(e) && e == EcsError::SystemCreationFailed),
            id != 0 ==> (r matches Ok(o) && o@ == id),
    {
        if id == 0 {
            return Err(EcsError::SystemCreationFailed);
        }
        Ok(System { id, _marker: PhantomData })
    }
}

fn to_init<P>(r: Result<Step<Vec<Term>>, EcsError>) -> (o: Result<Step<SystemInit<P>>, EcsError>)
    ensures
        map_step(o, |s: SystemInit<P>| s@) == map_step(r, |v: Vec<Term>| v@),
{
    match r {
        Err(e) => Err(e),
        Ok(Step::NeedsComponent(q)) => Ok(Step::NeedsComponent(q)),
        Ok(Step::Ready(terms)) => Ok(Step::Ready(SystemInit { terms, _marker: PhantomData })),
    }
}

impl<'param, T: Copy + 'static> SystemBuilder<(&'param T,)> {
    /// Checks the system's terms: one shared `T`.
    pub fn each(self, world: &World) -> (r: Result<Step<SystemInit<(&'param T,)>>, EcsError>)
        requires
            world.wf(),
        ensures
            spec_plan1::<T>(
                *world,
                TermAccess::Shared,
                map_step(r, |s: SystemInit<(&'param T,)>| s@),
            ),
    {
        to_init(plan_terms1::<T>(world, TermAccess::Shared))
    }
}

impl<'param, T: Copy + 'static> SystemBuilder<(&'param mut T,)> {
    /// Checks the system's terms: one mutable `T`.
    pub fn each(self, world: &World) -> (r: Result<Step<SystemInit<(&'param mut T,)>>, EcsError>)
        requires
            world.wf(),
        ensures
            spec_plan1::<T>(
                *world,
                TermAccess::Mutable,
                map_step(r, |s: SystemInit<(&'param mut T,)>| s@),
            ),
    {
        to_init(plan_terms1::<T>(world, TermAccess::Mutable))
    }
}

impl<'param, T: Copy + 'static, U: Copy + 'static> SystemBuilder<(&'param T, &'param U)> {
    /// Checks the system's terms: a shared `T` and a shared `U`.
    pub fn each(self, world: &World) -> (r: Result<
        Step<SystemInit<(&'param T, &'param U)>>,
        EcsError,
    >)
        requires
            world.wf(),
        ensures
            spec_plan2::<T, U>(
                *world,
                TermAccess::Shared,
                TermAccess::Shared,
                map_step(r, |s: SystemInit<(&'param T, &'param U)>| s@),
            ),
    {
        to_init(plan_terms2::<T, U>(world, TermAccess::Shared, TermAccess::Shared))
    }
}

impl<'param, T: Copy + 'static, U: Copy + 'static> SystemBuilder<(&'param mut T, &'param U)> {
    /// Checks the system's terms: a mutable `T` and a shared `U`.
    pub fn each(self, world: &World) -> (r: Result<
        Step<SystemInit<(&'param mut T, &'param U)>>,
        EcsError,
    >)
        requires
            world.wf(),
        ensures
            spec_plan2::<T, U>(
                *world,
                TermAccess::Mutable,
                TermAccess::Shared,
                map_step(r, |s: SystemInit<(&'param mut T, &'param U)>| s@),
            ),
    {
        to_init(plan_terms2::<T, U>(world, TermAccess::Mutable, TermAccess::Shared))
    }
}

/// A system registered with flecs.
pub struct System<P> {
    id: ecs_entity_t,
    _marker: PhantomData<P>,
}

impl<P> View for System<P> {
    type V = ecs_entity_t;

    closed spec fn view(&self) -> ecs_entity_t {
        self.id
    }
}

impl<P> System<P> {
    /// The system's flecs id.
    pub fn id(&self) -> (r: ecs_entity_t)
        ensures
            r == self@,
    {
        self.id
    }
}

/// Starts a system callback for which flecs reported `count` rows; see
/// `begin_callback_rows`.
pub fn system_callback_rows(world: &mut World, count: i32) -> (r: Option<RowCursor>)
    requires
        old(world).wf(),
    ensures
        final(world).wf(),
        final(world).components() == old(world).components(),
        final(world).borrows() == old(world).borrows(),
        old(world).pending() is Some ==> r is None && final(world).pending() == old(world).pending(),
        old(world).pending() is None && count < 0 ==> r is None && final(world).pending() == Some(
            PendingPanic::NegativeRowCount(CallbackKind::System),
        ),
        old(world).pending() is None && count >= 0 ==> (r matches Some(c) && c@ == (count as nat, 0nat)
            && final(world).pending() == old(world).pending()),
{
    begin_callback_rows(world, CallbackKind::System, count)
}

} // verus!
