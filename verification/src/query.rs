//! Typed queries: building one from its terms, and handing out the rows of a result.
use std::marker::PhantomData;
use vstd::prelude::*;

use crate::error::EcsError;
use crate::param::{plan_terms1, plan_terms2, spec_plan1, spec_plan2, RowCursor, Term, TermAccess};
use crate::world::{map_step, Step, World};

verus! {

/// The start of a query over the terms `P`.
pub struct QueryBuilder<P> {
    _marker: PhantomData<P>,
}

impl<P> QueryBuilder<P> {
    pub(crate) fn new() -> (r: QueryBuilder<P>) {
        QueryBuilder { _marker: PhantomData }
    }
}

/// A query whose terms are checked, waiting for flecs to create it.
pub struct QueryInit<P> {
    terms: Vec<Term>,
    _marker: PhantomData<P>,
}

impl<P> View for QueryInit<P> {
    type V = Seq<Term>;

    closed spec fn view(&self) -> Seq<Term> {
        self.terms@
    }
}

impl<P> QueryInit<P> {
    /// The terms to hand to flecs, in order.
    pub fn terms(&self) -> (r: &Vec<Term>)
        ensures
            r@ == self@,
    {
        &self.terms
    }

    /// The query, once flecs answered whether it `created` it.
    pub fn finish(self, created: bool) -> (r: Result<Query<P>, EcsError>)
        ensures
            !created ==> (r matches Err(e) && e == EcsError::QueryCreationFailed),
            created ==> (r matches Ok(q) && q@ == self@),
    {
        if created {
            Ok(Query { terms: self.terms, _marker: PhantomData })
        } else {
            Err(EcsError::QueryCreationFailed)
        }
    }
}

fn to_init<P>(r: Result<Step<Vec<Term>>, EcsError>) -> (o: Result<Step<QueryInit<P>>, EcsError>)
    ensures
        map_step(o, |q: QueryInit<P>| q@) == map_step(r, |v: Vec<Term>| v@),
{
    match r {
        Err(e) => Err(e),
        Ok(Step::NeedsComponent(q)) => Ok(Step::NeedsComponent(q)),
        Ok(Step::Ready(terms)) => Ok(Step::Ready(QueryInit { terms, _marker: PhantomData })),
    }
}

impl<'param, T: Copy + 'static> QueryBuilder<(&'param T,)> {
    /// Checks the query's terms: one shared `T`.
    pub fn build(self, world: &World) -> (r: Result<Step<QueryInit<(&'param T,)>>, EcsError>)
        requires
            world.wf(),
        ensures
            spec_plan1::<T>(
                *world,
                TermAccess::Shared,
                map_step(r, |q: QueryInit<(&'param T,)>| q@),
            ),
    {
        to_init(plan_terms1::<T>(world, TermAccess::Shared))
    }
}

impl<'param, T: Copy + 'static> QueryBuilder<(&'param mut T,)> {
    /// Checks the query's terms: one mutable `T`.
    pub fn build(self, world: &World) -> (r: Result<Step<QueryInit<(&'param mut T,)>>, EcsError>)
        requires
            world.wf(),
        ensures
            spec_plan1::<T>(
                *world,
                TermAccess::Mutable,
                map_step(r, |q: QueryInit<(&'param mut T,)>| q@),
            ),
    {
        to_init(plan_terms1::<T>(world, TermAccess::Mutable))
    }
}

impl<'param, T: Copy + 'static, U: Copy + 'static> QueryBuilder<(&'param T, &'param U)> {
    /// Checks the query's terms: a shared `T` and a shared `U`.
    pub fn build(self, world: &World) -> (r: Result<
        Step<QueryInit<(&'param T, &'param U)>>,
        EcsError,
    >)
        requires
            world.wf(),
        ensures
            spec_plan2::<T, U>(
                *world,
                TermAccess::Shared,
                TermAccess::Shared,
                map_step(r, |q: QueryInit<(&'param T, &'param U)>| q@),
            ),
    {
        to_init(plan_terms2::<T, U>(world, TermAccess::Shared, TermAccess::Shared))
    }
}

impl<'param, T: Copy + 'static, U: Copy + 'static> QueryBuilder<(&'param mut T, &'param U)> {
    /// Checks the query's terms: a mutable `T` and a shared `U`.
    pub fn build(self, world: &World) -> (r: Result<
        Step<QueryInit<(&'param mut T, &'param U)>>,
        EcsError,
    >)
        requires
            world.wf(),
        ensures
            spec_plan2::<T, U>(
                *world,
                TermAccess::Mutable,
                TermAccess::Shared,
                map_step(r, |q: QueryInit<(&'param mut T, &'param U)>| q@),
            ),
    {
        to_init(plan_terms2::<T, U>(world, TermAccess::Mutable, TermAccess::Shared))
    }
}

/// A query created by flecs, with its checked terms.
pub struct Query<P> {
    terms: Vec<Term>,
    _marker: PhantomData<P>,
}

impl<P> View for Query<P> {
    type V = Seq<Term>;

    closed spec fn view(&self) -> Seq<Term> {
        self.terms@
    }
}

impl<P> Query<P> {
    /// The query's terms, in order; each row borrows them.
    pub fn terms(&self) -> (r: &Vec<Term>)
        ensures
            r@ == self@,
    {
        &self.terms
    }

    fn each_result(&self, count: i32) -> (r: Result<RowCursor, EcsError>)
        ensures
            count < 0 ==> (r matches Err(e) && e == EcsError::NegativeRowCount),
            count >= 0 ==> (r matches Ok(c) && c@ == (count as nat, 0nat)),
    {
        RowCursor::new(count)
    }
}

impl<'param, T: Copy + 'static> Query<(&'param T,)> {
    /// Starts handing out the rows of one result, for which flecs reported `count`
    /// rows; a negative count is refused. Each row is then taken with
    /// `RowCursor::next_row` over `terms()`, and its guards released after the callback.
    pub fn each(&self, count: i32) -> (r: Result<RowCursor, EcsError>)
        ensures
            count < 0 ==> (r matches Err(e) && e == EcsError::NegativeRowCount),
            count >= 0 ==> (r matches Ok(c) && c@ == (count as nat, 0nat)),
    {
        self.each_result(count)
    }
}

impl<'param, T: Copy + 'static> Query<(&'param mut T,)> {
    /// Starts handing out the rows of one result; see the shared one-term query.
    pub fn each(&self, count: i32) -> (r: Result<RowCursor, EcsError>)
        ensures
            count < 0 ==> (r matches Err(e) && e == EcsError::NegativeRowCount),
            count >= 0 ==> (r matches Ok(c) && c@ == (count as nat, 0nat)),
    {
        self.each_result(count)
    }
}

impl<'param, T: Copy + 'static, U: Copy + 'static> Query<(&'param T, &'param U)> {
    /// Starts handing out the rows of one result; see the shared one-term query.
    pub fn each(&self, count: i32) -> (r: Result<RowCursor, EcsError>)
        ensures
            count < 0 ==> (r matches Err(e) && e == EcsError::NegativeRowCount),
            count >= 0 ==> (r matches Ok(c) && c@ == (count as nat, 0nat)),
    {
        self.each_result(count)
    }
}

impl<'param, T: Copy + 'static, U: Copy + 'static> Query<(&'param mut T, &'param U)> {
    /// Starts handing out the rows of one result; see the shared one-term query.
    pub fn each(&self, count: i32) -> (r: Result<RowCursor, EcsError>)
        ensures
            count < 0 ==> (r matches Err(e) && e == EcsError::NegativeRowCount),
            count >= 0 ==> (r matches Ok(c) && c@ == (count as nat, 0nat)),
    {
        self.each_result(count)
    }
}

} // verus!
