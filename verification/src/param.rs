//! Query terms, their validation, and the component borrows held while one row of a
//! query, system or observer is handed to its callback.
use vstd::prelude::*;

use crate::borrow::{
    counts_positive, spec_acquire_mutable, spec_acquire_shared, spec_release_shared, BorrowError,
    BorrowKey, BorrowMap, BorrowState, ComponentBorrowGuard, GuardKind,
};
use crate::error::EcsError;
use crate::registry::{type_identity, ComponentInfo};
use crate::sys::{ecs_entity_t, ecs_id_t, ECS_IN, ECS_INOUT};
use crate::world::{map_step, then_lookup, CallbackKind, PendingPanic, Step, World};

verus! {

/// The shapes of component access that queries, systems and observers accept: a
/// tuple of shared (`&T`) and mutable (`&mut T`) component references.
pub trait QueryParam {
    /// What one row hands to the callback.
    type Item<'row>;
}

impl<T: Copy + 'static> QueryParam for (&T,) {
    type Item<'row> = (&'row T,);
}

impl<T: Copy + 'static> QueryParam for (&mut T,) {
    type Item<'row> = (&'row mut T,);
}

impl<T: Copy + 'static, U: Copy + 'static> QueryParam for (&T, &U) {
    type Item<'row> = (&'row T, &'row U);
}

impl<T: Copy + 'static, U: Copy + 'static> QueryParam for (&mut T, &U) {
    type Item<'row> = (&'row mut T, &'row U);
}

/// How a term reaches its component.
#[derive(Clone, Copy, PartialEq, Eq, Structural, Debug)]
pub enum TermAccess {
    Shared,
    Mutable,
}

/// One term of a query, system or observer.
#[derive(Clone, Copy, PartialEq, Eq, Structural, Debug)]
pub struct Term {
    /// The component id.
    pub id: ecs_id_t,
    /// The flecs access flag: `ECS_IN` for shared terms, `ECS_INOUT` for mutable ones.
    pub inout: i16,
    /// The access.
    pub access: TermAccess,
}

/// The term with `access` to the registered component `info`.
pub open spec fn term_of(access: TermAccess, info: ComponentInfo) -> Term {
    Term {
        id: info.id,
        inout: match access {
            TermAccess::Shared => ECS_IN,
            TermAccess::Mutable => ECS_INOUT,
        },
        access,
    }
}

impl Term {
    /// The shared term for `info`.
    pub fn shared(info: ComponentInfo) -> (r: Term)
        ensures
            r == term_of(TermAccess::Shared, info),
    {
        Term { id: info.id, inout: ECS_IN, access: TermAccess::Shared }
    }

    /// The mutable term for `info`.
    pub fn mutable(info: ComponentInfo) -> (r: Term)
        ensures
            r == term_of(TermAccess::Mutable, info),
    {
        Term { id: info.id, inout: ECS_INOUT, access: TermAccess::Mutable }
    }
}

/// No two terms name the same component.
pub open spec fn terms_unique(terms: Seq<Term>) -> bool {
    forall|i: int, j: int| 0 <= i < j < terms.len() ==> #[trigger] terms[i].id != #[trigger] terms[j].id
}

/// The terms, refused when two of them name the same component.
pub open spec fn checked_terms(terms: Seq<Term>) -> Result<Step<Seq<Term>>, EcsError> {
    if terms_unique(terms) {
        Ok(Step::Ready(terms))
    } else {
        Err(EcsError::DuplicateTerms)
    }
}

/// Refuses terms of which two name the same component.
pub fn validate_unique_terms(terms: &Vec<Term>) -> (r: Result<(), EcsError>)
    ensures
        r is Ok <==> terms_unique(terms@),
        r is Err ==> r == Err::<(), EcsError>(EcsError::DuplicateTerms),
{
    let mut i: usize = 0;
    while i < terms.len()
        invariant
            i <= terms@.len(),
            forall|a: int, b: int| 0 <= a < i && a < b < terms@.len() ==> #[trigger] terms@[a].id
                != #[trigger] terms@[b].id,
        decreases terms@.len() - i,
    {
        let mut j: usize = i + 1;
        while j < terms.len()
            invariant
                i < terms@.len(),
                i + 1 <= j <= terms@.len(),
                forall|a: int, b: int| 0 <= a < i && a < b < terms@.len() ==> #[trigger] terms@[a].id
                    != #[trigger] terms@[b].id,
                forall|b: int| i < b < j ==> terms@[i as int].id != #[trigger] terms@[b].id,
            decreases terms@.len() - j,
        {
            if terms[i].id == terms[j].id {
                assert(!terms_unique(terms@)) by {
                    assert(terms@[i as int].id == terms@[j as int].id);
                }
                return Err(EcsError::DuplicateTerms);
            }
            j = j + 1;
        }
        i = i + 1;
    }
    Ok(())
}

/// The pair that a term borrows on `entity`.
pub open spec fn term_key(entity: ecs_entity_t, term: Term) -> BorrowKey {
    BorrowKey { entity, component: term.id }
}

/// The guard kind a term's row borrow takes: mutable row borrows flag their component
/// as modified when released.
pub open spec fn term_guard_kind(term: Term) -> GuardKind {
    match term.access {
        TermAccess::Shared => GuardKind::Shared,
        TermAccess::Mutable => GuardKind::Mutable { notify_modified: true },
    }
}

/// What borrowing one term of a row does to the table.
pub open spec fn acquire_term(m: BorrowMap, entity: ecs_entity_t, term: Term) -> Result<BorrowMap, BorrowError> {
    match term.access {
        TermAccess::Shared => spec_acquire_shared(m, term_key(entity, term)),
        TermAccess::Mutable => spec_acquire_mutable(m, term_key(entity, term)),
    }
}

/// What borrowing the terms of a row, first to last, does to the table; the first
/// refusal is the result.
pub open spec fn spec_borrow_row(m: BorrowMap, entity: ecs_entity_t, terms: Seq<Term>) -> Result<
    BorrowMap,
    BorrowError,
>
    decreases terms.len(),
{
    if terms.len() == 0 {
        Ok(m)
    } else {
        match spec_borrow_row(m, entity, terms.drop_last()) {
            Ok(m1) => acquire_term(m1, entity, terms.last()),
            Err(e) => Err(e),
        }
    }
}

/// The guards that borrowing the terms of a row gives, in term order.
pub open spec fn row_guards(entity: ecs_entity_t, terms: Seq<Term>) -> Seq<(BorrowKey, GuardKind)> {
    Seq::new(terms.len(), |i: int| (term_key(entity, terms[i]), term_guard_kind(terms[i])))
}

/// What releasing one guard does to the table, and whether the table agreed.
pub open spec fn release_one(m: BorrowMap, guard: (BorrowKey, GuardKind)) -> (BorrowMap, bool) {
    match guard.1 {
        GuardKind::Shared => match spec_release_shared(m, guard.0) {
            Ok(m1) => (m1, true),
            Err(_) => (m, false),
        },
        GuardKind::Mutable { .. } => (
            m.remove(guard.0),
            m.contains_key(guard.0) && m[guard.0] == BorrowState::Mutable,
        ),
    }
}

/// What releasing the guards, last to first, does to the table, and whether the table
/// agreed with every one.
pub open spec fn spec_release_all(m: BorrowMap, guards: Seq<(BorrowKey, GuardKind)>) -> (BorrowMap, bool)
    decreases guards.len(),
{
    if guards.len() == 0 {
        (m, true)
    } else {
        let (m1, ok1) = release_one(m, guards.last());
        let (m2, ok2) = spec_release_all(m1, guards.drop_last());
        (m2, ok1 && ok2)
    }
}

/// The pairs to flag as modified when the guards are released last to first.
pub open spec fn spec_release_notices(guards: Seq<(BorrowKey, GuardKind)>) -> Seq<BorrowKey>
    decreases guards.len(),
{
    if guards.len() == 0 {
        Seq::empty()
    } else {
        let g = guards.last();
        let here = if g.1 == (GuardKind::Mutable { notify_modified: true }) {
            seq![g.0]
        } else {
            Seq::empty()
        };
        here + spec_release_notices(guards.drop_last())
    }
}

proof fn lemma_acquire_keeps_counts(m: BorrowMap, entity: ecs_entity_t, term: Term)
    requires
        counts_positive(m),
        acquire_term(m, entity, term) is Ok,
    ensures
        counts_positive(acquire_term(m, entity, term)->Ok_0),
{
    let m2 = acquire_term(m, entity, term)->Ok_0;
    assert forall|k: BorrowKey| #[trigger] m2.contains_key(k) implies match m2[k] {
        BorrowState::Shared(n) => n >= 1,
        BorrowState::Mutable => true,
    } by {
        if k != term_key(entity, term) {
            assert(m.contains_key(k));
        }
    }
}

proof fn lemma_borrow_row_keeps_counts(m: BorrowMap, entity: ecs_entity_t, terms: Seq<Term>)
    requires
        counts_positive(m),
        spec_borrow_row(m, entity, terms) is Ok,
    ensures
        counts_positive(spec_borrow_row(m, entity, terms)->Ok_0),
    decreases terms.len(),
{
    if terms.len() > 0 {
        lemma_borrow_row_keeps_counts(m, entity, terms.drop_last());
        let m1 = spec_borrow_row(m, entity, terms.drop_last())->Ok_0;
        lemma_acquire_keeps_counts(m1, entity, terms.last());
    }
}

/// Borrowing the terms of a row and then releasing the row's guards, with nothing in
/// between, leaves the table as it was, and every release is accepted.
pub proof fn lemma_row_round_trip(m: BorrowMap, entity: ecs_entity_t, terms: Seq<Term>)
    requires
        counts_positive(m),
        spec_borrow_row(m, entity, terms) is Ok,
    ensures
        spec_release_all(spec_borrow_row(m, entity, terms)->Ok_0, row_guards(entity, terms)) == (
            m,
            true,
        ),
    decreases terms.len(),
{
    if terms.len() > 0 {
        let prefix = terms.drop_last();
        let m1 = spec_borrow_row(m, entity, prefix)->Ok_0;
        let m2 = spec_borrow_row(m, entity, terms)->Ok_0;
        let gs = row_guards(entity, terms);
        lemma_borrow_row_keeps_counts(m, entity, prefix);
        lemma_row_round_trip(m, entity, prefix);
        assert(gs.drop_last() =~= row_guards(entity, prefix));
        let t = terms.last();
        let key = term_key(entity, t);
        assert(gs.last() == (key, term_guard_kind(t)));
        match t.access {
            TermAccess::Shared => {
                crate::borrow::lemma_shared_round_trip(m1, key);
            },
            TermAccess::Mutable => {
                crate::borrow::lemma_mutable_round_trip(m1, key);
            },
        }
        assert(release_one(m2, gs.last()) == (m1, true));
    }
}

/// While a row of at least one term is borrowed, its entity's structure may not change.
pub proof fn lemma_row_blocks_structure(m: BorrowMap, entity: ecs_entity_t, terms: Seq<Term>)
    requires
        terms.len() > 0,
        spec_borrow_row(m, entity, terms) is Ok,
    ensures
        crate::borrow::entity_borrowed(spec_borrow_row(m, entity, terms)->Ok_0, entity),
{
    let key = term_key(entity, terms.last());
    assert(spec_borrow_row(m, entity, terms)->Ok_0.contains_key(key));
}

/// The borrow table after the rows of the entities `entities` were handed, in order, to
/// a callback that leaves the table as it found it, and the failure that ended the
/// iteration early, if any. Each row's terms are borrowed, then its guards are
/// released; the invalid entity 0 or a refused borrow ends the iteration there.
pub open spec fn spec_visit_rows(m: BorrowMap, entities: Seq<ecs_entity_t>, terms: Seq<Term>) -> (
    BorrowMap,
    Option<EcsError>,
)
    decreases entities.len(),
{
    if entities.len() == 0 {
        (m, None)
    } else if entities[0] == 0 {
        (m, Some(EcsError::InvalidEntity))
    } else {
        match spec_borrow_row(m, entities[0], terms) {
            Err(e) => (m, Some(EcsError::Borrow(e))),
            Ok(held) => spec_visit_rows(
                spec_release_all(held, row_guards(entities[0], terms)).0,
                entities.drop_first(),
                terms,
            ),
        }
    }
}

/// Handing the rows of a query result, one after the other, to a callback that leaves
/// the borrow table as it found it leaves the table as it was before the iteration,
/// whether the iteration ran to its end or a failure stopped it.
pub proof fn lemma_iteration_restores(m: BorrowMap, entities: Seq<ecs_entity_t>, terms: Seq<Term>)
    requires
        counts_positive(m),
    ensures
        spec_visit_rows(m, entities, terms).0 == m,
    decreases entities.len(),
{
    if entities.len() > 0 && entities[0] != 0 {
        if spec_borrow_row(m, entities[0], terms) is Ok {
            lemma_row_round_trip(m, entities[0], terms);
            lemma_iteration_restores(m, entities.drop_first(), terms);
        }
    }
}

/// The component borrows held while one row is handed to its callback.
pub struct QueryBorrowGuards {
    guards: Vec<ComponentBorrowGuard>,
}

impl View for QueryBorrowGuards {
    type V = Seq<(BorrowKey, GuardKind)>;

    closed spec fn view(&self) -> Seq<(BorrowKey, GuardKind)> {
        self.guards@.map_values(|g: ComponentBorrowGuard| (g.key(), g.kind()))
    }
}

impl QueryBorrowGuards {
    /// No guards.
    pub fn new() -> (r: QueryBorrowGuards)
        ensures
            r@ == Seq::<(BorrowKey, GuardKind)>::empty(),
    {
        QueryBorrowGuards { guards: Vec::new() }
    }

    /// Borrows `term` of `entity` and keeps the guard.
    pub fn push(&mut self, world: &mut World, entity: ecs_entity_t, term: Term) -> (r: Result<
        (),
        EcsError,
    >)
        requires
            old(world).wf(),
        ensures
            final(world).wf(),
            final(world).components() == old(world).components(),
            final(world).pending() == old(world).pending(),
            match acquire_term(old(world).borrows(), entity, term) {
                Ok(m) => r is Ok && final(world).borrows() == m && final(self)@ == old(self)@.push(
                    (term_key(entity, term), term_guard_kind(term)),
                ),
                Err(e) => r == Err::<(), EcsError>(EcsError::Borrow(e)) && final(world).borrows()
                    == old(world).borrows() && final(self)@ == old(self)@,
            },
    {
        let acquired = match term.access {
            TermAccess::Shared => world.borrow_component(entity, term.id),
            TermAccess::Mutable => world.borrow_component_mut(entity, term.id, true),
        };
        match acquired {
            Ok(g) => {
                self.guards.push(g);
                proof {
                    assert(self@ =~= old(self)@.push((term_key(entity, term), term_guard_kind(term))));
                }
                Ok(())
            },
            Err(e) => Err(e),
        }
    }

    /// The pairs that releasing the guards flags as modified, in release order.
    pub fn modified_notices(&self) -> (r: Vec<BorrowKey>)
        ensures
            r@ == spec_release_notices(self@),
    {
        let ghost all = self@;
        let mut notices: Vec<BorrowKey> = Vec::new();
        let mut i: usize = self.guards.len();
        proof {
            assert(all.take(i as int) =~= all);
            assert(notices@ + spec_release_notices(all) =~= spec_release_notices(all));
        }
        while i > 0
            invariant
                i <= self.guards@.len(),
                all == self@,
                notices@ + spec_release_notices(all.take(i as int)) == spec_release_notices(all),
            decreases i,
        {
            let ghost prefix = all.take(i as int);
            proof {
                assert(prefix.drop_last() =~= all.take(i - 1));
                assert(prefix.last() == all[i - 1]);
                assert(all[i - 1] == (self.guards@[i - 1].key(), self.guards@[i - 1].kind()));
            }
            match self.guards[i - 1].modified_notice() {
                Some(key) => notices.push(key),
                None => {},
            }
            proof {
                assert(notices@ + spec_release_notices(all.take(i - 1)) =~= spec_release_notices(all));
            }
            i = i - 1;
        }
        proof {
            assert(all.take(0) =~= Seq::<(BorrowKey, GuardKind)>::empty());
            assert(notices@ =~= spec_release_notices(all));
        }
        notices
    }

    /// Releases every guard, last to first. The first part of the result lists the
    /// pairs to flag as modified, in release order; the second says whether the table
    /// agreed with every guard.
    pub fn release(self, world: &mut World) -> (r: (Vec<BorrowKey>, Result<(), EcsError>))
        requires
            old(world).wf(),
        ensures
            final(world).wf(),
            final(world).components() == old(world).components(),
            final(world).pending() == old(world).pending(),
            final(world).borrows() == spec_release_all(old(world).borrows(), self@).0,
            r.1 is Ok <==> spec_release_all(old(world).borrows(), self@).1,
            r.0@ == spec_release_notices(self@),
    {
        let ghost all = self@;
        let mut guards = self.guards;
        let mut notices: Vec<BorrowKey> = Vec::new();
        let mut ok = true;
        let mut failure = EcsError::Borrow(BorrowError::InconsistentSharedRelease);
        while guards.len() > 0
            invariant
                world.wf(),
                world.components() == old(world).components(),
                world.pending() == old(world).pending(),
                spec_release_all(world.borrows(), guards@.map_values(
                    |g: ComponentBorrowGuard| (g.key(), g.kind()),
                )).0 == spec_release_all(old(world).borrows(), all).0,
                (ok && spec_release_all(world.borrows(), guards@.map_values(
                    |g: ComponentBorrowGuard| (g.key(), g.kind()),
                )).1) == spec_release_all(old(world).borrows(), all).1,
                notices@ + spec_release_notices(
                    guards@.map_values(|g: ComponentBorrowGuard| (g.key(), g.kind())),
                ) == spec_release_notices(all),
            decreases guards@.len(),
        {
            let ghost rem = guards@.map_values(|g: ComponentBorrowGuard| (g.key(), g.kind()));
            let ghost before = world.borrows();
            let g = guards.pop().unwrap();
            proof {
                assert(guards@.map_values(|g: ComponentBorrowGuard| (g.key(), g.kind()))
                    =~= rem.drop_last());
                assert(rem.last() == (g.key(), g.kind()));
            }
            let (modified, result) = world.release_component(g);
            proof {
                assert(release_one(before, rem.last()) == (world.borrows(), result is Ok));
            }
            match modified {
                Some(key) => {
                    notices.push(key);
                },
                None => {},
            }
            proof {
                let here = if rem.last().1 == (GuardKind::Mutable { notify_modified: true }) {
                    seq![rem.last().0]
                } else {
                    Seq::empty()
                };
                assert(spec_release_notices(rem) == here + spec_release_notices(rem.drop_last()));
                assert(notices@ + spec_release_notices(rem.drop_last()) =~= spec_release_notices(all));
            }
            if let Err(e) = result {
                ok = false;
                failure = e;
            }
        }
        proof {
            assert(guards@.map_values(|g: ComponentBorrowGuard| (g.key(), g.kind()))
                =~= Seq::<(BorrowKey, GuardKind)>::empty());
            assert(notices@ =~= spec_release_notices(all));
        }
        if ok {
            (notices, Ok(()))
        } else {
            (notices, Err(failure))
        }
    }
}

/// Borrows every term of `entity`'s row, first to last. If one is refused, the ones
/// already taken are given back and the table is left as it was.
pub fn borrow_row(world: &mut World, entity: ecs_entity_t, terms: &Vec<Term>) -> (r: Result<
    QueryBorrowGuards,
    EcsError,
>)
    requires
        old(world).wf(),
    ensures
        final(world).wf(),
        final(world).components() == old(world).components(),
        final(world).pending() == old(world).pending(),
        match spec_borrow_row(old(world).borrows(), entity, terms@) {
            Ok(m) => r matches Ok(g) && g@ == row_guards(entity, terms@) && final(world).borrows() == m,
            Err(e) => r matches Err(x) && x == EcsError::Borrow(e) && final(world).borrows() == old(world).borrows(),
        },
{
    let ghost m0 = world.borrows();
    proof {
        world.lemma_counts();
    }
    let mut guards = QueryBorrowGuards::new();
    let mut i: usize = 0;
    while i < terms.len()
        invariant
            world.wf(),
            world.components() == old(world).components(),
            world.pending() == old(world).pending(),
            m0 == old(world).borrows(),
            counts_positive(m0),
            i <= terms@.len(),
            spec_borrow_row(m0, entity, terms@.take(i as int)) == Ok::<BorrowMap, BorrowError>(
                world.borrows(),
            ),
            guards@ == row_guards(entity, terms@.take(i as int)),
        decreases terms@.len() - i,
    {
        let ghost before = world.borrows();
        let term = terms[i];
        proof {
            assert(terms@.take(i + 1).drop_last() =~= terms@.take(i as int));
            assert(terms@.take(i + 1).last() == term);
        }
        match guards.push(world, entity, term) {
            Ok(()) => {
                proof {
                    assert(guards@ =~= row_guards(entity, terms@.take(i + 1)));
                }
                i = i + 1;
            },
            Err(e) => {
                proof {
                    lemma_row_round_trip(m0, entity, terms@.take(i as int));
                    assert(spec_borrow_row(m0, entity, terms@.take(i + 1)) == acquire_term(
                        before,
                        entity,
                        term,
                    ));
                    lemma_borrow_row_err_extends(m0, entity, terms@, i + 1);
                }
                let (_notices, _released) = guards.release(world);
                return Err(e);
            },
        }
    }
    proof {
        assert(terms@.take(terms@.len() as int) =~= terms@);
    }
    Ok(guards)
}

proof fn lemma_borrow_row_err_extends(m: BorrowMap, entity: ecs_entity_t, terms: Seq<Term>, n: int)
    requires
        0 <= n <= terms.len(),
        spec_borrow_row(m, entity, terms.take(n)) is Err,
    ensures
        spec_borrow_row(m, entity, terms) == spec_borrow_row(m, entity, terms.take(n)),
    decreases terms.len() - n,
{
    if n < terms.len() {
        assert(terms.take(n + 1).drop_last() =~= terms.take(n));
        lemma_borrow_row_err_extends(m, entity, terms, n + 1);
    } else {
        assert(terms.take(n) =~= terms);
    }
}

/// The rows of one iterator result, handed out one at a time.
pub struct RowCursor {
    count: usize,
    next: usize,
}

impl View for RowCursor {
    type V = (nat, nat);

    /// The number of rows, and how many have been handed out.
    closed spec fn view(&self) -> (nat, nat) {
        (self.count as nat, self.next as nat)
    }
}

impl RowCursor {
    /// A cursor never counts more rows than flecs can index, nor hands out more rows
    /// than it counts.
    #[verifier::type_invariant]
    spec fn rows_in_range(self) -> bool {
        self.count <= i32::MAX && self.next <= self.count
    }

    /// The rows of a result for which flecs reported `count` rows; a negative count is
    /// refused.
    pub fn new(count: i32) -> (r: Result<RowCursor, EcsError>)
        ensures
            count < 0 ==> r == Err::<RowCursor, EcsError>(EcsError::NegativeRowCount),
            count >= 0 ==> (r matches Ok(c) && c@ == (count as nat, 0nat)),
    {
        if count < 0 {
            Err(EcsError::NegativeRowCount)
        } else {
            Ok(RowCursor { count: count as usize, next: 0 })
        }
    }

    /// Whether a row is left.
    pub fn has_next(&self) -> (r: bool)
        ensures
            r == (self@.1 < self@.0),
    {
        self.next < self.count
    }

    /// The index, in flecs' result, of the row handed out next: the number of rows
    /// handed out so far.
    pub fn row(&self) -> (r: i32)
        ensures
            r == self@.1,
    {
        proof {
            use_type_invariant(self);
        }
        self.next as i32
    }

    /// Hands out the next row, whose entity flecs reported as `entity`: refused for
    /// the invalid entity 0; otherwise the row's terms are borrowed.
    pub fn next_row(&mut self, world: &mut World, entity: ecs_entity_t, terms: &Vec<Term>) -> (r:
        Result<QueryBorrowGuards, EcsError>)
        requires
            old(self)@.1 < old(self)@.0,
            old(world).wf(),
        ensures
            final(self)@ == (old(self)@.0, old(self)@.1 + 1),
            final(world).wf(),
            final(world).components() == old(world).components(),
            final(world).pending() == old(world).pending(),
            entity == 0 ==> (r matches Err(x) && x == EcsError::InvalidEntity && final(world).borrows()
                == old(world).borrows()),
            entity != 0 ==> match spec_borrow_row(old(world).borrows(), entity, terms@) {
                Ok(m) => r matches Ok(g) && g@ == row_guards(entity, terms@) && final(world).borrows()
                    == m,
                Err(e) => r matches Err(x) && x == EcsError::Borrow(e) && final(world).borrows()
                    == old(world).borrows(),
            },
    {
        proof {
            use_type_invariant(&*self);
        }
        self.next = self.next + 1;
        if entity == 0 {
            return Err(EcsError::InvalidEntity);
        }
        borrow_row(world, entity, terms)
    }

    /// Hands out the next row inside a flecs callback, where no failure may unwind:
    /// a failure is kept in the world, nothing is handed out and the callback's rows
    /// end there.
    pub fn next_callback_row(
        &mut self,
        world: &mut World,
        kind: CallbackKind,
        entity: ecs_entity_t,
        terms: &Vec<Term>,
    ) -> (r: Option<QueryBorrowGuards>)
        requires
            old(self)@.1 < old(self)@.0,
            old(world).wf(),
        ensures
            r is Some ==> final(self)@ == (old(self)@.0, old(self)@.1 + 1),
            r is None ==> final(self)@ == (old(self)@.0, old(self)@.0),
            final(world).wf(),
            final(world).components() == old(world).components(),
            entity == 0 ==> r is None && final(world).pending() == Some(PendingPanic::InvalidEntity(kind))
                && final(world).borrows() == old(world).borrows(),
            entity != 0 ==> match spec_borrow_row(old(world).borrows(), entity, terms@) {
                Ok(m) => r matches Some(g) && g@ == row_guards(entity, terms@) && final(world).borrows()
                    == m && final(world).pending() == old(world).pending(),
                Err(e) => r is None && final(world).pending() == Some(PendingPanic::Borrow(e))
                    && final(world).borrows() == old(world).borrows(),
            },
    {
        match self.next_row(world, entity, terms) {
            Ok(g) => Some(g),
            Err(EcsError::Borrow(e)) => {
                world.set_pending_panic(PendingPanic::Borrow(e));
                self.finish_rows();
                None
            },
            Err(_) => {
                world.set_pending_panic(PendingPanic::InvalidEntity(kind));
                self.finish_rows();
                None
            },
        }
    }

    /// The user callback panicked on the row last handed out: the failure is kept in
    /// the world, to be raised again once flecs returns, and the callback's rows end
    /// there.
    pub fn callback_panicked(&mut self, world: &mut World)
        requires
            old(world).wf(),
        ensures
            final(self)@ == (old(self)@.0, old(self)@.0),
            final(world).wf(),
            final(world).components() == old(world).components(),
            final(world).borrows() == old(world).borrows(),
            final(world).pending() == Some(PendingPanic::CallbackPanicked),
    {
        world.set_pending_panic(PendingPanic::CallbackPanicked);
        self.finish_rows();
    }

    /// Marks every row as handed out.
    fn finish_rows(&mut self)
        ensures
            final(self)@ == (old(self)@.0, old(self)@.0),
    {
        proof {
            use_type_invariant(&*self);
        }
        self.next = self.count;
    }
}

/// Starts a flecs callback that reported `count` rows. Nothing runs while a failure
/// is kept; a negative count is kept as a failure.
pub fn begin_callback_rows(world: &mut World, kind: CallbackKind, count: i32) -> (r: Option<RowCursor>)
    requires
        old(world).wf(),
    ensures
        final(world).wf(),
        final(world).components() == old(world).components(),
        final(world).borrows() == old(world).borrows(),
        old(world).pending() is Some ==> r is None && final(world).pending() == old(world).pending(),
        old(world).pending() is None && count < 0 ==> r is None && final(world).pending() == Some(
            PendingPanic::NegativeRowCount(kind),
        ),
        old(world).pending() is None && count >= 0 ==> (r matches Some(c) && c@ == (count as nat, 0nat)
            && final(world).pending() == old(world).pending()),
{
    if world.has_pending_panic() {
        return None;
    }
    match RowCursor::new(count) {
        Ok(c) => Some(c),
        Err(_) => {
            world.set_pending_panic(PendingPanic::NegativeRowCount(kind));
            None
        },
    }
}

/// What planning the terms of one component type `T` with `access` gives: refused
/// while any borrow is active; otherwise the type's lookup, then the term.
pub open spec fn spec_plan1<T>(world: World, access: TermAccess, r: Result<Step<Seq<Term>>, EcsError>) -> bool {
    &&& !world.no_borrows() ==> r == Err::<Step<Seq<Term>>, EcsError>(EcsError::ActiveComponentBorrows)
    &&& world.no_borrows() ==> exists|lt: Result<Step<ComponentInfo>, EcsError>|
        world.lookup_of::<T>(lt) && r == then_lookup(
            lt,
            |i: ComponentInfo| checked_terms(seq![term_of(access, i)]),
        )
}

/// What planning the terms of the component types `T` and `U` gives: refused while any
/// borrow is active; otherwise the two lookups, then the two terms, refused when they
/// name the same component.
pub open spec fn spec_plan2<T, U>(
    world: World,
    first: TermAccess,
    second: TermAccess,
    r: Result<Step<Seq<Term>>, EcsError>,
) -> bool {
    &&& !world.no_borrows() ==> r == Err::<Step<Seq<Term>>, EcsError>(EcsError::ActiveComponentBorrows)
    &&& world.no_borrows() ==> exists|
        lt: Result<Step<ComponentInfo>, EcsError>,
        lu: Result<Step<ComponentInfo>, EcsError>,
    |
        world.lookup_of::<T>(lt) && world.lookup_of::<U>(lu) && r == then_lookup(
            lt,
            |i: ComponentInfo|
                then_lookup(
                    lu,
                    |j: ComponentInfo| checked_terms(seq![term_of(first, i), term_of(second, j)]),
                ),
        )
}

/// The flecs access flag of `access`: `ECS_IN` for shared terms, `ECS_INOUT` for
/// mutable ones.
pub open spec fn inout_flag(access: TermAccess) -> i16 {
    match access {
        TermAccess::Shared => ECS_IN,
        TermAccess::Mutable => ECS_INOUT,
    }
}

/// With `T` registered and nothing borrowed, the plan of one term over `T` is that
/// one term: `T`'s registered id, with the asked access and its flag.
pub proof fn lemma_plan1_registered<T>(
    world: World,
    access: TermAccess,
    r: Result<Step<Seq<Term>>, EcsError>,
)
    requires
        spec_plan1::<T>(world, access, r),
        world.no_borrows(),
        world.components().contains_key(type_identity::<T>()),
    ensures
        r == Ok::<Step<Seq<Term>>, EcsError>(
            Step::Ready(
                seq![(Term {
                    id: world.components()[type_identity::<T>()].id,
                    inout: inout_flag(access),
                    access,
                })],
            ),
        ),
{
    let lt = choose|lt: Result<Step<ComponentInfo>, EcsError>|
        world.lookup_of::<T>(lt) && r == then_lookup(
            lt,
            |i: ComponentInfo| checked_terms(seq![term_of(access, i)]),
        );
    crate::world::lemma_lookup_of_registered::<T>(world, lt);
    let t = term_of(access, world.components()[type_identity::<T>()]);
    assert(terms_unique(seq![t]));
}

/// With `T` and `U` registered and nothing borrowed, the plan of a term over `T`
/// followed by one over `U` is those two terms, in that order, each with the
/// registered id of its own type and its access: refused as duplicate terms when
/// the two types were registered under the same id.
pub proof fn lemma_plan2_registered<T, U>(
    world: World,
    first: TermAccess,
    second: TermAccess,
    r: Result<Step<Seq<Term>>, EcsError>,
)
    requires
        spec_plan2::<T, U>(world, first, second, r),
        world.no_borrows(),
        world.components().contains_key(type_identity::<T>()),
        world.components().contains_key(type_identity::<U>()),
    ensures
        world.components()[type_identity::<T>()].id != world.components()[type_identity::<U>()].id
            ==> r == Ok::<Step<Seq<Term>>, EcsError>(
            Step::Ready(
                seq![
                    (Term {
                        id: world.components()[type_identity::<T>()].id,
                        inout: inout_flag(first),
                        access: first,
                    }),
                    (Term {
                        id: world.components()[type_identity::<U>()].id,
                        inout: inout_flag(second),
                        access: second,
                    }),
                ],
            ),
        ),
        world.components()[type_identity::<T>()].id == world.components()[type_identity::<U>()].id
            ==> r == Err::<Step<Seq<Term>>, EcsError>(EcsError::DuplicateTerms),
{
    let (lt, lu) = choose|
        lt: Result<Step<ComponentInfo>, EcsError>,
        lu: Result<Step<ComponentInfo>, EcsError>,
    |
        world.lookup_of::<T>(lt) && world.lookup_of::<U>(lu) && r == then_lookup(
            lt,
            |i: ComponentInfo|
                then_lookup(
                    lu,
                    |j: ComponentInfo| checked_terms(seq![term_of(first, i), term_of(second, j)]),
                ),
        );
    crate::world::lemma_lookup_of_registered::<T>(world, lt);
    crate::world::lemma_lookup_of_registered::<U>(world, lu);
    let a = term_of(first, world.components()[type_identity::<T>()]);
    let b = term_of(second, world.components()[type_identity::<U>()]);
    let s = seq![a, b];
    if a.id != b.id {
        assert forall|x: int, y: int| 0 <= x < y < s.len() implies #[trigger] s[x].id != #[trigger] s[y].id by {
            assert(x == 0 && y == 1);
        }
        assert(terms_unique(s));
    } else {
        assert(s[0].id == s[1].id);
        assert(!terms_unique(s));
    }
}

fn term_for(access: TermAccess, info: ComponentInfo) -> (r: Term)
    ensures
        r == term_of(access, info),
{
    match access {
        TermAccess::Shared => Term::shared(info),
        TermAccess::Mutable => Term::mutable(info),
    }
}

/// Plans the terms of one component type `T`, as `spec_plan1` says.
pub fn plan_terms1<T: 'static>(world: &World, access: TermAccess) -> (r: Result<Step<Vec<Term>>, EcsError>)
    requires
        world.wf(),
    ensures
        spec_plan1::<T>(*world, access, map_step(r, |v: Vec<Term>| v@)),
{
    world.assert_no_active_component_borrows()?;
    let lt = world.component_info::<T>();
    let info = match lt {
        Err(e) => return Err(e),
        Ok(Step::NeedsComponent(q)) => return Ok(Step::NeedsComponent(q)),
        Ok(Step::Ready(info)) => info,
    };
    let mut terms: Vec<Term> = Vec::new();
    terms.push(term_for(access, info));
    let checked = validate_unique_terms(&terms);
    assert(terms@ == seq![term_of(access, info)]);
    match checked {
        Ok(()) => Ok(Step::Ready(terms)),
        Err(e) => Err(e),
    }
}

/// Plans the terms of the component types `T` and `U`, as `spec_plan2` says.
pub fn plan_terms2<T: 'static, U: 'static>(world: &World, first: TermAccess, second: TermAccess) -> (r:
    Result<Step<Vec<Term>>, EcsError>)
    requires
        world.wf(),
    ensures
        spec_plan2::<T, U>(*world, first, second, map_step(r, |v: Vec<Term>| v@)),
{
    world.assert_no_active_component_borrows()?;
    let lt = world.component_info::<T>();
    let lu = world.component_info::<U>();
    let i = match lt {
        Err(e) => return Err(e),
        Ok(Step::NeedsComponent(q)) => return Ok(Step::NeedsComponent(q)),
        Ok(Step::Ready(info)) => info,
    };
    let j = match lu {
        Err(e) => return Err(e),
        Ok(Step::NeedsComponent(q)) => return Ok(Step::NeedsComponent(q)),
        Ok(Step::Ready(info)) => info,
    };
    let mut terms: Vec<Term> = Vec::new();
    terms.push(term_for(first, i));
    terms.push(term_for(second, j));
    let checked = validate_unique_terms(&terms);
    assert(terms@ == seq![term_of(first, i), term_of(second, j)]);
    match checked {
        Ok(()) => Ok(Step::Ready(terms)),
        Err(e) => Err(e),
    }
}

} // verus!
