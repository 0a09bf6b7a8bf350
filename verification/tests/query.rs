use lib::borrow::{BorrowError, BorrowKey};
use lib::error::EcsError;
use lib::param::{borrow_row, validate_unique_terms, QueryBorrowGuards, RowCursor, Term, TermAccess};
use lib::query::Query;
use lib::registry::ComponentInfo;
use lib::sys::{ECS_IN, ECS_INOUT};
use lib::world::{Step, World};

#[derive(Clone, Copy, Debug, PartialEq)]
struct Position {
    x: f32,
    y: f32,
}

#[derive(Clone, Copy, Debug, PartialEq)]
struct Velocity {
    x: f32,
    y: f32,
}

#[derive(Clone, Copy, Debug, PartialEq)]
struct UnregisteredTag;

fn register<T: Copy + 'static>(world: &mut World, id: u64) -> ComponentInfo {
    match world.component_info::<T>() {
        Ok(Step::NeedsComponent(request)) => world.register_component(request, id).unwrap(),
        Ok(Step::Ready(info)) => info,
        Err(e) => panic!("lookup refused: {:?}", e),
    }
}

fn ready<X>(step: Result<Step<X>, EcsError>) -> X {
    match step {
        Ok(Step::Ready(x)) => x,
        Ok(Step::NeedsComponent(_)) => panic!("a component type is not registered"),
        Err(e) => panic!("refused: {:?}", e),
    }
}

fn position_query(world: &mut World) -> Query<(&'static mut Position, &'static Velocity)> {
    register::<Position>(world, 10);
    register::<Velocity>(world, 11);
    let init = ready(world.query::<(&mut Position, &Velocity)>().build(world));
    init.finish(true).unwrap()
}

// Covers rejecting duplicate component fields before query iteration starts.
#[test]
fn query_build_rejects_duplicate_components() {
    let mut world = World::new();
    register::<Position>(&mut world, 10);
    let result = world.query::<(&mut Position, &Position)>().build(&world);
    assert!(matches!(result, Err(EcsError::DuplicateTerms)));
}

// Covers rejecting duplicate readonly component fields before query iteration starts.
#[test]
fn query_build_rejects_duplicate_readonly_components() {
    let mut world = World::new();
    register::<Position>(&mut world, 10);
    let result = world.query::<(&Position, &Position)>().build(&world);
    assert!(matches!(result, Err(EcsError::DuplicateTerms)));
}

#[test]
fn query_build_asks_for_each_unregistered_type_in_order() {
    let mut world = World::new();
    match world.query::<(&mut Position, &Velocity)>().build(&world) {
        Ok(Step::NeedsComponent(request)) => {
            assert!(request.type_id == std::any::TypeId::of::<Position>());
            world.register_component(request, 10).unwrap();
        }
        _ => panic!("position comes first"),
    }
    match world.query::<(&mut Position, &Velocity)>().build(&world) {
        Ok(Step::NeedsComponent(request)) => {
            assert!(request.type_id == std::any::TypeId::of::<Velocity>());
            world.register_component(request, 11).unwrap();
        }
        _ => panic!("velocity comes next"),
    }
    let init = ready(world.query::<(&mut Position, &Velocity)>().build(&world));
    assert_eq!(
        init.terms().clone(),
        vec![
            Term { id: 10, inout: ECS_INOUT, access: TermAccess::Mutable },
            Term { id: 11, inout: ECS_IN, access: TermAccess::Shared },
        ]
    );
    assert!(matches!(init.finish(false), Err(EcsError::QueryCreationFailed)));
}

#[test]
fn query_build_refused_while_a_row_is_borrowed() {
    let mut world = World::new();
    let query = position_query(&mut world);
    let mut rows = query.each(1).unwrap();
    let guards = rows.next_row(&mut world, 500, query.terms()).unwrap();
    // Registered or not, nothing may be built while the row is borrowed.
    assert!(matches!(
        world.query::<(&Position,)>().build(&world),
        Err(EcsError::ActiveComponentBorrows)
    ));
    assert!(matches!(
        world.query::<(&UnregisteredTag,)>().build(&world),
        Err(EcsError::ActiveComponentBorrows)
    ));
    let (_, released) = guards.release(&mut world);
    assert_eq!(released, Ok(()));
    assert!(matches!(
        world.query::<(&UnregisteredTag,)>().build(&world),
        Ok(Step::NeedsComponent(_))
    ));
}

#[test]
fn query_rows_borrow_their_terms_and_flag_writes() {
    let mut world = World::new();
    let query = position_query(&mut world);
    let mut rows = query.each(2).unwrap();
    assert!(rows.has_next());
    assert_eq!(rows.row(), 0);
    let guards = rows.next_row(&mut world, 500, query.terms()).unwrap();
    assert_eq!(rows.row(), 1);
    // The row holds Position mutably and Velocity shared.
    assert!(matches!(
        world.borrow_component(500, 10),
        Err(EcsError::Borrow(BorrowError::AlreadyMutablyBorrowed))
    ));
    assert!(matches!(
        world.borrow_component_mut(500, 11, true),
        Err(EcsError::Borrow(BorrowError::AlreadySharedBorrowed))
    ));
    let extra = world.borrow_component(500, 11).unwrap();
    world.release_component(extra).1.unwrap();
    assert_eq!(world.assert_can_mutate_structure(500), Err(EcsError::EntityBorrowed));
    let (modified, released) = guards.release(&mut world);
    assert_eq!(released, Ok(()));
    assert_eq!(modified, vec![BorrowKey { entity: 500, component: 10 }]);
    assert_eq!(world.assert_no_active_component_borrows(), Ok(()));
    let guards = rows.next_row(&mut world, 501, query.terms()).unwrap();
    assert!(!rows.has_next());
    guards.release(&mut world).1.unwrap();
    // After the whole iteration the borrow table is as it was before.
    assert_eq!(world.assert_no_active_component_borrows(), Ok(()));
}

#[test]
fn refused_row_borrow_leaves_no_borrow_behind() {
    let mut world = World::new();
    let query = position_query(&mut world);
    let held = world.borrow_component_mut(500, 11, false).unwrap();
    let mut rows = query.each(1).unwrap();
    assert!(matches!(
        rows.next_row(&mut world, 500, query.terms()),
        Err(EcsError::Borrow(BorrowError::AlreadyMutablyBorrowed))
    ));
    // Position, taken before Velocity was refused, was given back.
    let probe = world.borrow_component_mut(500, 10, false).unwrap();
    world.release_component(probe).1.unwrap();
    world.release_component(held).1.unwrap();
    assert_eq!(world.assert_no_active_component_borrows(), Ok(()));
}

#[test]
fn query_rows_refuse_bad_iterator_answers() {
    let mut world = World::new();
    let query = position_query(&mut world);
    assert!(matches!(query.each(-1), Err(EcsError::NegativeRowCount)));
    let mut rows = query.each(1).unwrap();
    assert!(matches!(
        rows.next_row(&mut world, 0, query.terms()),
        Err(EcsError::InvalidEntity)
    ));
    assert_eq!(world.assert_no_active_component_borrows(), Ok(()));
}

#[test]
fn unique_terms_are_checked_pairwise() {
    let a = Term::shared(ComponentInfo { id: 1, size: 4 });
    let b = Term::mutable(ComponentInfo { id: 2, size: 4 });
    let c = Term::shared(ComponentInfo { id: 1, size: 4 });
    assert_eq!(a.inout, ECS_IN);
    assert_eq!(b.inout, ECS_INOUT);
    assert_eq!(validate_unique_terms(&vec![]), Ok(()));
    assert_eq!(validate_unique_terms(&vec![a, b]), Ok(()));
    assert_eq!(validate_unique_terms(&vec![a, b, c]), Err(EcsError::DuplicateTerms));
}

#[test]
fn borrow_row_then_release_restores_the_world() {
    let mut world = World::new();
    let terms = vec![
        Term::mutable(ComponentInfo { id: 1, size: 4 }),
        Term::shared(ComponentInfo { id: 2, size: 4 }),
        Term::shared(ComponentInfo { id: 3, size: 4 }),
    ];
    let guards = borrow_row(&mut world, 9, &terms).unwrap();
    assert_eq!(world.assert_can_mutate_structure(9), Err(EcsError::EntityBorrowed));
    let (modified, released) = guards.release(&mut world);
    assert_eq!(released, Ok(()));
    assert_eq!(modified, vec![BorrowKey { entity: 9, component: 1 }]);
    assert_eq!(world.assert_no_active_component_borrows(), Ok(()));
    let mut empty = QueryBorrowGuards::new();
    assert_eq!(empty.push(&mut world, 9, terms[1]), Ok(()));
    assert_eq!(empty.release(&mut world), (vec![], Ok(())));
    assert!(RowCursor::new(-3).is_err());
}
