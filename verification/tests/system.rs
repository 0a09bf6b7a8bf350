use lib::borrow::BorrowError;
use lib::error::EcsError;
use lib::registry::ComponentInfo;
use lib::system::system_callback_rows;
use lib::world::{CallbackKind, PendingPanic, Step, World};

#[derive(Clone, Copy, Debug, PartialEq)]
struct Position {
    x: f32,
    y: f32,
}

#[derive(Clone, Copy, Debug, PartialEq)]
struct Velocity {
    x: f32,
    y: f32,
}


fn register<T: Copy + 'static>(world: &mut World, id: u64) -> ComponentInfo {
    match world.component_info::<T>() {
        Ok(Step::NeedsComponent(request)) => world.register_component(request, id).unwrap(),
        Ok(Step::Ready(info)) => info,
        Err(e) => panic!("lookup refused: {:?}", e),
    }
}

// Covers rejecting duplicate component fields before system registration succeeds.
#[test]
fn system_each_rejects_duplicate_components() {
    let mut world = World::new();
    register::<Position>(&mut world, 10);
    let result = world.system::<(&mut Position, &Position)>().each(&world);
    assert!(matches!(result, Err(EcsError::DuplicateTerms)));
}

// Covers rejecting duplicate readonly component fields before system registration succeeds.
#[test]
fn system_each_rejects_duplicate_readonly_components() {
    let mut world = World::new();
    register::<Position>(&mut world, 10);
    let result = world.system::<(&Position, &Position)>().each(&world);
    assert!(matches!(result, Err(EcsError::DuplicateTerms)));
}

#[test]
fn system_registration_refused_during_borrow_and_for_invalid_id() {
    let mut world = World::new();
    register::<Position>(&mut world, 10);
    register::<Velocity>(&mut world, 11);
    let guard = world.borrow_component(3, 10).unwrap();
    assert!(matches!(
        world.system::<(&Position, &Velocity)>().each(&world),
        Err(EcsError::ActiveComponentBorrows)
    ));
    world.release_component(guard).1.unwrap();
    let init = match world.system::<(&mut Position, &Velocity)>().each(&world) {
        Ok(Step::Ready(init)) => init,
        _ => panic!("both types are registered"),
    };
    assert_eq!(init.terms().len(), 2);
    // flecs refused the system.
    assert!(matches!(init.finish(0), Err(EcsError::SystemCreationFailed)));
}

#[test]
fn system_id_is_kept() {
    let mut world = World::new();
    register::<Position>(&mut world, 10);
    let init = match world.system::<(&mut Position,)>().each(&world) {
        Ok(Step::Ready(init)) => init,
        _ => panic!("position is registered"),
    };
    let system = init.finish(900).unwrap();
    assert_eq!(system.id(), 900);
}

#[test]
fn system_callback_keeps_failures_instead_of_unwinding() {
    let mut world = World::new();
    register::<Position>(&mut world, 10);
    let init = match world.system::<(&mut Position,)>().each(&world) {
        Ok(Step::Ready(init)) => init,
        _ => panic!("position is registered"),
    };
    let terms = init.terms().clone();

    // A negative row count is kept, and raised by progress.
    assert!(system_callback_rows(&mut world, -1).is_none());
    assert_eq!(
        world.progress(true),
        Err(PendingPanic::NegativeRowCount(CallbackKind::System))
    );

    // The invalid entity is kept.
    let mut rows = system_callback_rows(&mut world, 2).unwrap();
    assert!(rows.next_callback_row(&mut world, CallbackKind::System, 0, &terms).is_none());
    // The callback's remaining rows are not handed out.
    assert!(!rows.has_next());
    // While a failure is kept, later callbacks do nothing.
    assert!(system_callback_rows(&mut world, 2).is_none());
    assert_eq!(
        world.progress(true),
        Err(PendingPanic::InvalidEntity(CallbackKind::System))
    );

    // A refused row borrow is kept.
    let held = world.borrow_component(7, 10).unwrap();
    let mut rows = system_callback_rows(&mut world, 3).unwrap();
    assert!(rows.next_callback_row(&mut world, CallbackKind::System, 7, &terms).is_none());
    assert!(!rows.has_next());
    world.release_component(held).1.unwrap();
    assert_eq!(
        world.progress(true),
        Err(PendingPanic::Borrow(BorrowError::AlreadySharedBorrowed))
    );

    // A good row is handed out with its borrows.
    let mut rows = system_callback_rows(&mut world, 1).unwrap();
    let guards = rows.next_callback_row(&mut world, CallbackKind::System, 7, &terms).unwrap();
    assert!(!rows.has_next());
    guards.release(&mut world).1.unwrap();
    assert_eq!(world.progress(true), Ok(true));
}

#[test]
fn callback_panic_ends_the_rows_and_is_raised_by_progress() {
    let mut world = World::new();
    register::<Position>(&mut world, 10);
    let init = match world.system::<(&mut Position,)>().each(&world) {
        Ok(Step::Ready(init)) => init,
        _ => panic!("position is registered"),
    };
    let terms = init.terms().clone();
    let mut rows = system_callback_rows(&mut world, 3).unwrap();
    assert_eq!(rows.row(), 0);
    let guards = rows.next_callback_row(&mut world, CallbackKind::System, 7, &terms).unwrap();
    assert_eq!(rows.row(), 1);
    guards.release(&mut world).1.unwrap();
    rows.callback_panicked(&mut world);
    assert!(!rows.has_next());
    assert_eq!(world.progress(true), Err(PendingPanic::CallbackPanicked));
}

#[test]
fn system_callback_panic_is_raised_by_progress() {
    let mut world = World::new();
    // The callback trampoline catches the panic and keeps it in the world.
    world.set_pending_panic(PendingPanic::CallbackPanicked);
    assert!(system_callback_rows(&mut world, 1).is_none());
    assert_eq!(world.progress(true), Err(PendingPanic::CallbackPanicked));
}
