use lib::error::EcsError;
use lib::observer::{entity_observer_source, observer_callback_rows};
use lib::registry::ComponentInfo;
use lib::world::{CallbackKind, PendingPanic, Step, World};

#[derive(Clone, Copy, Debug, PartialEq)]
struct Position {
    x: f32,
    y: f32,
}

#[derive(Clone, Copy, Debug, PartialEq)]
struct Velocity {
    x: f32,
    y: f32,
}

#[derive(Clone, Copy, Debug, PartialEq)]
struct EmptyEvent;

fn register<T: Copy + 'static>(world: &mut World, id: u64) -> ComponentInfo {
    match world.component_info::<T>() {
        Ok(Step::NeedsComponent(request)) => world.register_component(request, id).unwrap(),
        Ok(Step::Ready(info)) => info,
        Err(e) => panic!("lookup refused: {:?}", e),
    }
}

#[test]
fn observer_checks_event_then_terms() {
    let mut world = World::new();
    register::<Position>(&mut world, 10);
    register::<Velocity>(&mut world, 11);
    match world.observer::<(&Position, &Velocity)>().event::<EmptyEvent>().each(&world) {
        Ok(Step::NeedsComponent(request)) => {
            assert!(request.type_id == std::any::TypeId::of::<EmptyEvent>());
            assert_eq!(request.size, 0);
            world.register_component(request, 12).unwrap();
        }
        _ => panic!("the event type is not registered"),
    }
    let init = match world.observer::<(&Position, &Velocity)>().event::<EmptyEvent>().each(&world) {
        Ok(Step::Ready(init)) => init,
        _ => panic!("all types are registered"),
    };
    assert_eq!(init.event(), 12);
    let ids: Vec<u64> = init.terms().iter().map(|t| t.id).collect();
    assert_eq!(ids, vec![10, 11]);
    let observer = init.finish(700).unwrap();
    assert_eq!(observer.id(), 700);
}

#[test]
fn observer_refuses_duplicates_and_active_borrows() {
    let mut world = World::new();
    register::<Position>(&mut world, 10);
    register::<EmptyEvent>(&mut world, 12);
    assert!(matches!(
        world.observer::<(&Position, &Position)>().event::<EmptyEvent>().each(&world),
        Err(EcsError::DuplicateTerms)
    ));
    let guard = world.borrow_component(1, 10).unwrap();
    assert!(matches!(
        world.observer::<(&Position, &Position)>().event::<EmptyEvent>().each(&world),
        Err(EcsError::ActiveComponentBorrows)
    ));
    world.release_component(guard).1.unwrap();
}

#[test]
fn entity_observer_checks_event() {
    let mut world = World::new();
    let entity = world.entity(33).unwrap();
    let request = match entity.observe::<EmptyEvent>(&world) {
        Ok(Step::NeedsComponent(request)) => request,
        _ => panic!("the event type is not registered"),
    };
    world.register_component(request, 12).unwrap();
    let init = match entity.observe::<EmptyEvent>(&world) {
        Ok(Step::Ready(init)) => init,
        _ => panic!("the event type is registered"),
    };
    assert_eq!(init.event(), 12);
    assert_eq!(init.entity(), 33);
    assert!(matches!(
        init.finish(0),
        Err(EcsError::ObserverCreationFailed)
    ));
    let init = match entity.observe::<EmptyEvent>(&world) {
        Ok(Step::Ready(init)) => init,
        _ => panic!("the event type is registered"),
    };
    assert_eq!(init.finish(701).unwrap().id(), 701);
}

#[test]
fn observer_callbacks_keep_failures() {
    let mut world = World::new();
    assert!(observer_callback_rows(&mut world, -2).is_none());
    assert!(entity_observer_source(&mut world, 4).is_none());
    assert_eq!(
        world.resume_pending_panic(),
        Some(PendingPanic::NegativeRowCount(CallbackKind::Observer))
    );
    assert!(entity_observer_source(&mut world, 0).is_none());
    assert_eq!(world.defer_end(true), Err(PendingPanic::InvalidSource));
    assert_eq!(entity_observer_source(&mut world, 4).unwrap().id(), 4);
    assert_eq!(observer_callback_rows(&mut world, 0).map(|c| c.has_next()), Some(false));
}
