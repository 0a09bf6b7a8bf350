use lib::borrow::BorrowError;
use lib::error::EcsError;
use lib::registry::ComponentInfo;
use lib::world::{CallbackKind, PendingPanic, Step, World};
use std::any::TypeId;

#[derive(Clone, Copy, Default, Debug, PartialEq)]
struct Position {
    x: f32,
    y: f32,
}

#[derive(Clone, Copy, Default, Debug, PartialEq)]
struct Velocity {
    x: f32,
    y: f32,
}

#[derive(Clone, Copy, Default, Debug, PartialEq)]
struct Tag;

fn register<T: Copy + 'static>(world: &mut World, id: u64) -> ComponentInfo {
    match world.component_info::<T>() {
        Ok(Step::NeedsComponent(request)) => world.register_component(request, id).unwrap(),
        Ok(Step::Ready(info)) => info,
        Err(e) => panic!("lookup refused: {:?}", e),
    }
}

#[test]
fn lookup_requests_registration_once() {
    let mut world = World::new();
    match world.component_info::<Position>() {
        Ok(Step::NeedsComponent(request)) => {
            assert!(request.type_id == TypeId::of::<Position>());
            assert_eq!(request.size, 8);
            assert_eq!(request.align, 4);
            assert_eq!(
                world.register_component(request, 77),
                Ok(ComponentInfo { id: 77, size: 8 })
            );
            // The same request answered again keeps the first registration.
            assert_eq!(
                world.register_component(request, 78),
                Ok(ComponentInfo { id: 77, size: 8 })
            );
        }
        _ => panic!("an unregistered type must be registered first"),
    }
    match world.component_info::<Position>() {
        Ok(Step::Ready(info)) => assert_eq!(info, ComponentInfo { id: 77, size: 8 }),
        _ => panic!("a registered type is ready"),
    }
}

#[test]
fn lookup_refuses_registration_while_borrowed() {
    let mut world = World::new();
    let position = register::<Position>(&mut world, 10);
    let guard = world.borrow_component(1, position.id).unwrap();
    assert!(matches!(
        world.component_info::<Velocity>(),
        Err(EcsError::ActiveComponentBorrows)
    ));
    // Registered types are still looked up.
    assert!(matches!(world.component_info::<Position>(), Ok(Step::Ready(_))));
    let (modified, released) = world.release_component(guard);
    assert_eq!(modified, None);
    assert_eq!(released, Ok(()));
    assert!(matches!(world.component_info::<Velocity>(), Ok(Step::NeedsComponent(_))));
}

#[test]
fn registration_refused_while_borrowed_and_for_invalid_id() {
    let mut world = World::new();
    let position = register::<Position>(&mut world, 10);
    let request = match world.component_info::<Velocity>() {
        Ok(Step::NeedsComponent(request)) => request,
        _ => panic!("velocity is not registered"),
    };
    let guard = world.borrow_component_mut(2, position.id, true).unwrap();
    assert_eq!(
        world.register_component(request, 11),
        Err(EcsError::ActiveComponentBorrows)
    );
    assert_eq!(world.release_component(guard), (Some(lib::borrow::BorrowKey { entity: 2, component: 10 }), Ok(())));
    assert_eq!(world.register_component(request, 0), Err(EcsError::RegistrationFailed));
    assert_eq!(
        world.register_component(request, 11),
        Ok(ComponentInfo { id: 11, size: 8 })
    );
}

#[test]
fn component_borrows_follow_the_sharing_rules() {
    let mut world = World::new();
    let a = world.borrow_component(5, 1).unwrap();
    let b = world.borrow_component(5, 1).unwrap();
    assert!(matches!(
        world.borrow_component_mut(5, 1, true),
        Err(EcsError::Borrow(BorrowError::AlreadySharedBorrowed))
    ));
    assert_eq!(world.release_component(a).1, Ok(()));
    assert_eq!(world.release_component(b).1, Ok(()));
    let c = world.borrow_component_mut(5, 1, false).unwrap();
    assert!(matches!(
        world.borrow_component(5, 1),
        Err(EcsError::Borrow(BorrowError::AlreadyMutablyBorrowed))
    ));
    assert!(matches!(
        world.borrow_component_mut(5, 1, false),
        Err(EcsError::Borrow(BorrowError::AlreadyMutablyBorrowed))
    ));
    assert_eq!(world.release_component(c), (None, Ok(())));
}

#[test]
fn structure_and_world_assertions() {
    let mut world = World::new();
    assert_eq!(world.assert_can_mutate_structure(5), Ok(()));
    assert_eq!(world.assert_no_active_component_borrows(), Ok(()));
    let guard = world.borrow_component(5, 1).unwrap();
    assert_eq!(world.assert_can_mutate_structure(5), Err(EcsError::EntityBorrowed));
    assert_eq!(world.assert_can_mutate_structure(6), Ok(()));
    assert_eq!(
        world.assert_no_active_component_borrows(),
        Err(EcsError::ActiveComponentBorrows)
    );
    world.release_component(guard).1.unwrap();
    assert_eq!(world.assert_can_mutate_structure(5), Ok(()));
}

#[test]
fn kept_failure_is_raised_by_progress_once() {
    let mut world = World::new();
    assert_eq!(world.progress(true), Ok(true));
    assert_eq!(world.progress(false), Ok(false));
    world.set_pending_panic(PendingPanic::CallbackPanicked);
    assert!(world.has_pending_panic());
    assert_eq!(world.progress(true), Err(PendingPanic::CallbackPanicked));
    assert!(!world.has_pending_panic());
    assert_eq!(world.progress(true), Ok(true));
}

#[test]
fn kept_failure_is_raised_by_defer_end() {
    let mut world = World::new();
    world.set_pending_panic(PendingPanic::NegativeRowCount(CallbackKind::Observer));
    world.set_pending_panic(PendingPanic::InvalidSource);
    assert_eq!(world.defer_end(true), Err(PendingPanic::InvalidSource));
    assert_eq!(world.defer_end(true), Ok(true));
    assert_eq!(world.resume_pending_panic(), None);
}

#[test]
fn entities_need_valid_ids() {
    let world = World::new();
    assert!(matches!(world.entity(0), Err(EcsError::EntityCreationFailed)));
    assert_eq!(world.entity(512).unwrap().id(), 512);
    assert!(matches!(world.entity_from_id(0, true), Err(EcsError::ZeroEntityId)));
    assert!(matches!(world.entity_from_id(9, false), Err(EcsError::EntityNotAlive)));
    assert_eq!(world.entity_from_id(9, true).unwrap().id(), 9);
}

#[test]
fn bulk_empty_plans_counts() {
    let mut world = World::new();
    let plan = world.bulk_empty(3).unwrap();
    assert!(plan.ids.is_empty());
    assert_eq!(plan.entity_count, 3);
    assert_eq!(plan.id_count, 0);
    assert!(matches!(
        world.bulk_empty(i32::MAX as usize + 1),
        Err(EcsError::CountTooLarge)
    ));
    let guard = world.borrow_component(1, 1).unwrap();
    assert!(matches!(world.bulk_empty(3), Err(EcsError::ActiveComponentBorrows)));
    world.release_component(guard).1.unwrap();
}

#[test]
fn bulk_with_plans_ids_and_default_values() {
    let mut world = World::new();
    assert!(matches!(
        world.bulk_with2::<Position, Velocity>(2),
        Ok(Step::NeedsComponent(_))
    ));
    let p = register::<Position>(&mut world, 21);
    let v = register::<Velocity>(&mut world, 22);
    let t = register::<Tag>(&mut world, 23);
    match world.bulk_with3::<Position, Velocity, Tag>(2) {
        Ok(Step::Ready((plan, ps, vs, ts))) => {
            assert_eq!(plan.ids, vec![p.id, v.id, t.id]);
            assert_eq!(plan.entity_count, 2);
            assert_eq!(plan.id_count, 3);
            assert_eq!(ps, vec![Position::default(); 2]);
            assert_eq!(vs, vec![Velocity::default(); 2]);
            assert_eq!(ts.len(), 2);
        }
        _ => panic!("all types are registered"),
    }
    match world.bulk_with1::<Velocity>(1) {
        Ok(Step::Ready((plan, vs))) => {
            assert_eq!(plan.ids, vec![v.id]);
            assert_eq!(vs, vec![Velocity { x: 0.0, y: 0.0 }]);
        }
        _ => panic!("velocity is registered"),
    }
}

#[test]
fn bulk_finish_turns_ids_into_entities() {
    let world = World::new();
    let plan = world.bulk_empty(2).unwrap();
    let entities = plan.finish(true, vec![40, 41]).unwrap();
    let ids: Vec<u64> = entities.iter().map(|e| e.id()).collect();
    assert_eq!(ids, vec![40, 41]);
    let plan = world.bulk_empty(2).unwrap();
    assert!(matches!(plan.finish(false, vec![0, 0]), Err(EcsError::BulkInitFailed)));
}
