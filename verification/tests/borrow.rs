use lib::borrow::{BorrowError, BorrowKey, BorrowState, BorrowTracker, ComponentBorrowGuard, GuardKind};

fn key(entity: u64, component: u64) -> BorrowKey {
    BorrowKey { entity, component }
}

#[test]
fn shared_borrows_nest_and_count() {
    let mut tracker = BorrowTracker::new();
    let k = key(7, 3);
    assert_eq!(tracker.state(k), None);
    assert_eq!(tracker.acquire_shared(k), Ok(()));
    assert_eq!(tracker.state(k), Some(BorrowState::Shared(1)));
    assert_eq!(tracker.acquire_shared(k), Ok(()));
    assert_eq!(tracker.state(k), Some(BorrowState::Shared(2)));
    assert_eq!(tracker.release_shared(k), Ok(()));
    assert_eq!(tracker.state(k), Some(BorrowState::Shared(1)));
    assert_eq!(tracker.release_shared(k), Ok(()));
    assert_eq!(tracker.state(k), None);
    assert!(!tracker.has_active_borrows());
}

#[test]
fn mutable_borrow_refused_during_shared_borrow() {
    let mut tracker = BorrowTracker::new();
    let k = key(1, 2);
    tracker.acquire_shared(k).unwrap();
    assert_eq!(tracker.acquire_mutable(k), Err(BorrowError::AlreadySharedBorrowed));
    assert_eq!(tracker.state(k), Some(BorrowState::Shared(1)));
}

#[test]
fn shared_borrow_refused_during_mutable_borrow() {
    let mut tracker = BorrowTracker::new();
    let k = key(1, 2);
    tracker.acquire_mutable(k).unwrap();
    assert_eq!(tracker.acquire_shared(k), Err(BorrowError::AlreadyMutablyBorrowed));
    assert_eq!(tracker.state(k), Some(BorrowState::Mutable));
}

#[test]
fn second_mutable_borrow_refused() {
    let mut tracker = BorrowTracker::new();
    let k = key(1, 2);
    tracker.acquire_mutable(k).unwrap();
    assert_eq!(tracker.acquire_mutable(k), Err(BorrowError::AlreadyMutablyBorrowed));
    assert_eq!(tracker.release_mutable(k), Ok(()));
    assert_eq!(tracker.state(k), None);
    assert_eq!(tracker.acquire_mutable(k), Ok(()));
}

#[test]
fn borrows_of_other_pairs_are_independent() {
    let mut tracker = BorrowTracker::new();
    tracker.acquire_mutable(key(1, 2)).unwrap();
    assert_eq!(tracker.acquire_mutable(key(1, 3)), Ok(()));
    assert_eq!(tracker.acquire_shared(key(2, 2)), Ok(()));
    assert_eq!(tracker.state(key(1, 2)), Some(BorrowState::Mutable));
    assert_eq!(tracker.state(key(1, 3)), Some(BorrowState::Mutable));
    assert_eq!(tracker.state(key(2, 2)), Some(BorrowState::Shared(1)));
    tracker.release_mutable(key(1, 3)).unwrap();
    assert_eq!(tracker.state(key(1, 2)), Some(BorrowState::Mutable));
    assert_eq!(tracker.state(key(1, 3)), None);
}

#[test]
fn inconsistent_releases_are_reported() {
    let mut tracker = BorrowTracker::new();
    let k = key(4, 5);
    assert_eq!(tracker.release_shared(k), Err(BorrowError::InconsistentSharedRelease));
    assert_eq!(tracker.release_mutable(k), Err(BorrowError::InconsistentMutableRelease));
    tracker.acquire_mutable(k).unwrap();
    assert_eq!(tracker.release_shared(k), Err(BorrowError::InconsistentSharedRelease));
    assert_eq!(tracker.state(k), Some(BorrowState::Mutable));
    tracker.release_mutable(k).unwrap();
    tracker.acquire_shared(k).unwrap();
    // A mutable release drops the entry whatever it held, and reports the mismatch.
    assert_eq!(tracker.release_mutable(k), Err(BorrowError::InconsistentMutableRelease));
    assert_eq!(tracker.state(k), None);
}

#[test]
fn structure_is_blocked_only_for_the_borrowed_entity() {
    let mut tracker = BorrowTracker::new();
    assert!(tracker.can_mutate_structure(9));
    tracker.acquire_shared(key(9, 1)).unwrap();
    assert!(!tracker.can_mutate_structure(9));
    assert!(tracker.can_mutate_structure(10));
    assert!(tracker.has_active_borrows());
    tracker.release_shared(key(9, 1)).unwrap();
    assert!(tracker.can_mutate_structure(9));
    assert!(!tracker.has_active_borrows());
}

#[test]
fn guards_release_what_they_took() {
    let mut tracker = BorrowTracker::new();
    let shared = ComponentBorrowGuard::shared(&mut tracker, 3, 4).unwrap();
    let again = ComponentBorrowGuard::shared(&mut tracker, 3, 4).unwrap();
    assert!(ComponentBorrowGuard::mutable(&mut tracker, 3, 4, true).is_err());
    assert_eq!(shared.release(&mut tracker), (None, Ok(())));
    assert_eq!(again.release(&mut tracker), (None, Ok(())));
    assert!(!tracker.has_active_borrows());

    let quiet = ComponentBorrowGuard::mutable(&mut tracker, 3, 4, false).unwrap();
    assert_eq!(quiet.release(&mut tracker), (None, Ok(())));
    let loud = ComponentBorrowGuard::mutable(&mut tracker, 3, 4, true).unwrap();
    assert_eq!(loud.release(&mut tracker), (Some(key(3, 4)), Ok(())));
    assert!(!tracker.has_active_borrows());
    let _kinds = [GuardKind::Shared, GuardKind::Mutable { notify_modified: true }];
}
