//! Runtime borrow tracking for component access.
//!
//! Every `(entity, component)` pair is either free, held by one or more shared
//! readers, or held by exactly one writer. Shared reads may nest; a shared read
//! during a write, a write during a shared read and two nested writes are refused.
use vstd::prelude::*;

use crate::sys::{ecs_entity_t, ecs_id_t};

verus! {

/// One component of one entity: the unit that borrows are tracked for.
#[derive(Clone, Copy, PartialEq, Eq, Structural, Debug)]
pub struct BorrowKey {
    pub entity: ecs_entity_t,
    pub component: ecs_id_t,
}

/// How a tracked pair is currently held.
#[derive(Clone, Copy, PartialEq, Eq, Structural, Debug)]
pub enum BorrowState {
    /// Held by this many shared readers (at least one).
    Shared(usize),
    /// Held by one writer.
    Mutable,
}

/// Why a borrow request or release was refused.
#[derive(Clone, Copy, PartialEq, Eq, Structural, Debug)]
pub enum BorrowError {
    /// The pair is held by a writer.
    AlreadyMutablyBorrowed,
    /// The pair is held by shared readers.
    AlreadySharedBorrowed,
    /// The shared reader count of the pair cannot grow any further.
    SharedCountOverflow,
    /// A shared release found the pair not held by shared readers.
    InconsistentSharedRelease,
    /// A mutable release found the pair not held by a writer.
    InconsistentMutableRelease,
}

/// The borrow table, as a map from pairs to their state.
pub type BorrowMap = Map<BorrowKey, BorrowState>;

/// What a shared acquisition does to the borrow table.
pub open spec fn spec_acquire_shared(m: BorrowMap, key: BorrowKey) -> Result<BorrowMap, BorrowError> {
    if m.contains_key(key) {
        match m[key] {
            BorrowState::Mutable => Err(BorrowError::AlreadyMutablyBorrowed),
            BorrowState::Shared(n) => if n == usize::MAX {
                Err(BorrowError::SharedCountOverflow)
            } else {
                Ok(m.insert(key, BorrowState::Shared((n + 1) as usize)))
            },
        }
    } else {
        Ok(m.insert(key, BorrowState::Shared(1)))
    }
}

/// What a mutable acquisition does to the borrow table.
pub open spec fn spec_acquire_mutable(m: BorrowMap, key: BorrowKey) -> Result<BorrowMap, BorrowError> {
    if m.contains_key(key) {
        match m[key] {
            BorrowState::Mutable => Err(BorrowError::AlreadyMutablyBorrowed),
            BorrowState::Shared(_) => Err(BorrowError::AlreadySharedBorrowed),
        }
    } else {
        Ok(m.insert(key, BorrowState::Mutable))
    }
}

/// What a shared release does to the borrow table.
pub open spec fn spec_release_shared(m: BorrowMap, key: BorrowKey) -> Result<BorrowMap, BorrowError> {
    if m.contains_key(key) {
        match m[key] {
            BorrowState::Shared(n) => if n == 1 {
                Ok(m.remove(key))
            } else {
                Ok(m.insert(key, BorrowState::Shared((n - 1) as usize)))
            },
            BorrowState::Mutable => Err(BorrowError::InconsistentSharedRelease),
        }
    } else {
        Err(BorrowError::InconsistentSharedRelease)
    }
}

/// A table in which every shared entry counts at least one reader.
pub open spec fn counts_positive(m: BorrowMap) -> bool {
    forall|k: BorrowKey| #[trigger] m.contains_key(k) ==> match m[k] {
        BorrowState::Shared(n) => n >= 1,
        BorrowState::Mutable => true,
    }
}

/// Whether some pair of the given entity is held.
pub open spec fn entity_borrowed(m: BorrowMap, entity: ecs_entity_t) -> bool {
    exists|k: BorrowKey| #[trigger] m.contains_key(k) && k.entity == entity
}

#[derive(Clone, Copy)]
struct BorrowEntry {
    key: BorrowKey,
    state: BorrowState,
}

/// The table of active component borrows of one world.
pub struct BorrowTracker {
    entries: Vec<BorrowEntry>,
    map: Ghost<BorrowMap>,
}

impl View for BorrowTracker {
    type V = BorrowMap;

    closed spec fn view(&self) -> BorrowMap {
        self.map@
    }
}

impl BorrowTracker {
    /// The tracker's internal consistency: its entries list each held pair once,
    /// with the state the table gives it, and shared counts are positive.
    pub closed spec fn wf(&self) -> bool {
        &&& forall|i: int, j: int|
            0 <= i < j < self.entries@.len() ==> #[trigger] self.entries@[i].key
                != #[trigger] self.entries@[j].key
        &&& forall|i: int|
            0 <= i < self.entries@.len() ==> {
                &&& self.map@.contains_key(#[trigger] self.entries@[i].key)
                &&& self.map@[self.entries@[i].key] == self.entries@[i].state
            }
        &&& forall|k: BorrowKey|
            #[trigger] self.map@.contains_key(k) ==> exists|i: int|
                0 <= i < self.entries@.len() && #[trigger] self.entries@[i].key == k
        &&& counts_positive(self.map@)
    }

    /// An empty tracker.
    pub fn new() -> (r: Self)
        ensures
            r.wf(),
            r@ == BorrowMap::empty(),
    {
        BorrowTracker { entries: Vec::new(), map: Ghost(BorrowMap::empty()) }
    }

    pub(crate) proof fn lemma_wf_counts(&self)
        requires
            self.wf(),
        ensures
            counts_positive(self@),
    {
    }

    /// Where the entry for `key` stands in the list, if the pair is held.
    fn find(&self, key: BorrowKey) -> (r: Option<usize>)
        requires
            self.wf(),
        ensures
            match r {
                Some(i) => i < self.entries@.len() && self.entries@[i as int].key == key
                    && self@.contains_key(key) && self@[key] == self.entries@[i as int].state,
                None => !self@.contains_key(key),
            },
    {
        let mut i: usize = 0;
        while i < self.entries.len()
            invariant
                self.wf(),
                i <= self.entries@.len(),
                forall|j: int| 0 <= j < i ==> self.entries@[j].key != key,
            decreases self.entries@.len() - i,
        {
            if self.entries[i].key == key {
                return Some(i);
            }
            i = i + 1;
        }
        proof {
            if self@.contains_key(key) {
                let w = choose|j: int| 0 <= j < self.entries@.len() && #[trigger] self.entries@[j].key == key;
                assert(self.entries@[w].key == key);
            }
        }
        None
    }

    /// The state of `key`, if the pair is held.
    pub fn state(&self, key: BorrowKey) -> (r: Option<BorrowState>)
        requires
            self.wf(),
        ensures
            r == (if self@.contains_key(key) { Some(self@[key]) } else { None::<BorrowState> }),
    {
        match self.find(key) {
            Some(i) => Some(self.entries[i].state),
            None => None,
        }
    }

    fn push_entry(&mut self, key: BorrowKey, state: BorrowState)
        requires
            old(self).wf(),
            !old(self)@.contains_key(key),
            match state {
                BorrowState::Shared(n) => n >= 1,
                BorrowState::Mutable => true,
            },
        ensures
            final(self).wf(),
            final(self)@ == old(self)@.insert(key, state),
    {
        let ghost old_entries = self.entries@;
        self.entries.push(BorrowEntry { key, state });
        self.map = Ghost(self.map@.insert(key, state));
        assert forall|i: int, j: int|
            0 <= i < j < self.entries@.len() implies #[trigger] self.entries@[i].key
            != #[trigger] self.entries@[j].key by {
            if j == old_entries.len() {
                assert(old(self).map@.contains_key(old_entries[i].key));
            }
        }
        assert forall|k: BorrowKey| #[trigger] self.map@.contains_key(k) implies exists|i: int|
            0 <= i < self.entries@.len() && #[trigger] self.entries@[i].key == k by {
            if k == key {
                assert(self.entries@[old_entries.len() as int].key == k);
            } else {
                let w = choose|i: int| 0 <= i < old_entries.len() && #[trigger] old_entries[i].key == k;
                assert(self.entries@[w].key == k);
            }
        }
    }

    fn set_entry(&mut self, i: usize, state: BorrowState)
        requires
            old(self).wf(),
            i < old(self).entries@.len(),
            match state {
                BorrowState::Shared(n) => n >= 1,
                BorrowState::Mutable => true,
            },
        ensures
            final(self).wf(),
            final(self)@ == old(self)@.insert(old(self).entries@[i as int].key, state),
    {
        let key = self.entries[i].key;
        let ghost old_entries = self.entries@;
        self.entries.set(i, BorrowEntry { key, state });
        self.map = Ghost(self.map@.insert(key, state));
        assert forall|k: BorrowKey| #[trigger] self.map@.contains_key(k) implies exists|j: int|
            0 <= j < self.entries@.len() && #[trigger] self.entries@[j].key == k by {
            if k == key {
                assert(self.entries@[i as int].key == k);
            } else {
                let w = choose|j: int| 0 <= j < old_entries.len() && #[trigger] old_entries[j].key == k;
                assert(self.entries@[w].key == k);
            }
        }
        assert forall|j: int|
            0 <= j < self.entries@.len() implies {
                &&& self.map@.contains_key(#[trigger] self.entries@[j].key)
                &&& self.map@[self.entries@[j].key] == self.entries@[j].state
            } by {
            if j != i {
                assert(old_entries[j].key != key);
            }
        }
    }

    fn remove_entry(&mut self, i: usize)
        requires
            old(self).wf(),
            i < old(self).entries@.len(),
        ensures
            final(self).wf(),
            final(self)@ == old(self)@.remove(old(self).entries@[i as int].key),
    {
        let key = self.entries[i].key;
        let ghost old_entries = self.entries@;
        self.entries.remove(i);
        self.map = Ghost(self.map@.remove(key));
        assert forall|a: int, b: int|
            0 <= a < b < self.entries@.len() implies #[trigger] self.entries@[a].key
            != #[trigger] self.entries@[b].key by {
            let oa = if a < i { a } else { a + 1 };
            let ob = if b < i { b } else { b + 1 };
            assert(self.entries@[a] == old_entries[oa]);
            assert(self.entries@[b] == old_entries[ob]);
            assert(old_entries[oa].key != old_entries[ob].key);
        }
        assert forall|j: int|
            0 <= j < self.entries@.len() implies {
                &&& self.map@.contains_key(#[trigger] self.entries@[j].key)
                &&& self.map@[self.entries@[j].key] == self.entries@[j].state
            } by {
            let oj = if j < i { j } else { j + 1 };
            assert(self.entries@[j] == old_entries[oj]);
            assert(old_entries[oj].key != key);
        }
        assert forall|k: BorrowKey| #[trigger] self.map@.contains_key(k) implies exists|j: int|
            0 <= j < self.entries@.len() && #[trigger] self.entries@[j].key == k by {
            let w = choose|j: int| 0 <= j < old_entries.len() && #[trigger] old_entries[j].key == k;
            assert(w != i);
            let nw = if w < i { w } else { w - 1 };
            assert(self.entries@[nw] == old_entries[w]);
        }
    }

    /// Takes a shared borrow of `key`: refused while a writer holds it, or when its
    /// reader count is at its maximum; otherwise the count grows by one.
    pub fn acquire_shared(&mut self, key: BorrowKey) -> (r: Result<(), BorrowError>)
        requires
            old(self).wf(),
        ensures
            final(self).wf(),
            match spec_acquire_shared(old(self)@, key) {
                Ok(m) => r is Ok && final(self)@ == m,
                Err(e) => r == Err::<(), BorrowError>(e) && final(self)@ == old(self)@,
            },
    {
        match self.find(key) {
            Some(i) => match self.entries[i].state {
                BorrowState::Shared(count) => {
                    if count == usize::MAX {
                        Err(BorrowError::SharedCountOverflow)
                    } else {
                        self.set_entry(i, BorrowState::Shared(count + 1));
                        Ok(())
                    }
                },
                BorrowState::Mutable => Err(BorrowError::AlreadyMutablyBorrowed),
            },
            None => {
                self.push_entry(key, BorrowState::Shared(1));
                Ok(())
            },
        }
    }

    /// Takes the mutable borrow of `key`: refused while anyone holds it.
    pub fn acquire_mutable(&mut self, key: BorrowKey) -> (r: Result<(), BorrowError>)
        requires
            old(self).wf(),
        ensures
            final(self).wf(),
            match spec_acquire_mutable(old(self)@, key) {
                Ok(m) => r is Ok && final(self)@ == m,
                Err(e) => r == Err::<(), BorrowError>(e) && final(self)@ == old(self)@,
            },
    {
        match self.find(key) {
            Some(i) => match self.entries[i].state {
                BorrowState::Shared(_) => Err(BorrowError::AlreadySharedBorrowed),
                BorrowState::Mutable => Err(BorrowError::AlreadyMutablyBorrowed),
            },
            None => {
                self.push_entry(key, BorrowState::Mutable);
                Ok(())
            },
        }
    }

    /// Gives back one shared borrow of `key`; the last reader frees the pair.
    pub fn release_shared(&mut self, key: BorrowKey) -> (r: Result<(), BorrowError>)
        requires
            old(self).wf(),
        ensures
            final(self).wf(),
            match spec_release_shared(old(self)@, key) {
                Ok(m) => r is Ok && final(self)@ == m,
                Err(e) => r == Err::<(), BorrowError>(e) && final(self)@ == old(self)@,
            },
    {
        match self.find(key) {
            Some(i) => match self.entries[i].state {
                BorrowState::Shared(count) => {
                    proof {
                        self.lemma_wf_counts();
                    }
                    if count == 1 {
                        self.remove_entry(i);
                    } else {
                        self.set_entry(i, BorrowState::Shared(count - 1));
                    }
                    Ok(())
                },
                BorrowState::Mutable => Err(BorrowError::InconsistentSharedRelease),
            },
            None => Err(BorrowError::InconsistentSharedRelease),
        }
    }

    /// Gives back the mutable borrow of `key`. The pair's entry is dropped whatever
    /// it held; the release succeeds only if it was held by a writer.
    pub fn release_mutable(&mut self, key: BorrowKey) -> (r: Result<(), BorrowError>)
        requires
            old(self).wf(),
        ensures
            final(self).wf(),
            final(self)@ == old(self)@.remove(key),
            r is Ok <==> (old(self)@.contains_key(key) && old(self)@[key] == BorrowState::Mutable),
            r is Err ==> r == Err::<(), BorrowError>(BorrowError::InconsistentMutableRelease),
    {
        match self.find(key) {
            Some(i) => {
                let state = self.entries[i].state;
                self.remove_entry(i);
                match state {
                    BorrowState::Mutable => Ok(()),
                    BorrowState::Shared(_) => Err(BorrowError::InconsistentMutableRelease),
                }
            },
            None => {
                assert(old(self)@.remove(key) =~= old(self)@);
                Err(BorrowError::InconsistentMutableRelease)
            },
        }
    }

    /// Whether no pair of `entity` is held, so that its structure may change.
    pub fn can_mutate_structure(&self, entity: ecs_entity_t) -> (r: bool)
        requires
            self.wf(),
        ensures
            r == !entity_borrowed(self@, entity),
    {
        let mut i: usize = 0;
        while i < self.entries.len()
            invariant
                self.wf(),
                i <= self.entries@.len(),
                forall|j: int| 0 <= j < i ==> self.entries@[j].key.entity != entity,
            decreases self.entries@.len() - i,
        {
            if self.entries[i].key.entity == entity {
                assert(self@.contains_key(self.entries@[i as int].key));
                return false;
            }
            i = i + 1;
        }
        proof {
            if entity_borrowed(self@, entity) {
                let k = choose|k: BorrowKey| #[trigger] self@.contains_key(k) && k.entity == entity;
                let w = choose|j: int| 0 <= j < self.entries@.len() && #[trigger] self.entries@[j].key == k;
                assert(self.entries@[w].key.entity == entity);
            }
        }
        true
    }

    /// Whether any pair is held at all.
    pub fn has_active_borrows(&self) -> (r: bool)
        requires
            self.wf(),
        ensures
            r == !self@.dom().is_empty(),
    {
        if self.entries.len() == 0 {
            proof {
                if !self@.dom().is_empty() {
                    let k = self@.dom().choose();
                    assert(self@.contains_key(k));
                    let w = choose|j: int| 0 <= j < self.entries@.len() && #[trigger] self.entries@[j].key == k;
                }
            }
            false
        } else {
            assert(self@.dom().contains(self.entries@[0].key));
            true
        }
    }
}

/// The kind of a component borrow guard.
#[derive(Clone, Copy, PartialEq, Eq, Structural, Debug)]
pub enum GuardKind {
    /// A shared read.
    Shared,
    /// A write; when `notify_modified` is set, releasing the guard asks for the
    /// component to be flagged as modified.
    Mutable { notify_modified: bool },
}

/// Proof that one borrow of one pair is held; giving it back releases the borrow.
pub struct ComponentBorrowGuard {
    key: BorrowKey,
    kind: GuardKind,
}

impl ComponentBorrowGuard {
    /// The pair this guard holds.
    pub closed spec fn key(&self) -> BorrowKey {
        self.key
    }

    /// How this guard holds its pair.
    pub closed spec fn kind(&self) -> GuardKind {
        self.kind
    }

    /// Takes a shared borrow of `(entity, component)` in `tracker` and returns its guard.
    pub fn shared(tracker: &mut BorrowTracker, entity: ecs_entity_t, component: ecs_id_t) -> (r:
        Result<ComponentBorrowGuard, BorrowError>)
        requires
            old(tracker).wf(),
        ensures
            final(tracker).wf(),
            match spec_acquire_shared(old(tracker)@, BorrowKey { entity, component }) {
                Ok(m) => r matches Ok(g) && g.key() == (BorrowKey { entity, component })
                    && g.kind() == GuardKind::Shared && final(tracker)@ == m,
                Err(e) => r matches Err(x) && x == e && final(tracker)@ == old(tracker)@,
            },
    {
        let key = BorrowKey { entity, component };
        match tracker.acquire_shared(key) {
            Ok(()) => Ok(ComponentBorrowGuard { key, kind: GuardKind::Shared }),
            Err(e) => Err(e),
        }
    }

    /// Takes the mutable borrow of `(entity, component)` in `tracker` and returns its guard.
    pub fn mutable(
        tracker: &mut BorrowTracker,
        entity: ecs_entity_t,
        component: ecs_id_t,
        notify_modified: bool,
    ) -> (r: Result<ComponentBorrowGuard, BorrowError>)
        requires
            old(tracker).wf(),
        ensures
            final(tracker).wf(),
            match spec_acquire_mutable(old(tracker)@, BorrowKey { entity, component }) {
                Ok(m) => r matches Ok(g) && g.key() == (BorrowKey { entity, component })
                    && g.kind() == (GuardKind::Mutable { notify_modified })
                    && final(tracker)@ == m,
                Err(e) => r matches Err(x) && x == e && final(tracker)@ == old(tracker)@,
            },
    {
        let key = BorrowKey { entity, component };
        match tracker.acquire_mutable(key) {
            Ok(()) => Ok(ComponentBorrowGuard { key, kind: GuardKind::Mutable { notify_modified } }),
            Err(e) => Err(e),
        }
    }

    /// The pair that releasing this guard flags as modified, if any.
    pub fn modified_notice(&self) -> (r: Option<BorrowKey>)
        ensures
            r == (if self.kind() == (GuardKind::Mutable { notify_modified: true }) {
                Some(self.key())
            } else {
                None::<BorrowKey>
            }),
    {
        match self.kind {
            GuardKind::Mutable { notify_modified: true } => Some(self.key),
            _ => None,
        }
    }

    /// Gives the borrow back. The first part of the result is the pair to flag as
    /// modified (a mutable guard made with `notify_modified`), the second whether
    /// the table agreed with the guard.
    pub fn release(self, tracker: &mut BorrowTracker) -> (r: (
        Option<BorrowKey>,
        Result<(), BorrowError>,
    ))
        requires
            old(tracker).wf(),
        ensures
            final(tracker).wf(),
            r.0 == (if self.kind() == (GuardKind::Mutable { notify_modified: true }) {
                Some(self.key())
            } else {
                None::<BorrowKey>
            }),
            match self.kind() {
                GuardKind::Shared => match spec_release_shared(old(tracker)@, self.key()) {
                    Ok(m) => r.1 is Ok && final(tracker)@ == m,
                    Err(e) => r.1 == Err::<(), BorrowError>(e) && final(tracker)@ == old(tracker)@,
                },
                GuardKind::Mutable { .. } => {
                    &&& final(tracker)@ == old(tracker)@.remove(self.key())
                    &&& (r.1 is Ok <==> (old(tracker)@.contains_key(self.key())
                        && old(tracker)@[self.key()] == BorrowState::Mutable))
                    &&& (r.1 is Err ==> r.1 == Err::<(), BorrowError>(
                        BorrowError::InconsistentMutableRelease,
                    ))
                },
            },
    {
        match self.kind {
            GuardKind::Shared => (None, tracker.release_shared(self.key)),
            GuardKind::Mutable { notify_modified } => {
                let modified = if notify_modified {
                    Some(self.key)
                } else {
                    None
                };
                (modified, tracker.release_mutable(self.key))
            },
        }
    }
}

/// A shared borrow followed by its release leaves the table as it was.
pub proof fn lemma_shared_round_trip(m: BorrowMap, key: BorrowKey)
    requires
        counts_positive(m),
        spec_acquire_shared(m, key) is Ok,
    ensures
        spec_release_shared(spec_acquire_shared(m, key)->Ok_0, key) == Ok::<BorrowMap, BorrowError>(
            m,
        ),
{
    let m2 = spec_acquire_shared(m, key)->Ok_0;
    if m.contains_key(key) {
        assert(m2.insert(key, m[key]) =~= m);
    } else {
        assert(m2.remove(key) =~= m);
    }
}

/// A mutable borrow followed by its release leaves the table as it was, and the
/// release succeeds.
pub proof fn lemma_mutable_round_trip(m: BorrowMap, key: BorrowKey)
    requires
        spec_acquire_mutable(m, key) is Ok,
    ensures
        spec_acquire_mutable(m, key)->Ok_0.contains_key(key),
        spec_acquire_mutable(m, key)->Ok_0[key] == BorrowState::Mutable,
        spec_acquire_mutable(m, key)->Ok_0.remove(key) == m,
{
    assert(spec_acquire_mutable(m, key)->Ok_0.remove(key) =~= m);
}

/// While a pair is held by a writer, neither a shared nor a second mutable borrow of
/// it is granted.
pub proof fn lemma_mutable_is_exclusive(m: BorrowMap, key: BorrowKey)
    requires
        spec_acquire_mutable(m, key) is Ok,
    ensures
        spec_acquire_shared(spec_acquire_mutable(m, key)->Ok_0, key) == Err::<BorrowMap, BorrowError>(
            BorrowError::AlreadyMutablyBorrowed,
        ),
        spec_acquire_mutable(spec_acquire_mutable(m, key)->Ok_0, key) == Err::<BorrowMap, BorrowError>(
            BorrowError::AlreadyMutablyBorrowed,
        ),
{
}

/// While a pair is held by readers, a mutable borrow of it is refused, and a further
/// shared borrow is granted unless the reader count is at its maximum.
pub proof fn lemma_shared_is_reentrant(m: BorrowMap, key: BorrowKey)
    requires
        spec_acquire_shared(m, key) is Ok,
    ensures
        spec_acquire_mutable(spec_acquire_shared(m, key)->Ok_0, key) == Err::<BorrowMap, BorrowError>(
            BorrowError::AlreadySharedBorrowed,
        ),
        spec_acquire_shared(spec_acquire_shared(m, key)->Ok_0, key) is Ok
            || spec_acquire_shared(spec_acquire_shared(m, key)->Ok_0, key) == Err::<
            BorrowMap,
            BorrowError,
        >(BorrowError::SharedCountOverflow),
{
}

/// Borrowing or releasing one pair leaves every other pair as it was.
pub proof fn lemma_other_pairs_untouched(m: BorrowMap, key: BorrowKey, other: BorrowKey)
    requires
        other != key,
    ensures
        spec_acquire_shared(m, key) matches Ok(m2) ==> (m2.contains_key(other) == m.contains_key(other)
            && m2[other] == m[other]),
        spec_acquire_mutable(m, key) matches Ok(m2) ==> (m2.contains_key(other) == m.contains_key(other)
            && m2[other] == m[other]),
        spec_release_shared(m, key) matches Ok(m2) ==> (m2.contains_key(other) == m.contains_key(other)
            && m2[other] == m[other]),
        m.remove(key).contains_key(other) == m.contains_key(other) && m.remove(key)[other] == m[other],
{
}

/// While any pair of an entity is held, the entity's structure may not change.
pub proof fn lemma_borrow_blocks_structure(m: BorrowMap, key: BorrowKey)
    ensures
        spec_acquire_shared(m, key) matches Ok(m2) ==> entity_borrowed(m2, key.entity),
        spec_acquire_mutable(m, key) matches Ok(m2) ==> entity_borrowed(m2, key.entity),
{
    if spec_acquire_shared(m, key) is Ok {
        assert(spec_acquire_shared(m, key)->Ok_0.contains_key(key));
    }
    if spec_acquire_mutable(m, key) is Ok {
        assert(spec_acquire_mutable(m, key)->Ok_0.contains_key(key));
    }
}

} // verus!
