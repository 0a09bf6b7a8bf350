//! Scenarios that need flecs' answers (ids, stored component values). flecs itself is
//! not linked into these tests: `FlecsStandIn` gives the answers the library asks for.
use lib::error::EcsError;
use lib::world::{BulkPlan, ComponentRequest, Step, World};
use std::any::Any;
use std::collections::HashMap;
use std::sync::atomic::{AtomicUsize, Ordering};
use std::sync::Arc;

#[derive(Clone, Copy, Default, Debug, PartialEq)]
struct Position {
    x: f32,
    y: f32,
}

#[derive(Clone, Copy, Default, Debug, PartialEq)]
struct Velocity {
    x: f32,
    y: f32,
}

struct DropCounter {
    drops: Arc<AtomicUsize>,
}

impl Drop for DropCounter {
    fn drop(&mut self) {
        self.drops.fetch_add(1, Ordering::SeqCst);
    }
}

struct FlecsStandIn {
    last_id: u64,
    values: HashMap<(u64, u64), Box<dyn Any>>,
    contexts: Vec<Box<dyn Any>>,
}

impl FlecsStandIn {
    fn new() -> Self {
        FlecsStandIn { last_id: 500, values: HashMap::new(), contexts: Vec::new() }
    }

    /// Registers a callback: like flecs, the stand-in owns its context from then on
    /// and frees it when it is finalized (dropped).
    fn callback_init(&mut self, context: Box<dyn Any>) -> u64 {
        self.contexts.push(context);
        self.new_id()
    }

    fn new_id(&mut self) -> u64 {
        self.last_id += 1;
        self.last_id
    }

    fn register(&mut self, world: &mut World, request: ComponentRequest) {
        let id = self.new_id();
        world.register_component(request, id).unwrap();
    }

    fn resolve<X>(
        &mut self,
        world: &mut World,
        mut ask: impl FnMut(&World) -> Result<Step<X>, EcsError>,
    ) -> X {
        loop {
            match ask(world) {
                Ok(Step::NeedsComponent(request)) => self.register(world, request),
                Ok(Step::Ready(x)) => return x,
                Err(e) => panic!("refused: {:?}", e),
            }
        }
    }

    fn bulk_init2<T: Copy + 'static, U: Copy + 'static>(
        &mut self,
        plan: &BulkPlan,
        first: &[T],
        second: &[U],
    ) -> Vec<u64> {
        let mut out = Vec::new();
        for i in 0..plan.entity_count as usize {
            let entity = self.new_id();
            self.values.insert((entity, plan.ids[0]), Box::new(first[i]));
            self.values.insert((entity, plan.ids[1]), Box::new(second[i]));
            out.push(entity);
        }
        out
    }

    fn matching(&self, ids: &[u64]) -> Vec<u64> {
        let mut entities: Vec<u64> = self
            .values
            .keys()
            .map(|(entity, _)| *entity)
            .filter(|entity| ids.iter().all(|id| self.values.contains_key(&(*entity, *id))))
            .collect();
        entities.sort();
        entities.dedup();
        entities
    }

    fn get<T: Copy + 'static>(&self, entity: u64, id: u64) -> T {
        *self.values[&(entity, id)].downcast_ref::<T>().unwrap()
    }
}

// Covers safe world creation and drop through the public facade.
#[test]
fn creates_and_drops_world() {
    let mut flecs = FlecsStandIn::new();
    let world = World::new();
    let entity = world.entity(flecs.new_id()).unwrap();
    assert_ne!(entity.id(), 0);

    let default_world = World::default();
    let default_entity = default_world.entity(flecs.new_id()).unwrap();
    assert_ne!(default_entity.id(), 0);
}

// Covers bulk creation with typed default component data.
#[test]
fn bulk_create_entities_with_two_components() {
    let mut flecs = FlecsStandIn::new();
    let mut world = World::new();
    let (plan, positions, velocities) =
        flecs.resolve(&mut world, |w| w.bulk_with2::<Position, Velocity>(4));
    let out = flecs.bulk_init2(&plan, &positions, &velocities);
    let entities = plan.finish(true, out).unwrap();
    assert_eq!(entities.len(), 4);

    let init = flecs.resolve(&mut world, |w| w.query::<(&Position, &Velocity)>().build(w));
    let query = init.finish(true).unwrap();
    let ids: Vec<u64> = query.terms().iter().map(|term| term.id).collect();
    let rows = flecs.matching(&ids);
    let mut cursor = query.each(rows.len() as i32).unwrap();
    let mut count = 0;
    for entity in rows {
        let guards = cursor.next_row(&mut world, entity, query.terms()).unwrap();
        let position: Position = flecs.get(entity, ids[0]);
        let velocity: Velocity = flecs.get(entity, ids[1]);
        assert_eq!(position.x, 0.0);
        assert_eq!(position.y, 0.0);
        assert_eq!(velocity.x, 0.0);
        assert_eq!(velocity.y, 0.0);
        count += 1;
        let (_modified, released) = guards.release(&mut world);
        released.unwrap();
    }

    assert_eq!(count, 4);
}

// Covers releasing the boxed callback context when the owning world is finalized.
#[test]
fn system_each_drops_callback_context_with_world() {
    let drops = Arc::new(AtomicUsize::new(0));

    {
        let mut flecs = FlecsStandIn::new();
        let mut world = World::new();
        let counter = DropCounter {
            drops: Arc::clone(&drops),
        };
        let init = flecs.resolve(&mut world, |w| w.system::<(&Position,)>().each(w));
        let callback = move |_: (&Position,)| {
            let _counter = &counter;
        };
        let id = flecs.callback_init(Box::new(callback));
        let system = init.finish(id).unwrap();
        assert_eq!(system.id(), id);

        assert_eq!(drops.load(Ordering::SeqCst), 0);
    }

    assert_eq!(drops.load(Ordering::SeqCst), 1);
}
