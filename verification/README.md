# soul ECS, verified core

An entity component system on top of the flecs C library. flecs stores the
entities and components and runs queries, systems and observers; this crate holds
the rules around it, verified with Verus:

- `src/borrow.rs`: the runtime borrow table of component access (shared reads nest,
  writes are exclusive), the borrow guards, and the laws of the table.
- `src/registry.rs`: the per-world table from Rust component types to flecs ids; a
  type is registered once.
- `src/world.rs`: a world's state (registry, borrows, the failure a callback kept),
  component lookups and registration, structural checks, bulk creation plans, the
  raising of kept failures after `progress` and `defer_end`.
- `src/param.rs`: query terms, their validation, the borrows of one row, and the row
  cursor shared by queries, systems and observers.
- `src/query.rs`, `src/system.rs`, `src/observer.rs`, `src/entity.rs`: the typed
  builders and entity operations, each a check or plan that says what to ask flecs.
- `src/sys.rs`: the names of the flecs C interface.

Operations that need a component type flecs has not seen yet answer
`Step::NeedsComponent`; the caller registers the type with flecs, records the answer
with `World::register_component`, and asks again.

`app/` is the flecs-backed facade: it declares the C interface, makes every flecs
call, and drives the verified checks and plans (iteration loops, callback
trampolines, the world's lifetime). flecs owns each callback's context from its
registration and frees it when the system or observer is deleted.
