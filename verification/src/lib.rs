#![allow(non_camel_case_types)]

pub mod borrow;
pub mod entity;
pub mod error;
pub mod observer;
pub mod param;
pub mod query;
pub mod registry;
pub mod sys;
pub mod system;
pub mod world;

pub use entity::Entity;
pub use observer::{EntityObserver, Observer, ObserverBuilder, ObserverEventBuilder};
pub use param::QueryParam;
pub use query::{Query, QueryBuilder};
pub use system::{System, SystemBuilder};
pub use world::World;
