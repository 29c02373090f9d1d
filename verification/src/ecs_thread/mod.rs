//! The entity component system whose systems each run in a thread of their
//! own: the bookkeeping of entities, component types and system entity sets.
pub mod component;
pub mod entity;



pub use crate::ecs::{Signature, SystemManager, Entity, MAX_COMPONENTS, MAX_ENTITIES};
pub use component::ComponentManager;
pub use entity::EntityManager;


pub mod world;
pub use world::World;
pub mod manager;
pub use manager::WorldManager;
