//! A basic entity component system: the bookkeeping of entities, component
//! types, signatures and the entity sets that each system acts on.
pub mod signature;
pub mod entity;

pub use signature::{Signature, MAX_COMPONENTS};
pub use entity::{EntityManager, Entity, MAX_ENTITIES};
pub mod column;

pub use column::Column;
pub mod component;

pub use component::ComponentManager;
pub mod system;

pub use system::SystemManager;
pub mod world;

pub use world::World;
pub mod manager;

pub use manager::WorldManager;
