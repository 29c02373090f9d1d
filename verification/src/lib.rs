//! Game-engine building blocks: an entity component system, an undoable command
//! stack, observers, event routing, an asset cache and a seeded pseudorandom
//! number generator.
pub mod assets;
pub mod command;
pub mod ecs;
pub mod ecs_thread;
pub mod event;
pub mod observe;
pub mod platform_compat;
pub mod ringo;
