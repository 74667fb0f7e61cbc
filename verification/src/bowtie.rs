//! Entities, the components attached to them, and the registry that owns
//! both and drives them once per tick.

pub mod component;
pub mod controller;
pub mod entity;
pub mod registry;
pub mod store;
