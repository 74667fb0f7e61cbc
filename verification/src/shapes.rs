//! Geometry of what an entity occupies.

pub mod rectangle;
