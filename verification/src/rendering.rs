//! What the kernel hands to a renderer.

pub mod drawer;
