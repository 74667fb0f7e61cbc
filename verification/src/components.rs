//! The components that come with the kernel.

pub mod collide;
pub mod event;
pub mod gravity;
pub mod keyboard_move;
pub mod rand_move;
