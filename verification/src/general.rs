//! Values shared by every part of the kernel.

pub mod color;
pub mod direction;
pub mod value;
