//! What a window is asked to be.

pub mod window;
