//! A small real-time simulation kernel for a 2D game engine.
//!
//! The kernel tracks a set of live entities on an integer grid, runs the
//! behaviour units attached to them once per tick, and resolves overlap
//! between entities into a compass direction that movement consults.
//! Lengths and positions are whole numbers of grid units; a renderer scales
//! them to its own coordinates.

pub mod bowtie;
pub mod components;
pub mod general;
pub mod gl_utils;
pub mod math;
pub mod rendering;
pub mod shapes;
pub mod window;
