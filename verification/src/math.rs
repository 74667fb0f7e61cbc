//! Arithmetic on whole numbers: matrices and factorials.

pub mod matrix;
pub mod trig;
