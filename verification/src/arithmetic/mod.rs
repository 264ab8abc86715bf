//! Field elements and curve points.

pub mod field;
pub mod number_theory;
pub mod point;
