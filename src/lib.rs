//! Procedural brush engines for a 2D painting surface.
//!
//! Coordinates, lengths and fractions are fixed-point integers: one point of
//! length, or the fraction 1.0, is `geometry::SCALE` units.

pub mod geometry;
pub mod color;
pub mod brushes;
pub mod history;
pub mod painter;
pub mod state;
