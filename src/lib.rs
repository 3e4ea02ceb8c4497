//! Escape-time iteration of holomorphic maps over a rasterized rectangle of
//! the complex plane.
//!
//! The library is generic in the number type `Z` of the orbit values: the
//! map `(z, c) -> z'`, the escape test of a value and the mapping from a
//! pixel to its point of the plane are supplied by the caller as closures.
//! What is proved here is the engine around them: how a state is seeded, how
//! one generation advances every pixel from the previous snapshot, the
//! escape-freeze rule, and that the row-parallel evaluation agrees with the
//! pixel-wise definition.
pub mod config;
pub mod dynamic;
pub mod function;
mod parallel;
pub mod pattern;
pub mod plane;
pub mod simulation;
pub mod theorems;
