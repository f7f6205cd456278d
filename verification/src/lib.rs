//! A verified engine for Conway's Game of Life on a fixed rectangular grid
//! with clamped (non-wrapping) borders.

pub mod laws;
pub mod universe;
