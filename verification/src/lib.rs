//! Diffusion-limited aggregation on a rectangular grid.
//!
//! Particles wander over the grid one cell at a time and freeze as soon as
//! they touch a cell that is already occupied. The crate holds the grid and
//! its seed patterns, the stepping engine, the byte form in which a grid is
//! stored, and the colour tables a renderer paints it with.

pub mod codec;
pub mod colors;
pub mod config;
pub mod dla;
pub mod grid;
pub mod math;
pub mod random;
