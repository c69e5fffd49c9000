//! Verified core of a 2D flow-field particle simulation.
//!
//! A vector field defined over a grid steers a population of independently
//! moving particles. Every tick the field is resampled from a closed-form
//! analytic function of a growing phase scalar, each particle reads the cell
//! under it, applies the cell's vector as a magnitude-clamped force, re-clamps
//! its own speed, advances, and wraps toroidally into the simulation bounds.
//!
//! All coordinates, speeds and angles are fixed-point values: an `i64` counts
//! millionths of a world unit (see [`fixed::ONE`]). Every operation has an
//! exact integer contract, so the whole per-tick state transition is a pure
//! function of the previous state, proved as such.

pub mod field;
pub mod fixed;
pub mod grid;
pub mod laws;
pub mod particle;
pub mod real_vector;
pub mod trig;
pub mod world;
