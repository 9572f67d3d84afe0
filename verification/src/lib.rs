//! Core of a small 2-D heat-diffusion visualization.
//!
//! A scalar field on a fixed-size grid evolves under a discrete
//! four-neighbor averaging rule with clamp-to-edge boundaries, and is
//! rendered as an 8-bit grayscale RGBA buffer.  This crate holds the
//! verified parts of that core: the grid/coordinate model, the disk-shaped
//! initial condition, the per-step neighbor gathering (which fixes the
//! read-before-write discipline of the update), and the RGBA expansion.
//! The windowing shell and the floating-point combine of the gathered
//! neighbor values live outside the library.

pub mod grid;
pub mod render;
pub mod stepper;
