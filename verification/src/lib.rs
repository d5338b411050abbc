//! A falling-sand style voxel world: a fixed-size 3D grid of material cells
//! updated once per simulation tick according to per-material physical rules
//! (gravity, flow, density-based displacement, gas diffusion) and pairwise
//! chemical reactions.
//!
//! The grid lives in [`model`], the material registry in [`material`], the
//! dirty-set consumed by a renderer in [`tracker`], and the tick driver in
//! [`simulator`].

pub mod material;
pub mod model;
pub mod rng;
pub mod simulator;
pub mod tracker;
