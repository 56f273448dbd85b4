//! Collision prediction and elastic response for two equal-radius hard disks
//! moving on straight lines, computed exactly on an integer lattice.
//!
//! Positions and velocities are lattice vectors with `i16` components and the
//! shared radius is a `u16`. The contact time and the post-collision state are
//! in general irrational, so they are returned exactly as quadratic surds
//! `(rational + coefficient * sqrt(radicand)) / denom` (see `QuadSurd`).
use vstd::prelude::*;

pub mod model;
pub mod kernel;
pub mod laws;
pub mod physics;
