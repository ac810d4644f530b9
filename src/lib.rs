//! Topology, double-buffered stepping and frame sequencing for a mass-spring
//! cloth that falls onto a sphere.
//!
//! Everything here is integer logic: vertex offsets are exact rationals,
//! spring rest lengths are squared multiples of the grid spacing, and the
//! per-lane physics is supplied by the caller as a closure.

pub mod topology;
pub mod simulation;
pub mod frame;
