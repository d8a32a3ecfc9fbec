//! The integer side of a Monte Carlo path tracer for scenes of spheres: the
//! nearest-hit choice over a scene's objects, the bounce-budget decisions of
//! the light-transport estimator, and the row-major output image.
pub mod common;
pub mod hittable;
pub mod pixels;
pub mod trace;
