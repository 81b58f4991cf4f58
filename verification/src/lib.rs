//! A verified 2D particle simulation core.
//!
//! Particles move under optional gravity and air friction, optionally bounce
//! off the window edges, swap velocities on close pairwise approach, are
//! nudged toward a target point while attraction is held, and are rasterized
//! as filled squares into a packed-RGB pixel buffer.
//!
//! All coordinates and velocities are fixed-point integers in milli-pixel
//! units, so every arithmetic step has an exact contract.

pub mod fixedmath;
pub mod config;
pub mod particle;
pub mod attract;
pub mod collide;
pub mod raster;
pub mod rng;
pub mod world;
