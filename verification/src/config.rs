//! Simulation configuration: window size and the physics constants,
//! passed explicitly instead of living as ambient globals.

use vstd::prelude::*;
use crate::fixedmath::{SCALE, COORD_LIMIT};

verus! {

/// Upper bound accepted for either window dimension, in pixels.
pub const MAX_DIM: u32 = 100_000;

/// Upper bound accepted for the particle render size, in pixels.
pub const MAX_PARTICLE_SIZE: usize = 100_000;

/// Window size and physics constants for one simulation run.
///
/// `gravity` is added to the vertical velocity each step while gravity is
/// on; `friction` is the per-mille fraction of each velocity component
/// kept per step. Both are in milli-pixel units.
#[derive(Clone, Copy, PartialEq, Eq, Structural)]
pub struct SimConfig {
    /// Window width in pixels.
    pub width: u32,
    /// Window height in pixels.
    pub height: u32,
    /// Downward acceleration per step, in milli-pixels.
    pub gravity: i64,
    /// Per-mille of velocity kept per step (air friction), `0..=1000`.
    pub friction: i64,
}

impl SimConfig {
    /// The configuration is usable by the simulation.
    pub open spec fn wf(self) -> bool {
        &&& 1 <= self.width <= MAX_DIM
        &&& 1 <= self.height <= MAX_DIM
        &&& 0 <= self.gravity <= SCALE as int * 1000
        &&& 0 <= self.friction <= SCALE
    }

    /// Window width in milli-pixel units.
    pub open spec fn width_units(self) -> int {
        self.width as int * SCALE as int
    }

    /// Window height in milli-pixel units.
    pub open spec fn height_units(self) -> int {
        self.height as int * SCALE as int
    }

    /// The standard setup: a 1280 x 720 window, gravity 0.2 pixels per
    /// step, friction 0.99 per step.
    pub fn standard() -> (c: SimConfig)
        ensures
            c.wf(),
            c.width == 1280,
            c.height == 720,
            c.gravity == 200,
            c.friction == 990,
    {
        SimConfig { width: 1280, height: 720, gravity: 200, friction: 990 }
    }

    /// Window width in milli-pixel units, as a machine integer.
    pub fn width_units_i64(&self) -> (w: i64)
        requires
            self.wf(),
        ensures
            w == self.width_units(),
            0 < w <= COORD_LIMIT,
    {
        self.width as i64 * SCALE
    }

    /// Window height in milli-pixel units, as a machine integer.
    pub fn height_units_i64(&self) -> (h: i64)
        requires
            self.wf(),
        ensures
            h == self.height_units(),
            0 < h <= COORD_LIMIT,
    {
        self.height as i64 * SCALE
    }
}

} // verus!
