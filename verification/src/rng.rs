//! Randomized particle creation: a thin trusted wrapper over the rand
//! crate, and the verified assembly of a particle from the drawn values.

use vstd::prelude::*;
use crate::particle::Particle;
use crate::config::SimConfig;

verus! {

/// Magnitude bound (exclusive) on each velocity component of a newly
/// spawned particle: two pixels per step, in milli-pixels.
pub const SPAWN_SPEED: i64 = 2000;

/// Smallest color handed to a new particle, so none is near-black.
pub const MIN_COLOR: u32 = 0x0000FF;

/// Relies on rand::random_range: returns a uniform sample of `lo..hi`
/// from the thread-local generator; it panics only on an empty range,
/// which the precondition excludes. Nothing more is assumed of the
/// sample than its bounds.
#[verifier::external_body]
fn random_i64_in(lo: i64, hi: i64) -> (r: i64)
    requires
        lo < hi,
    ensures
        lo <= r < hi,
{
    rand::random_range(lo..hi)
}

/// A particle at a random position inside the window, with a small
/// random velocity and a random non-dark color.
pub fn random_particle(c: &SimConfig) -> (p: Particle)
    requires
        c.wf(),
    ensures
        p.wf(),
        0 <= p.x < c.width_units(),
        0 <= p.y < c.height_units(),
        -SPAWN_SPEED <= p.vx < SPAWN_SPEED,
        -SPAWN_SPEED <= p.vy < SPAWN_SPEED,
        MIN_COLOR <= p.color <= 0xFFFFFF,
{
    let w: i64 = c.width_units_i64();
    let h: i64 = c.height_units_i64();
    let x: i64 = random_i64_in(0, w);
    let y: i64 = random_i64_in(0, h);
    let vx: i64 = random_i64_in(-SPAWN_SPEED, SPAWN_SPEED);
    let vy: i64 = random_i64_in(-SPAWN_SPEED, SPAWN_SPEED);
    let color: u32 = random_i64_in(MIN_COLOR as i64, 0x1000000) as u32;
    Particle { x, y, vx, vy, color }
}

} // verus!
