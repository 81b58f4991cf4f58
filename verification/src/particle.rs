//! The particle itself and its per-step physics update: optional gravity,
//! air friction, motion, and optional edge bounce with clamping.

use vstd::prelude::*;
use crate::fixedmath::{
    COORD_LIMIT, clamp_val, damp, clamp_i64, damp_i64, lemma_damp_bounds,
};
use crate::config::SimConfig;

verus! {

/// One point-mass: position and velocity in milli-pixel units, and a
/// packed 24-bit RGB display color.
#[derive(Clone, Copy, PartialEq, Eq, Structural)]
pub struct Particle {
    pub x: i64,
    pub y: i64,
    pub vx: i64,
    pub vy: i64,
    pub color: u32,
}

impl Particle {
    /// Every component stays within the saturation bound.
    pub open spec fn wf(self) -> bool {
        &&& -COORD_LIMIT <= self.x <= COORD_LIMIT
        &&& -COORD_LIMIT <= self.y <= COORD_LIMIT
        &&& -COORD_LIMIT <= self.vx <= COORD_LIMIT
        &&& -COORD_LIMIT <= self.vy <= COORD_LIMIT
    }
}

/// One physics step. In order: gravity is added to the vertical velocity
/// (when on), both velocity components are damped by the friction factor,
/// the velocity is added to the position, and (when bounce is on) a
/// velocity component whose coordinate sits at or past a window edge is
/// negated and the position is clamped into the window. Every add
/// saturates at `COORD_LIMIT`.
pub open spec fn stepped(p: Particle, c: SimConfig, gravity_on: bool, bounce_on: bool) -> Particle {
    let lim = COORD_LIMIT as int;
    let vy0 = if gravity_on {
        clamp_val(p.vy + c.gravity, -lim, lim)
    } else {
        p.vy as int
    };
    let vx1 = damp(p.vx as int, c.friction as int);
    let vy1 = damp(vy0, c.friction as int);
    let x1 = clamp_val(p.x + vx1, -lim, lim);
    let y1 = clamp_val(p.y + vy1, -lim, lim);
    if bounce_on {
        let w = c.width_units();
        let h = c.height_units();
        let vx2 = if x1 <= 0 || x1 >= w {
            -vx1
        } else {
            vx1
        };
        let vy2 = if y1 <= 0 || y1 >= h {
            -vy1
        } else {
            vy1
        };
        Particle {
            x: clamp_val(x1, 0, w) as i64,
            y: clamp_val(y1, 0, h) as i64,
            vx: vx2 as i64,
            vy: vy2 as i64,
            color: p.color,
        }
    } else {
        Particle { x: x1 as i64, y: y1 as i64, vx: vx1 as i64, vy: vy1 as i64, color: p.color }
    }
}

impl Particle {
    /// Advance this particle by one physics step.
    pub fn update(&mut self, c: &SimConfig, gravity_enabled: bool, bounce_enabled: bool)
        requires
            old(self).wf(),
            c.wf(),
        ensures
            *final(self) == stepped(*old(self), *c, gravity_enabled, bounce_enabled),
            final(self).wf(),
    {
        if gravity_enabled {
            self.vy = clamp_i64(self.vy + c.gravity, -COORD_LIMIT, COORD_LIMIT);
        }
        self.vx = damp_i64(self.vx, c.friction);
        self.vy = damp_i64(self.vy, c.friction);
        self.x = clamp_i64(self.x + self.vx, -COORD_LIMIT, COORD_LIMIT);
        self.y = clamp_i64(self.y + self.vy, -COORD_LIMIT, COORD_LIMIT);
        if bounce_enabled {
            let w = c.width_units_i64();
            let h = c.height_units_i64();
            if self.x <= 0 || self.x >= w {
                self.vx = -self.vx;
            }
            if self.y <= 0 || self.y >= h {
                self.vy = -self.vy;
            }
            self.x = clamp_i64(self.x, 0, w);
            self.y = clamp_i64(self.y, 0, h);
        }
    }
}

/// With gravity and bounce both off, one step changes each velocity
/// component to exactly its damped value, and moves the position by it.
pub proof fn lemma_step_friction_only(p: Particle, c: SimConfig)
    requires
        p.wf(),
        c.wf(),
    ensures
        stepped(p, c, false, false).vx == damp(p.vx as int, c.friction as int),
        stepped(p, c, false, false).vy == damp(p.vy as int, c.friction as int),
        stepped(p, c, false, false).x == clamp_val(
            p.x + damp(p.vx as int, c.friction as int),
            -COORD_LIMIT as int,
            COORD_LIMIT as int,
        ),
        stepped(p, c, false, false).y == clamp_val(
            p.y + damp(p.vy as int, c.friction as int),
            -COORD_LIMIT as int,
            COORD_LIMIT as int,
        ),
        stepped(p, c, false, false).color == p.color,
{
    lemma_damp_bounds(p.vx as int, c.friction as int);
    lemma_damp_bounds(p.vy as int, c.friction as int);
}

/// With bounce on, the post-step position always lies inside the window,
/// whether or not the pre-step position plus velocity would cross an edge.
pub proof fn lemma_step_bounce_in_bounds(p: Particle, c: SimConfig, gravity_on: bool)
    requires
        p.wf(),
        c.wf(),
    ensures
        0 <= stepped(p, c, gravity_on, true).x <= c.width_units(),
        0 <= stepped(p, c, gravity_on, true).y <= c.height_units(),
{
    let lim = COORD_LIMIT as int;
    let vy0 = if gravity_on {
        clamp_val(p.vy + c.gravity, -lim, lim)
    } else {
        p.vy as int
    };
    lemma_damp_bounds(p.vx as int, c.friction as int);
    lemma_damp_bounds(vy0, c.friction as int);
}

} // verus!
