//! The simulation state and the frame driver: mode toggles, bulk particle
//! resize, and the per-frame pipeline of collision resolution, attraction,
//! physics, and rasterization.

use vstd::prelude::*;
use crate::fixedmath::{SCALE, COORD_LIMIT, clamp_val, clamp_i64};
use crate::config::{SimConfig, MAX_PARTICLE_SIZE};
use crate::particle::{Particle, stepped};
use crate::attract::{attracted, apply_attraction};
use crate::collide::{resolved, resolve_all};
use crate::raster::{FrameBuffer, cell, raster_color, lemma_cell_index_bound};
use crate::rng::{random_particle, SPAWN_SPEED, MIN_COLOR};

verus! {

/// Number of particles added or removed by one bulk resize event.
pub const BULK_BATCH: usize = 1000;

/// Particle render size at startup, in pixels.
pub const INITIAL_PARTICLE_SIZE: usize = 10;

/// Every particle advanced by one physics step.
pub open spec fn stepped_seq(s: Seq<Particle>, c: SimConfig, g: bool, b: bool) -> Seq<Particle> {
    s.map_values(|p: Particle| stepped(p, c, g, b))
}

/// Every particle nudged toward the target.
pub open spec fn attracted_seq(s: Seq<Particle>, tx: int, ty: int) -> Seq<Particle> {
    s.map_values(|p: Particle| attracted(p, tx, ty))
}

/// The first `len - min(n, len)` particles: a bulk removal of up to `n`.
pub open spec fn bulk_removed(s: Seq<Particle>, n: int) -> Seq<Particle> {
    let drop = if n <= s.len() {
        n
    } else {
        s.len() as int
    };
    s.subrange(0, s.len() - drop)
}

/// The render size after one frame's grow/shrink events: grow adds one
/// (capped), then shrink takes one away (floored at one).
pub open spec fn adjusted_size(s: int, grow: bool, shrink: bool) -> int {
    let s1 = if grow && s < MAX_PARTICLE_SIZE {
        s + 1
    } else {
        s
    };
    if shrink && s1 > 1 {
        s1 - 1
    } else {
        s1
    }
}

/// The particle sequence after one frame's simulation passes, starting
/// from `base`: collisions resolved at threshold `size` pixels, then the
/// optional attraction nudge, then one physics step each.
pub open spec fn frame_particles(
    base: Seq<Particle>,
    c: SimConfig,
    g: bool,
    b: bool,
    size: int,
    attract: bool,
    tx: int,
    ty: int,
) -> Seq<Particle> {
    let r = resolved(base, size * SCALE);
    let a = if attract {
        attracted_seq(r, tx, ty)
    } else {
        r
    };
    stepped_seq(a, c, g, b)
}

/// One frame's digested input: edge-triggered toggles and resize events,
/// and the pointer state. Target coordinates are in milli-pixels and are
/// clamped into the window by the frame driver.
pub struct FrameInput {
    pub toggle_gravity: bool,
    pub toggle_bounce: bool,
    pub spawn: bool,
    pub despawn: bool,
    pub grow: bool,
    pub shrink: bool,
    pub attract: bool,
    pub target_x: i64,
    pub target_y: i64,
}

/// The whole simulation state for one run.
pub struct World {
    pub config: SimConfig,
    pub particles: Vec<Particle>,
    pub gravity_enabled: bool,
    pub bounce_enabled: bool,
    pub particle_size: usize,
}

impl World {
    /// The configuration is usable, every particle is in range, and the
    /// render size is positive and bounded.
    pub open spec fn wf(self) -> bool {
        &&& self.config.wf()
        &&& forall|k: int| 0 <= k < self.particles@.len() ==> (#[trigger] self.particles@[k]).wf()
        &&& 1 <= self.particle_size <= MAX_PARTICLE_SIZE
    }

    /// A fresh simulation: no particles, both modes off, the starting
    /// render size.
    pub fn new(config: SimConfig) -> (w: World)
        requires
            config.wf(),
        ensures
            w.wf(),
            w.config == config,
            w.particles@.len() == 0,
            !w.gravity_enabled,
            !w.bounce_enabled,
            w.particle_size == INITIAL_PARTICLE_SIZE,
    {
        World {
            config,
            particles: Vec::new(),
            gravity_enabled: false,
            bounce_enabled: false,
            particle_size: INITIAL_PARTICLE_SIZE,
        }
    }

    /// Flip the gravity mode; nothing else changes.
    pub fn toggle_gravity(&mut self)
        ensures
            final(self).gravity_enabled == !old(self).gravity_enabled,
            final(self).bounce_enabled == old(self).bounce_enabled,
            final(self).particles == old(self).particles,
            final(self).config == old(self).config,
            final(self).particle_size == old(self).particle_size,
    {
        self.gravity_enabled = !self.gravity_enabled;
    }

    /// Flip the edge-bounce mode; nothing else changes.
    pub fn toggle_bounce(&mut self)
        ensures
            final(self).bounce_enabled == !old(self).bounce_enabled,
            final(self).gravity_enabled == old(self).gravity_enabled,
            final(self).particles == old(self).particles,
            final(self).config == old(self).config,
            final(self).particle_size == old(self).particle_size,
    {
        self.bounce_enabled = !self.bounce_enabled;
    }

    /// Add `n` randomized particles at the end of the collection.
    pub fn spawn_batch(&mut self, n: usize)
        requires
            old(self).wf(),
            old(self).particles@.len() + n <= usize::MAX,
        ensures
            final(self).wf(),
            final(self).config == old(self).config,
            final(self).gravity_enabled == old(self).gravity_enabled,
            final(self).bounce_enabled == old(self).bounce_enabled,
            final(self).particle_size == old(self).particle_size,
            final(self).particles@.len() == old(self).particles@.len() + n,
            final(self).particles@.subrange(0, old(self).particles@.len() as int)
                == old(self).particles@,
            forall|k: int| old(self).particles@.len() <= k < final(self).particles@.len() ==> {
                &&& (#[trigger] final(self).particles@[k]).wf()
                &&& 0 <= final(self).particles@[k].x < old(self).config.width_units()
                &&& 0 <= final(self).particles@[k].y < old(self).config.height_units()
                &&& -SPAWN_SPEED <= final(self).particles@[k].vx < SPAWN_SPEED
                &&& -SPAWN_SPEED <= final(self).particles@[k].vy < SPAWN_SPEED
                &&& MIN_COLOR <= final(self).particles@[k].color <= 0xFFFFFF
            },
    {
        let ghost base = self.particles@;
        let mut k: usize = 0;
        while k < n
            invariant
                k <= n,
                self.config == old(self).config,
                self.gravity_enabled == old(self).gravity_enabled,
                self.bounce_enabled == old(self).bounce_enabled,
                self.particle_size == old(self).particle_size,
                self.wf(),
                base.len() + n <= usize::MAX,
                self.particles@.len() == base.len() + k,
                self.particles@.subrange(0, base.len() as int) == base,
                forall|m: int| base.len() <= m < self.particles@.len() ==> {
                    &&& (#[trigger] self.particles@[m]).wf()
                    &&& 0 <= self.particles@[m].x < self.config.width_units()
                    &&& 0 <= self.particles@[m].y < self.config.height_units()
                    &&& -SPAWN_SPEED <= self.particles@[m].vx < SPAWN_SPEED
                    &&& -SPAWN_SPEED <= self.particles@[m].vy < SPAWN_SPEED
                    &&& MIN_COLOR <= self.particles@[m].color <= 0xFFFFFF
                },
            decreases n - k,
        {
            let p: Particle = random_particle(&self.config);
            let ghost prev = self.particles@;
            self.particles.push(p);
            proof {
                assert(self.particles@.subrange(0, base.len() as int)
                    =~= prev.subrange(0, base.len() as int));
            }
            k += 1;
        }
    }

    /// Remove the last `min(n, len)` particles; the length never goes
    /// negative.
    pub fn despawn_batch(&mut self, n: usize)
        requires
            old(self).wf(),
        ensures
            final(self).wf(),
            final(self).config == old(self).config,
            final(self).gravity_enabled == old(self).gravity_enabled,
            final(self).bounce_enabled == old(self).bounce_enabled,
            final(self).particle_size == old(self).particle_size,
            final(self).particles@ == bulk_removed(old(self).particles@, n as int),
            final(self).particles@.len() == old(self).particles@.len()
                - (if n <= old(self).particles@.len() {
                    n as int
                } else {
                    old(self).particles@.len() as int
                }),
    {
        let len: usize = self.particles.len();
        let keep: usize = if n <= len {
            len - n
        } else {
            0
        };
        self.particles.truncate(keep);
    }

    /// Grow the render size by one pixel, up to the cap.
    pub fn grow_particle_size(&mut self)
        requires
            old(self).wf(),
        ensures
            final(self).wf(),
            final(self).particle_size == (if old(self).particle_size < MAX_PARTICLE_SIZE {
                old(self).particle_size + 1
            } else {
                old(self).particle_size as int
            }),
            final(self).config == old(self).config,
            final(self).gravity_enabled == old(self).gravity_enabled,
            final(self).bounce_enabled == old(self).bounce_enabled,
            final(self).particles == old(self).particles,
    {
        if self.particle_size < MAX_PARTICLE_SIZE {
            self.particle_size = self.particle_size + 1;
        }
    }

    /// Shrink the render size by one pixel, never below one.
    pub fn shrink_particle_size(&mut self)
        requires
            old(self).wf(),
        ensures
            final(self).wf(),
            final(self).particle_size == (if old(self).particle_size > 1 {
                old(self).particle_size - 1
            } else {
                old(self).particle_size as int
            }),
            final(self).config == old(self).config,
            final(self).gravity_enabled == old(self).gravity_enabled,
            final(self).bounce_enabled == old(self).bounce_enabled,
            final(self).particles == old(self).particles,
    {
        if self.particle_size > 1 {
            self.particle_size = self.particle_size - 1;
        }
    }

    /// Resolve collisions among all particles at the current render size.
    pub fn resolve_collisions(&mut self)
        requires
            old(self).wf(),
        ensures
            final(self).wf(),
            final(self).config == old(self).config,
            final(self).gravity_enabled == old(self).gravity_enabled,
            final(self).bounce_enabled == old(self).bounce_enabled,
            final(self).particle_size == old(self).particle_size,
            final(self).particles@ == resolved(old(self).particles@,
                old(self).particle_size * SCALE),
    {
        let t: i64 = (self.particle_size as i64) * SCALE;
        resolve_all(&mut self.particles, t);
    }

    /// Nudge every particle's velocity toward the target point.
    pub fn attract_all(&mut self, tx: i64, ty: i64)
        requires
            old(self).wf(),
            -COORD_LIMIT <= tx <= COORD_LIMIT,
            -COORD_LIMIT <= ty <= COORD_LIMIT,
        ensures
            final(self).wf(),
            final(self).config == old(self).config,
            final(self).gravity_enabled == old(self).gravity_enabled,
            final(self).bounce_enabled == old(self).bounce_enabled,
            final(self).particle_size == old(self).particle_size,
            final(self).particles@ == attracted_seq(old(self).particles@, tx as int, ty as int),
    {
        let ghost base = self.particles@;
        let n: usize = self.particles.len();
        let mut k: usize = 0;
        while k < n
            invariant
                k <= n,
                n == self.particles@.len(),
                -COORD_LIMIT <= tx <= COORD_LIMIT,
                -COORD_LIMIT <= ty <= COORD_LIMIT,
                self.config == old(self).config,
                self.gravity_enabled == old(self).gravity_enabled,
                self.bounce_enabled == old(self).bounce_enabled,
                self.particle_size == old(self).particle_size,
                self.wf(),
                base.len() == n,
                forall|m: int| 0 <= m < base.len() ==> (#[trigger] base[m]).wf(),
                forall|m: int| 0 <= m < k ==> #[trigger] self.particles@[m]
                    == attracted(base[m], tx as int, ty as int),
                forall|m: int| k <= m < n ==> #[trigger] self.particles@[m] == base[m],
            decreases n - k,
        {
            let mut p: Particle = self.particles[k];
            apply_attraction(&mut p, tx, ty);
            self.particles[k] = p;
            k += 1;
        }
        proof {
            assert(self.particles@ =~= attracted_seq(base, tx as int, ty as int));
        }
    }

    /// Advance every particle by one physics step under the current
    /// modes.
    pub fn step_physics(&mut self)
        requires
            old(self).wf(),
        ensures
            final(self).wf(),
            final(self).config == old(self).config,
            final(self).gravity_enabled == old(self).gravity_enabled,
            final(self).bounce_enabled == old(self).bounce_enabled,
            final(self).particle_size == old(self).particle_size,
            final(self).particles@ == stepped_seq(old(self).particles@, old(self).config,
                old(self).gravity_enabled, old(self).bounce_enabled),
    {
        let ghost base = self.particles@;
        let n: usize = self.particles.len();
        let mut k: usize = 0;
        while k < n
            invariant
                k <= n,
                n == self.particles@.len(),
                self.config == old(self).config,
                self.gravity_enabled == old(self).gravity_enabled,
                self.bounce_enabled == old(self).bounce_enabled,
                self.particle_size == old(self).particle_size,
                self.wf(),
                base.len() == n,
                forall|m: int| 0 <= m < base.len() ==> (#[trigger] base[m]).wf(),
                forall|m: int| 0 <= m < k ==> #[trigger] self.particles@[m]
                    == stepped(base[m], old(self).config, old(self).gravity_enabled,
                        old(self).bounce_enabled),
                forall|m: int| k <= m < n ==> #[trigger] self.particles@[m] == base[m],
            decreases n - k,
        {
            let mut p: Particle = self.particles[k];
            p.update(&self.config, self.gravity_enabled, self.bounce_enabled);
            self.particles[k] = p;
            k += 1;
        }
        proof {
            assert(self.particles@ =~= stepped_seq(base, old(self).config,
                old(self).gravity_enabled, old(self).bounce_enabled));
        }
    }

    /// Run one frame: apply the input's toggles and bulk resize events,
    /// then resolve collisions, apply attraction while held, advance the
    /// physics, and rasterize every particle into `fb` over a cleared
    /// black background.
    ///
    /// The spawned batch is random, so the particle outcome is stated
    /// for some well-formed batch of the owed length.
    #[verifier::rlimit(100)]
    pub fn frame(&mut self, input: &FrameInput, fb: &mut FrameBuffer)
        requires
            old(self).wf(),
            old(fb).wf(),
            old(fb).width == old(self).config.width,
            old(fb).height == old(self).config.height,
        ensures
            final(self).wf(),
            final(self).config == old(self).config,
            final(self).gravity_enabled == (old(self).gravity_enabled != input.toggle_gravity),
            final(self).bounce_enabled == (old(self).bounce_enabled != input.toggle_bounce),
            final(self).particle_size == adjusted_size(old(self).particle_size as int,
                input.grow, input.shrink),
            exists|spawned: Seq<Particle>| {
                &&& spawned.len() == spawn_count(old(self).particles@.len() as int, input.spawn)
                &&& (forall|k: int| 0 <= k < spawned.len() ==> (#[trigger] spawned[k]).wf())
                &&& final(self).particles@ == frame_particles(
                    bulk_removed(old(self).particles@ + spawned,
                        if input.despawn { BULK_BATCH as int } else { 0 }),
                    old(self).config,
                    old(self).gravity_enabled != input.toggle_gravity,
                    old(self).bounce_enabled != input.toggle_bounce,
                    adjusted_size(old(self).particle_size as int, input.grow, input.shrink),
                    input.attract,
                    clamp_val(input.target_x as int, 0, old(self).config.width_units()),
                    clamp_val(input.target_y as int, 0, old(self).config.height_units()),
                )
            },
            spawn_count(old(self).particles@.len() as int, input.spawn) == 0
                ==> final(self).particles@ == frame_particles(
                    bulk_removed(old(self).particles@,
                        if input.despawn { BULK_BATCH as int } else { 0 }),
                    old(self).config,
                    old(self).gravity_enabled != input.toggle_gravity,
                    old(self).bounce_enabled != input.toggle_bounce,
                    adjusted_size(old(self).particle_size as int, input.grow, input.shrink),
                    input.attract,
                    clamp_val(input.target_x as int, 0, old(self).config.width_units()),
                    clamp_val(input.target_y as int, 0, old(self).config.height_units()),
                ),
            final(fb).wf(),
            final(fb).width == old(fb).width,
            final(fb).height == old(fb).height,
            forall|x: int, y: int|
                0 <= x < old(fb).width && 0 <= y < old(fb).height ==> #[trigger] cell(
                    final(fb).pixels@, old(fb).width as int, x, y)
                    == raster_color(final(self).particles@,
                        adjusted_size(old(self).particle_size as int, input.grow, input.shrink),
                        x, y, 0u32),
    {
        if input.toggle_gravity {
            self.toggle_gravity();
        }
        if input.toggle_bounce {
            self.toggle_bounce();
        }
        let ghost before_spawn = self.particles@;
        if input.spawn && self.particles.len() <= usize::MAX - BULK_BATCH {
            self.spawn_batch(BULK_BATCH);
        }
        let ghost spawned = self.particles@.skip(before_spawn.len() as int);
        proof {
            assert(self.particles@.subrange(0, before_spawn.len() as int) =~= before_spawn);
            assert(before_spawn + spawned =~= self.particles@);
        }
        let ghost g1 = old(self).gravity_enabled != input.toggle_gravity;
        let ghost b1 = old(self).bounce_enabled != input.toggle_bounce;
        let ghost sz = adjusted_size(old(self).particle_size as int, input.grow, input.shrink);
        let ghost txc = clamp_val(input.target_x as int, 0, old(self).config.width_units());
        let ghost tyc = clamp_val(input.target_y as int, 0, old(self).config.height_units());
        let ghost all = before_spawn + spawned;
        if input.despawn {
            self.despawn_batch(BULK_BATCH);
        }
        proof {
            if !input.despawn {
                assert(bulk_removed(all, 0) =~= all);
            }
            assert(self.particles@ == bulk_removed(all,
                if input.despawn { BULK_BATCH as int } else { 0 }));
        }
        let ghost base = self.particles@;
        if input.grow {
            self.grow_particle_size();
        }
        if input.shrink {
            self.shrink_particle_size();
        }
        proof {
            assert(self.particle_size as int == sz);
        }
        self.resolve_collisions();
        let ghost after_res = self.particles@;
        proof {
            assert(after_res == resolved(base, sz * SCALE));
        }
        if input.attract {
            let tx: i64 = clamp_i64(input.target_x, 0, self.config.width_units_i64());
            let ty: i64 = clamp_i64(input.target_y, 0, self.config.height_units_i64());
            self.attract_all(tx, ty);
            proof {
                assert(self.particles@ == attracted_seq(after_res, txc, tyc));
            }
        }
        let ghost after_att = self.particles@;
        self.step_physics();
        proof {
            assert(self.particles@ == stepped_seq(after_att, old(self).config, g1, b1));
            assert(self.particles@ == frame_particles(base, old(self).config, g1, b1, sz,
                input.attract, txc, tyc));
        }
        fb.clear(0x000000u32);
        let ghost cleared = fb.pixels@;
        fb.draw_all(&self.particles, self.particle_size);
        proof {
            let w = old(fb).width as int;
            let h = old(fb).height as int;
            assert forall|x: int, y: int| 0 <= x < w && 0 <= y < h implies
                #[trigger] cell(cleared, w, x, y) == 0u32 by {
                lemma_cell_index_bound(w, h, x, y);
            }
            assert(exists|s: Seq<Particle>| {
                &&& s.len() == spawn_count(old(self).particles@.len() as int, input.spawn)
                &&& (forall|k: int| 0 <= k < s.len() ==> (#[trigger] s[k]).wf())
                &&& final(self).particles@ == frame_particles(
                    bulk_removed(old(self).particles@ + s,
                        if input.despawn { BULK_BATCH as int } else { 0 }),
                    old(self).config, g1, b1, sz, input.attract, txc, tyc)
            }) by {
                assert(spawned.len() == spawn_count(old(self).particles@.len() as int,
                    input.spawn));
                assert(final(self).particles@ == frame_particles(base, old(self).config,
                    g1, b1, sz, input.attract, txc, tyc));
            }
            if spawn_count(old(self).particles@.len() as int, input.spawn) == 0 {
                assert(spawned.len() == 0);
                assert(all =~= old(self).particles@);
            }
        }
    }
}

/// How many particles one frame spawns: a full batch on a spawn event,
/// unless the collection could not hold it.
pub open spec fn spawn_count(len: int, spawn: bool) -> int {
    if spawn && len + BULK_BATCH <= usize::MAX {
        BULK_BATCH as int
    } else {
        0
    }
}

} // verus!
