use particle_sim::config::SimConfig;
use particle_sim::particle::Particle;
use particle_sim::attract::apply_attraction;
use particle_sim::collide::resolve_all;
use particle_sim::fixedmath::{clamp_i64, damp_i64, div_i64_toward_zero, isqrt_u64};
use particle_sim::raster::{FrameBuffer, GlyphPixel};
use particle_sim::world::{FrameInput, World};

fn default_config() -> SimConfig {
    SimConfig::standard()
}

fn particle_at(x: i64, y: i64, vx: i64, vy: i64) -> Particle {
    Particle { x, y, vx, vy, color: 0x112233 }
}

fn quiet_input() -> FrameInput {
    FrameInput {
        toggle_gravity: false,
        toggle_bounce: false,
        spawn: false,
        despawn: false,
        grow: false,
        shrink: false,
        attract: false,
        target_x: 0,
        target_y: 0,
    }
}

#[test]
fn friction_only_step_scales_velocity_exactly() {
    let c = default_config();
    let mut p = particle_at(100_000, 100_000, 1000, -500);
    p.update(&c, false, false);
    assert_eq!(p.vx, 990);
    assert_eq!(p.vy, -495);
    assert_eq!(p.x, 100_990);
    assert_eq!(p.y, 99_505);
}

#[test]
fn friction_truncates_toward_zero() {
    let c = default_config();
    let mut p = particle_at(0, 0, 999, -999);
    p.update(&c, false, false);
    assert_eq!(p.vx, 989);
    assert_eq!(p.vy, -989);
}

#[test]
fn bounce_clamps_crossing_particle_into_window() {
    let c = default_config();
    // 1279.5 px moving right at one pixel per step: crosses the right edge.
    let mut p = particle_at(1_279_500, 360_000, 1000, 0);
    p.update(&c, false, true);
    assert_eq!(p.vx, -990);
    assert_eq!(p.x, 1_280_000);
    assert!(p.x <= 1_280_000 && p.x >= 0);
    // Same downward past the bottom edge.
    let mut q = particle_at(640_000, 719_800, 0, 1000);
    q.update(&c, false, true);
    assert_eq!(q.vy, -990);
    assert_eq!(q.y, 720_000);
}

#[test]
fn gravity_applies_before_friction() {
    // Single particle at (640, 360), zero velocity, gravity on, bounce on:
    // vy becomes gravity scaled by friction, no clamp triggers.
    let c = default_config();
    let mut p = particle_at(640_000, 360_000, 0, 0);
    p.update(&c, true, true);
    assert_eq!(p.vy, 198);
    assert_eq!(p.y, 360_198);
    assert_eq!(p.vx, 0);
    assert_eq!(p.x, 640_000);
}

#[test]
fn colliding_pair_swaps_velocities() {
    // Two particles five pixels apart with render size ten: colliding.
    let a = particle_at(0, 0, 1000, 0);
    let b = particle_at(5000, 0, -1000, 0);
    let mut v = vec![a, b];
    resolve_all(&mut v, 10_000);
    assert_eq!(v[0].vx, -1000);
    assert_eq!(v[0].vy, 0);
    assert_eq!(v[1].vx, 1000);
    assert_eq!(v[1].vy, 0);
    assert_eq!(v[0].x, 0);
    assert_eq!(v[1].x, 5000);
}

#[test]
fn distant_pair_is_untouched() {
    let a = particle_at(0, 0, 1000, 200);
    let b = particle_at(15_000, 0, -1000, -200);
    let mut v = vec![a, b];
    resolve_all(&mut v, 10_000);
    assert_eq!(v[0].vx, 1000);
    assert_eq!(v[0].vy, 200);
    assert_eq!(v[1].vx, -1000);
    assert_eq!(v[1].vy, -200);
}

#[test]
fn pair_exactly_at_threshold_is_untouched() {
    let a = particle_at(0, 0, 7, 8);
    let b = particle_at(10_000, 0, -7, -8);
    let mut v = vec![a, b];
    resolve_all(&mut v, 10_000);
    assert_eq!(v[0].vx, 7);
    assert_eq!(v[1].vx, -7);
}

#[test]
fn attraction_at_target_leaves_velocity_unchanged() {
    let mut p = particle_at(640_000, 360_000, 123, -456);
    apply_attraction(&mut p, 640_000, 360_000);
    assert_eq!(p.vx, 123);
    assert_eq!(p.vy, -456);
}

#[test]
fn attraction_dead_zone_boundary() {
    // Exactly one pixel away: still inside the dead zone.
    let mut p = particle_at(0, 0, 0, 0);
    apply_attraction(&mut p, 1000, 0);
    assert_eq!(p.vx, 0);
    assert_eq!(p.vy, 0);
    // Just past one pixel: the nudge applies at full strength.
    let mut q = particle_at(0, 0, 0, 0);
    apply_attraction(&mut q, 1001, 0);
    assert_eq!(q.vx, 500);
    assert_eq!(q.vy, 0);
}

#[test]
fn attraction_follows_unit_vector() {
    // A 3-4-5 triangle: distance 5 pixels, nudge (300, 400).
    let mut p = particle_at(0, 0, 0, 0);
    apply_attraction(&mut p, 3000, 4000);
    assert_eq!(p.vx, 300);
    assert_eq!(p.vy, 400);
    assert_eq!(p.x, 0);
    assert_eq!(p.y, 0);
}

#[test]
fn bulk_add_and_remove_change_length_exactly() {
    let mut w = World::new(default_config());
    w.spawn_batch(5);
    assert_eq!(w.particles.len(), 5);
    w.spawn_batch(7);
    assert_eq!(w.particles.len(), 12);
    w.despawn_batch(3);
    assert_eq!(w.particles.len(), 9);
    // Removing more than there are empties the collection, never below zero.
    w.despawn_batch(100);
    assert_eq!(w.particles.len(), 0);
    w.despawn_batch(10);
    assert_eq!(w.particles.len(), 0);
}

#[test]
fn spawned_particles_land_inside_the_window() {
    let mut w = World::new(default_config());
    w.spawn_batch(50);
    for p in &w.particles {
        assert!(p.x >= 0 && p.x < 1_280_000);
        assert!(p.y >= 0 && p.y < 720_000);
        assert!(p.vx >= -2000 && p.vx < 2000);
        assert!(p.vy >= -2000 && p.vy < 2000);
        assert!(p.color >= 0x0000FF && p.color <= 0xFFFFFF);
    }
}

#[test]
fn toggling_gravity_twice_restores_it() {
    let mut w = World::new(default_config());
    assert!(!w.gravity_enabled);
    w.toggle_gravity();
    assert!(w.gravity_enabled);
    w.toggle_gravity();
    assert!(!w.gravity_enabled);
    // The same through whole frames.
    let mut fb = FrameBuffer::new(1280, 720);
    let mut input = quiet_input();
    input.toggle_gravity = true;
    w.frame(&input, &mut fb);
    assert!(w.gravity_enabled);
    w.frame(&input, &mut fb);
    assert!(!w.gravity_enabled);
}

#[test]
fn render_size_grows_and_shrinks_with_floor() {
    let mut w = World::new(default_config());
    assert_eq!(w.particle_size, 10);
    w.grow_particle_size();
    assert_eq!(w.particle_size, 11);
    for _ in 0..15 {
        w.shrink_particle_size();
    }
    assert_eq!(w.particle_size, 1);
    w.shrink_particle_size();
    assert_eq!(w.particle_size, 1);
}

#[test]
fn buffer_clear_overwrites_every_pixel() {
    let mut fb = FrameBuffer::new(10, 8);
    assert_eq!(fb.pixel_at(0, 0), 0);
    fb.clear(0x123456);
    assert_eq!(fb.pixel_at(0, 0), 0x123456);
    assert_eq!(fb.pixel_at(9, 7), 0x123456);
}

#[test]
fn particle_square_is_painted_at_truncated_position() {
    let mut fb = FrameBuffer::new(10, 8);
    let p = Particle { x: 2500, y: 1999, vx: 0, vy: 0, color: 7 };
    fb.draw_particle(&p, 2);
    assert_eq!(fb.pixel_at(2, 1), 7);
    assert_eq!(fb.pixel_at(3, 1), 7);
    assert_eq!(fb.pixel_at(2, 2), 7);
    assert_eq!(fb.pixel_at(3, 2), 7);
    assert_eq!(fb.pixel_at(1, 1), 0);
    assert_eq!(fb.pixel_at(4, 1), 0);
    assert_eq!(fb.pixel_at(2, 3), 0);
}

#[test]
fn off_buffer_pixels_are_skipped() {
    let mut fb = FrameBuffer::new(10, 8);
    let p = Particle { x: 9500, y: 7999, vx: 0, vy: 0, color: 9 };
    fb.draw_particle(&p, 3);
    assert_eq!(fb.pixel_at(9, 7), 9);
    // Nothing else of the square fits; the buffer is otherwise black.
    for y in 0..8usize {
        for x in 0..10usize {
            if !(x == 9 && y == 7) {
                assert_eq!(fb.pixel_at(x, y), 0);
            }
        }
    }
}

#[test]
fn negative_position_saturates_to_the_origin_column() {
    let mut fb = FrameBuffer::new(10, 8);
    let p = Particle { x: -500, y: -2000, vx: 0, vy: 0, color: 3 };
    fb.draw_particle(&p, 1);
    assert_eq!(fb.pixel_at(0, 0), 3);
    assert_eq!(fb.pixel_at(1, 0), 0);
}

#[test]
fn later_particles_overwrite_earlier_ones() {
    let mut fb = FrameBuffer::new(10, 8);
    let first = Particle { x: 0, y: 0, vx: 0, vy: 0, color: 1 };
    let second = Particle { x: 0, y: 0, vx: 0, vy: 0, color: 2 };
    let v = vec![first, second];
    fb.draw_all(&v, 2);
    assert_eq!(fb.pixel_at(0, 0), 2);
    assert_eq!(fb.pixel_at(1, 1), 2);
}

#[test]
fn glyph_overlay_writes_gray_and_skips_outside() {
    let mut fb = FrameBuffer::new(10, 8);
    let pts = vec![
        GlyphPixel { x: 1, y: 1, intensity: 255 },
        GlyphPixel { x: 2, y: 1, intensity: 128 },
        GlyphPixel { x: 100, y: 0, intensity: 255 },
    ];
    fb.overlay_glyph_pixels(&pts);
    assert_eq!(fb.pixel_at(1, 1), 0xFFFFFF);
    assert_eq!(fb.pixel_at(2, 1), 0x808080);
    assert_eq!(fb.pixel_at(0, 0), 0);
}

#[test]
fn quiet_frame_rasterizes_resting_particle() {
    let c = default_config();
    let mut w = World::new(c);
    w.particles.push(Particle { x: 640_000, y: 360_000, vx: 0, vy: 0, color: 0xABCDEF });
    let mut fb = FrameBuffer::new(1280, 720);
    w.frame(&quiet_input(), &mut fb);
    // Zero velocity and no forces: the particle rests where it was.
    assert_eq!(w.particles[0].x, 640_000);
    assert_eq!(w.particles[0].y, 360_000);
    assert_eq!(fb.pixel_at(640, 360), 0xABCDEF);
    assert_eq!(fb.pixel_at(649, 369), 0xABCDEF);
    assert_eq!(fb.pixel_at(650, 360), 0);
    assert_eq!(fb.pixel_at(0, 0), 0);
}

#[test]
fn frame_applies_attraction_before_physics() {
    let mut w = World::new(default_config());
    w.particles.push(Particle { x: 0, y: 0, vx: 0, vy: 0, color: 5 });
    let mut fb = FrameBuffer::new(1280, 720);
    let mut input = quiet_input();
    input.attract = true;
    input.target_x = 3000;
    input.target_y = 4000;
    w.frame(&input, &mut fb);
    // The nudge (300, 400) lands first, then friction damps it.
    assert_eq!(w.particles[0].vx, 297);
    assert_eq!(w.particles[0].vy, 396);
    assert_eq!(w.particles[0].x, 297);
    assert_eq!(w.particles[0].y, 396);
}

#[test]
fn frame_spawns_and_despawns_in_batches() {
    let mut w = World::new(default_config());
    let mut fb = FrameBuffer::new(1280, 720);
    let mut input = quiet_input();
    input.spawn = true;
    w.frame(&input, &mut fb);
    assert_eq!(w.particles.len(), 1000);
    input.spawn = false;
    input.despawn = true;
    w.frame(&input, &mut fb);
    assert_eq!(w.particles.len(), 0);
}

#[test]
fn fixed_point_helpers_match_their_contracts() {
    assert_eq!(clamp_i64(5, 0, 10), 5);
    assert_eq!(clamp_i64(-5, 0, 10), 0);
    assert_eq!(clamp_i64(15, 0, 10), 10);
    assert_eq!(damp_i64(1000, 990), 990);
    assert_eq!(damp_i64(-1000, 990), -990);
    assert_eq!(damp_i64(1, 990), 0);
    assert_eq!(div_i64_toward_zero(7, 2), 3);
    assert_eq!(div_i64_toward_zero(-7, 2), -3);
    assert_eq!(isqrt_u64(0), 0);
    assert_eq!(isqrt_u64(24), 4);
    assert_eq!(isqrt_u64(25), 5);
    assert_eq!(isqrt_u64(u64::MAX), 4_294_967_295);
}
