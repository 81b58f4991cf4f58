//! Attraction toward a target point: an additive velocity nudge along the
//! unit vector toward the target, inactive inside a small dead zone.

use vstd::prelude::*;
use crate::fixedmath::{
    COORD_LIMIT, clamp_val, div_toward_zero, sqrt_floor, is_sqrt_floor,
    lemma_sqrt_floor_unique, clamp_i64, div_i64_toward_zero, isqrt_u64, sq_mag_u64,
};
use crate::particle::Particle;

verus! {

/// Distance (milli-pixels) at or under which attraction has no effect;
/// one pixel, preventing a division by zero at the target.
pub const ATTRACT_DEADZONE: i64 = 1000;

/// Magnitude of the attraction nudge, in milli-pixels per step (half a
/// pixel).
pub const ATTRACT_STRENGTH: i64 = 500;

/// The attraction nudge, spec side: with `d` the floor of the distance
/// from `p` to the target, each velocity component gains the matching
/// displacement component scaled by `ATTRACT_STRENGTH / d` (rounded
/// toward zero, saturating), unless `d` is inside the dead zone.
pub open spec fn attracted(p: Particle, tx: int, ty: int) -> Particle {
    let lim = COORD_LIMIT as int;
    let dx = tx - p.x;
    let dy = ty - p.y;
    let d = sqrt_floor(dx * dx + dy * dy);
    if d > ATTRACT_DEADZONE {
        Particle {
            x: p.x,
            y: p.y,
            vx: clamp_val(p.vx + div_toward_zero(dx * ATTRACT_STRENGTH, d), -lim, lim) as i64,
            vy: clamp_val(p.vy + div_toward_zero(dy * ATTRACT_STRENGTH, d), -lim, lim) as i64,
            color: p.color,
        }
    } else {
        p
    }
}

/// Nudge `p`'s velocity toward the target point `(tx, ty)`.
pub fn apply_attraction(p: &mut Particle, tx: i64, ty: i64)
    requires
        old(p).wf(),
        -COORD_LIMIT <= tx <= COORD_LIMIT,
        -COORD_LIMIT <= ty <= COORD_LIMIT,
    ensures
        *final(p) == attracted(*old(p), tx as int, ty as int),
        final(p).wf(),
{
    let dx: i64 = tx - p.x;
    let dy: i64 = ty - p.y;
    let d2: u64 = sq_mag_u64(dx) + sq_mag_u64(dy);
    let d: u64 = isqrt_u64(d2);
    proof {
        assert(d as int <= 4_294_967_296) by (nonlinear_arith)
            requires
                is_sqrt_floor(d2 as int, d as int),
                d2 as int <= u64::MAX as int,
        ;
    }
    if d > ATTRACT_DEADZONE as u64 {
        let incx: i64 = div_i64_toward_zero(dx * ATTRACT_STRENGTH, d as i64);
        let incy: i64 = div_i64_toward_zero(dy * ATTRACT_STRENGTH, d as i64);
        p.vx = clamp_i64(p.vx + incx, -COORD_LIMIT, COORD_LIMIT);
        p.vy = clamp_i64(p.vy + incy, -COORD_LIMIT, COORD_LIMIT);
    }
}

/// A particle exactly at the target is outside the attraction's reach:
/// the nudge leaves it unchanged.
pub proof fn lemma_attraction_at_target(p: Particle)
    requires
        p.wf(),
    ensures
        attracted(p, p.x as int, p.y as int) == p,
{
    let dx = p.x as int - p.x as int;
    let dy = p.y as int - p.y as int;
    assert(dx * dx == 0 && dy * dy == 0) by (nonlinear_arith)
        requires
            dx == 0,
            dy == 0,
    ;
    assert(is_sqrt_floor(0, 0)) by (nonlinear_arith);
    assert(exists|r: int| is_sqrt_floor(0, r)) by {
        assert(is_sqrt_floor(0, 0));
    }
    let c = choose|r: int| is_sqrt_floor(0, r);
    lemma_sqrt_floor_unique(0, c, 0);
}

} // verus!
