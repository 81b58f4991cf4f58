//! Pairwise collision resolution: every unordered index pair `(i, j)`,
//! `i < j`, is visited in index order, and a pair closer than the render
//! size swaps velocity vectors outright. Later pairs see earlier swaps.

use vstd::prelude::*;
use crate::fixedmath::sq_mag_u64;
use crate::particle::Particle;

verus! {

/// Largest accepted collision threshold, in milli-pixels.
pub const MAX_THRESHOLD: i64 = 100_000_000;

/// Squared center distance between two particles.
pub open spec fn dist_sq(a: Particle, b: Particle) -> int {
    (a.x - b.x) * (a.x - b.x) + (a.y - b.y) * (a.y - b.y)
}

/// Two particles collide when their center distance is strictly below
/// the threshold `t` (milli-pixels).
pub open spec fn colliding(a: Particle, b: Particle, t: int) -> bool {
    dist_sq(a, b) < t * t
}

/// `a` carrying `b`'s velocity.
pub open spec fn with_velocity_of(a: Particle, b: Particle) -> Particle {
    Particle { x: a.x, y: a.y, vx: b.vx, vy: b.vy, color: a.color }
}

/// One pair visit: swap the velocities at `i` and `j` when colliding.
pub open spec fn swap_pair(s: Seq<Particle>, i: int, j: int, t: int) -> Seq<Particle>
    recommends
        0 <= i < s.len(),
        0 <= j < s.len(),
        i != j,
{
    if 0 <= i < s.len() && 0 <= j < s.len() && i != j && colliding(s[i], s[j], t) {
        s.update(i, with_velocity_of(s[i], s[j])).update(j, with_velocity_of(s[j], s[i]))
    } else {
        s
    }
}

/// Visit the pairs `(i, j), (i, j+1), ..., (i, len-1)` in order.
pub open spec fn resolve_row(s: Seq<Particle>, i: int, j: int, t: int) -> Seq<Particle>
    decreases s.len() - j,
{
    if j >= s.len() {
        s
    } else {
        resolve_row(swap_pair(s, i, j, t), i, j + 1, t)
    }
}

pub proof fn lemma_resolve_row_len(s: Seq<Particle>, i: int, j: int, t: int)
    ensures
        resolve_row(s, i, j, t).len() == s.len(),
    decreases s.len() - j,
{
    if j < s.len() {
        assert(swap_pair(s, i, j, t).len() == s.len());
        lemma_resolve_row_len(swap_pair(s, i, j, t), i, j + 1, t);
    }
}

/// Visit every pair from row `i` on: rows `i, i+1, ...`, each row `k`
/// pairing index `k` with every later index, in index order.
pub open spec fn resolve_from(s: Seq<Particle>, i: int, t: int) -> Seq<Particle>
    decreases s.len() - i,
    via resolve_from_decreases
{
    if i >= s.len() {
        s
    } else {
        resolve_from(resolve_row(s, i, i + 1, t), i + 1, t)
    }
}

#[via_fn]
proof fn resolve_from_decreases(s: Seq<Particle>, i: int, t: int) {
    if i < s.len() {
        lemma_resolve_row_len(s, i, i + 1, t);
    }
}

/// The whole pass over a particle sequence.
pub open spec fn resolved(s: Seq<Particle>, t: int) -> Seq<Particle> {
    resolve_from(s, 0, t)
}

pub proof fn lemma_resolve_from_len(s: Seq<Particle>, i: int, t: int)
    ensures
        resolve_from(s, i, t).len() == s.len(),
    decreases s.len() - i,
{
    if i < s.len() {
        lemma_resolve_row_len(s, i, i + 1, t);
        lemma_resolve_from_len(resolve_row(s, i, i + 1, t), i + 1, t);
    }
}

/// Whether two particles sit closer than the threshold `t`.
pub fn are_colliding(a: &Particle, b: &Particle, t: i64) -> (r: bool)
    requires
        a.wf(),
        b.wf(),
        0 <= t <= MAX_THRESHOLD,
    ensures
        r == colliding(*a, *b, t as int),
{
    let d2: u64 = sq_mag_u64(a.x - b.x) + sq_mag_u64(a.y - b.y);
    proof {
        assert(t as int * t as int <= 100_000_000 * 100_000_000) by (nonlinear_arith)
            requires
                0 <= t as int <= 100_000_000,
        ;
    }
    let t2: u64 = (t as u64) * (t as u64);
    d2 < t2
}

/// Visit one pair: when the particles at `i` and `j` collide, exchange
/// their velocity vectors entirely; otherwise change nothing.
pub fn resolve_pair(particles: &mut Vec<Particle>, i: usize, j: usize, t: i64)
    requires
        i < old(particles)@.len(),
        j < old(particles)@.len(),
        i != j,
        old(particles)@[i as int].wf(),
        old(particles)@[j as int].wf(),
        0 <= t <= MAX_THRESHOLD,
    ensures
        final(particles)@ == swap_pair(old(particles)@, i as int, j as int, t as int),
        final(particles)@.len() == old(particles)@.len(),
        colliding(old(particles)@[i as int], old(particles)@[j as int], t as int) ==> {
            &&& final(particles)@[i as int].vx == old(particles)@[j as int].vx
            &&& final(particles)@[i as int].vy == old(particles)@[j as int].vy
            &&& final(particles)@[j as int].vx == old(particles)@[i as int].vx
            &&& final(particles)@[j as int].vy == old(particles)@[i as int].vy
            &&& final(particles)@[i as int].x == old(particles)@[i as int].x
            &&& final(particles)@[i as int].y == old(particles)@[i as int].y
            &&& final(particles)@[j as int].x == old(particles)@[j as int].x
            &&& final(particles)@[j as int].y == old(particles)@[j as int].y
        },
        !colliding(old(particles)@[i as int], old(particles)@[j as int], t as int)
            ==> final(particles)@ == old(particles)@,
        forall|k: int| 0 <= k < old(particles)@.len() && k != i && k != j
            ==> final(particles)@[k] == old(particles)@[k],
{
    let a: Particle = particles[i];
    let b: Particle = particles[j];
    if are_colliding(&a, &b, t) {
        particles[i] = Particle { x: a.x, y: a.y, vx: b.vx, vy: b.vy, color: a.color };
        particles[j] = Particle { x: b.x, y: b.y, vx: a.vx, vy: a.vy, color: b.color };
    }
}

/// One full collision pass: every unordered pair `(i, j)`, `i < j`, in
/// index order.
pub fn resolve_all(particles: &mut Vec<Particle>, t: i64)
    requires
        forall|k: int| 0 <= k < old(particles)@.len() ==> (#[trigger] old(particles)@[k]).wf(),
        0 <= t <= MAX_THRESHOLD,
    ensures
        final(particles)@ == resolved(old(particles)@, t as int),
        final(particles)@.len() == old(particles)@.len(),
        forall|k: int| 0 <= k < final(particles)@.len() ==> (#[trigger] final(particles)@[k]).wf(),
{
    let ghost orig = particles@;
    let n: usize = particles.len();
    let mut i: usize = 0;
    while i < n
        invariant
            i <= n,
            n == particles@.len(),
            0 <= t <= MAX_THRESHOLD,
            forall|k: int| 0 <= k < particles@.len() ==> (#[trigger] particles@[k]).wf(),
            resolve_from(particles@, i as int, t as int) == resolve_from(orig, 0, t as int),
        decreases n - i,
    {
        let mut j: usize = i + 1;
        proof {
            assert(resolve_from(particles@, i as int, t as int)
                == resolve_from(resolve_row(particles@, i as int, i as int + 1, t as int),
                    i as int + 1, t as int));
        }
        while j < n
            invariant
                i < n,
                i + 1 <= j <= n,
                n == particles@.len(),
                0 <= t <= MAX_THRESHOLD,
                forall|k: int| 0 <= k < particles@.len() ==> (#[trigger] particles@[k]).wf(),
                resolve_from(resolve_row(particles@, i as int, j as int, t as int),
                    i as int + 1, t as int) == resolve_from(orig, 0, t as int),
            decreases n - j,
        {
            resolve_pair(particles, i, j, t);
            j += 1;
        }
        i += 1;
    }
}

} // verus!
