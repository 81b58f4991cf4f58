//! Fixed-point helpers: all simulation quantities are integers in
//! milli-pixel units (one pixel = `SCALE` sub-units).

use vstd::prelude::*;
use vstd::arithmetic::div_mod::{lemma_div_is_ordered, lemma_div_by_multiple};

verus! {

/// Number of fixed-point sub-units in one pixel.
pub const SCALE: i64 = 1000;

/// Magnitude bound kept on every particle coordinate and velocity
/// component; updates saturate here so products stay in range.
pub const COORD_LIMIT: i64 = 1_000_000_000;

/// `v` clamped into `[lo, hi]`.
pub open spec fn clamp_val(v: int, lo: int, hi: int) -> int {
    if v < lo {
        lo
    } else if v > hi {
        hi
    } else {
        v
    }
}

/// Division of `a` by positive `b`, rounding toward zero.
pub open spec fn div_toward_zero(a: int, b: int) -> int
    recommends
        b > 0,
{
    if a >= 0 {
        a / b
    } else {
        -((-a) / b)
    }
}

/// Velocity damping: keep `f` per-mille of `v`, rounding toward zero.
pub open spec fn damp(v: int, f: int) -> int
    recommends
        0 <= f <= SCALE,
{
    div_toward_zero(v * f, SCALE as int)
}

/// `r` is the floor of the square root of `n`.
pub open spec fn is_sqrt_floor(n: int, r: int) -> bool {
    0 <= r && r * r <= n && n < (r + 1) * (r + 1)
}

/// The floor of the square root of a non-negative `n`.
pub open spec fn sqrt_floor(n: int) -> int {
    choose|r: int| is_sqrt_floor(n, r)
}

pub proof fn lemma_sqrt_floor_unique(n: int, r1: int, r2: int)
    requires
        is_sqrt_floor(n, r1),
        is_sqrt_floor(n, r2),
    ensures
        r1 == r2,
{
    assert(r1 == r2) by (nonlinear_arith)
        requires
            is_sqrt_floor(n, r1),
            is_sqrt_floor(n, r2),
    ;
}

/// Damping never increases a component's magnitude or flips its sign.
pub proof fn lemma_damp_bounds(v: int, f: int)
    requires
        -(COORD_LIMIT as int) <= v <= COORD_LIMIT as int,
        0 <= f <= SCALE as int,
    ensures
        v >= 0 ==> 0 <= damp(v, f) <= v,
        v < 0 ==> v <= damp(v, f) <= 0,
{
    if v >= 0 {
        assert(0 <= v * f <= v * 1000) by (nonlinear_arith)
            requires
                0 <= f <= 1000,
                v >= 0,
        ;
        lemma_div_is_ordered(0, v * f, 1000);
        lemma_div_is_ordered(v * f, v * 1000, 1000);
        lemma_div_by_multiple(v, 1000);
    } else {
        let m = -v;
        assert(0 <= m * f <= m * 1000) by (nonlinear_arith)
            requires
                0 <= f <= 1000,
                m >= 0,
        ;
        assert(m * f == -(v * f)) by (nonlinear_arith)
            requires
                m == -v,
        ;
        lemma_div_is_ordered(0, m * f, 1000);
        lemma_div_is_ordered(m * f, m * 1000, 1000);
        lemma_div_by_multiple(m, 1000);
    }
}

/// Clamp an `i64` into `[lo, hi]`.
pub fn clamp_i64(v: i64, lo: i64, hi: i64) -> (r: i64)
    requires
        lo <= hi,
    ensures
        r == clamp_val(v as int, lo as int, hi as int),
{
    if v < lo {
        lo
    } else if v > hi {
        hi
    } else {
        v
    }
}

/// Keep `f` per-mille of `v`, rounding toward zero.
pub fn damp_i64(v: i64, f: i64) -> (r: i64)
    requires
        0 <= f <= SCALE,
        -COORD_LIMIT <= v <= COORD_LIMIT,
    ensures
        r == damp(v as int, f as int),
        -COORD_LIMIT <= r <= COORD_LIMIT,
        v >= 0 ==> 0 <= r <= v,
        v < 0 ==> v <= r <= 0,
{
    let m: u64 = if v >= 0 {
        v as u64
    } else {
        (-v) as u64
    };
    proof {
        assert(m as int * f as int <= 1_000_000_000 * 1000) by (nonlinear_arith)
            requires
                0 <= m as int <= 1_000_000_000,
                0 <= f as int <= 1000,
        ;
    }
    let p: u64 = m * f as u64;
    let q: u64 = p / 1000;
    proof {
        let mi = m as int;
        let fi = f as int;
        assert(mi * fi <= mi * 1000) by (nonlinear_arith)
            requires
                0 <= fi <= 1000,
                mi >= 0,
        ;
        lemma_div_is_ordered(mi * fi, mi * 1000, 1000);
        lemma_div_by_multiple(mi, 1000);
        assert(q as int == (mi * fi) / 1000);
        assert(q <= m);
        assert((-(v as int)) * fi == -((v as int) * fi)) by (nonlinear_arith);
    }
    if v >= 0 {
        q as i64
    } else {
        -(q as i64)
    }
}

/// Divide `a` by positive `b`, rounding toward zero.
pub fn div_i64_toward_zero(a: i64, b: i64) -> (r: i64)
    requires
        b > 0,
        a > i64::MIN,
    ensures
        r == div_toward_zero(a as int, b as int),
        a >= 0 ==> 0 <= r <= a,
        a < 0 ==> a <= r <= 0,
{
    let m: u64 = if a >= 0 {
        a as u64
    } else {
        (-a) as u64
    };
    let q: u64 = m / b as u64;
    proof {
        lemma_div_is_ordered(0, m as int, b as int);
        lemma_div_is_ordered(m as int, m as int, 1);
        assert(m as int / b as int <= m as int / 1) by {
            vstd::arithmetic::div_mod::lemma_div_is_ordered_by_denominator(m as int, 1, b as int);
        }
        assert(m as int / 1 == m as int) by (nonlinear_arith);
    }
    if a >= 0 {
        q as i64
    } else {
        -(q as i64)
    }
}

/// Squared magnitude of an `i64`, as a `u64`.
pub fn sq_mag_u64(d: i64) -> (r: u64)
    requires
        -2_100_000_000 <= d <= 2_100_000_000,
    ensures
        r == (d as int) * (d as int),
        r <= 4_410_000_000_000_000_000,
{
    let m: u64 = if d >= 0 {
        d as u64
    } else {
        (-d) as u64
    };
    proof {
        assert(m as int * m as int == d as int * d as int
            && m as int * m as int <= 4_410_000_000_000_000_000) by (nonlinear_arith)
            requires
                0 <= m as int <= 2_100_000_000,
                m as int == if d as int >= 0 { d as int } else { -(d as int) },
        ;
    }
    m * m
}

/// Floor of the square root of `n`, by bisection.
pub fn isqrt_u64(n: u64) -> (r: u64)
    ensures
        is_sqrt_floor(n as int, r as int),
        r as int == sqrt_floor(n as int),
{
    let mut lo: u64 = 0;
    let mut hi: u64 = 4_294_967_296;
    proof {
        assert((4_294_967_296 as int) * (4_294_967_296 as int) > u64::MAX as int)
            by (nonlinear_arith);
    }
    while lo + 1 < hi
        invariant
            lo < hi,
            hi <= 4_294_967_296,
            (lo as int) * (lo as int) <= n as int,
            (n as int) < (hi as int) * (hi as int),
        decreases hi - lo,
    {
        let mid: u64 = lo + (hi - lo) / 2;
        proof {
            assert(mid as int * mid as int <= 4_294_967_296 * 4_294_967_296)
                by (nonlinear_arith)
                requires
                    0 <= mid as int <= 4_294_967_296,
            ;
        }
        let sq: u128 = (mid as u128) * (mid as u128);
        if sq <= n as u128 {
            lo = mid;
        } else {
            hi = mid;
        }
    }
    proof {
        assert(hi == lo + 1);
        assert(is_sqrt_floor(n as int, lo as int));
        assert(exists|r: int| is_sqrt_floor(n as int, r)) by {
            assert(is_sqrt_floor(n as int, lo as int));
        }
        let c = choose|r: int| is_sqrt_floor(n as int, r);
        lemma_sqrt_floor_unique(n as int, c, lo as int);
    }
    lo
}

} // verus!
