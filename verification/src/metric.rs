//! The five distance metrics.
//!
//! Every metric returns an exact integer equal to `DIST_SCALE` (1024) times
//! the distance it names. The octagonal blend's weights have denominator
//! 1024, so at this scale all five metrics are exact; the Euclidean metric
//! takes the floor of the scaled square root.

use vstd::prelude::*;

use crate::geom::{abs_delta, delta_x, delta_y, Point};

verus! {

/// Every metric's result is this many units per one grid step of distance.
pub const DIST_SCALE: u64 = 1024;

/// Weight of the Chebyshev component in the octagonal blend, in 1024ths.
pub const OCTAGONAL_CHEBYSHEV_WEIGHT: u64 = 1007;

/// Weight of the minimal component in the octagonal blend, in 1024ths.
pub const OCTAGONAL_MINIMAL_WEIGHT: u64 = 441;

/// The closed set of selectable distance metrics.
///
/// `Minimal` is not a true metric (it violates the triangle inequality and
/// identity of indiscernibles for collinear points); it is offered purely
/// for its visual effect. `OctagonalApprox` is the classical square-root-free
/// approximation of Euclidean distance.
#[derive(Clone, Copy, PartialEq, Eq, Structural, Debug)]
pub enum Metric {
    Euclidean,
    Manhattan,
    Chebyshev,
    Minimal,
    OctagonalApprox,
}

/// The floor of the square root of `n`.
pub open spec fn sqrt_floor(n: nat) -> nat
    decreases n,
{
    if n == 0 {
        0
    } else {
        let p = sqrt_floor((n - 1) as nat);
        if (p + 1) * (p + 1) <= n {
            p + 1
        } else {
            p
        }
    }
}

/// `sqrt_floor(n)` is the unique value whose square is at most `n` while the
/// next square is beyond `n`.
pub proof fn lemma_sqrt_floor_bounds(n: nat)
    ensures
        sqrt_floor(n) * sqrt_floor(n) <= n,
        n < (sqrt_floor(n) + 1) * (sqrt_floor(n) + 1),
    decreases n,
{
    if n > 0 {
        lemma_sqrt_floor_bounds((n - 1) as nat);
        let p = sqrt_floor((n - 1) as nat);
        if (p + 1) * (p + 1) <= n {
            assert(sqrt_floor(n) == p + 1);
            assert((p + 1) * (p + 1) < (p + 2) * (p + 2)) by (nonlinear_arith);
            assert((sqrt_floor(n) + 1) * (sqrt_floor(n) + 1) == (p + 2) * (p + 2));
        } else {
            assert(sqrt_floor(n) == p);
            assert((sqrt_floor(n) + 1) * (sqrt_floor(n) + 1) == (p + 1) * (p + 1));
        }
    } else {
        let s = sqrt_floor(n);
        assert((s + 1) * (s + 1) == 1) by (nonlinear_arith)
            requires
                s == 0nat,
        ;
    }
}

/// Any value bracketing `n` between its own square and the next one is the
/// floor of the square root.
pub proof fn lemma_sqrt_floor_unique(n: nat, r: nat)
    requires
        r * r <= n,
        n < (r + 1) * (r + 1),
    ensures
        r == sqrt_floor(n),
{
    lemma_sqrt_floor_bounds(n);
    let s = sqrt_floor(n);
    if r < s {
        assert((r + 1) * (r + 1) <= s * s) by (nonlinear_arith)
            requires
                r + 1 <= s,
        ;
        assert(false);
    }
    if s < r {
        assert((s + 1) * (s + 1) <= r * r) by (nonlinear_arith)
            requires
                s + 1 <= r,
        ;
        assert(false);
    }
}

/// Integer square root by bisection: the floor of the square root of `n`.
pub fn isqrt(n: u128) -> (r: u128)
    ensures
        r * r <= n,
        n < (r + 1) * (r + 1),
        r == sqrt_floor(n as nat),
{
    let mut lo: u128 = 0;
    let mut hi: u128 = 0x1_0000_0000_0000_0000;
    proof {
        assert(n < hi * hi) by (nonlinear_arith)
            requires
                hi == 0x1_0000_0000_0000_0000u128,
                n <= u128::MAX,
        ;
    }
    while lo + 1 < hi
        invariant
            lo < hi <= 0x1_0000_0000_0000_0000u128,
            lo * lo <= n,
            n < hi * hi,
        decreases hi - lo,
    {
        let mid = lo + (hi - lo) / 2;
        proof {
            assert(mid * mid <= u128::MAX) by (nonlinear_arith)
                requires
                    mid < 0x1_0000_0000_0000_0000u128,
            ;
        }
        if mid * mid <= n {
            lo = mid;
        } else {
            hi = mid;
        }
    }
    proof {
        lemma_sqrt_floor_unique(n as nat, lo as nat);
    }
    lo
}

/// The quantity whose square root the scaled Euclidean metric takes:
/// `DIST_SCALE^2 * (dx^2 + dy^2)`.
pub open spec fn euclid_radicand(a: Point, b: Point) -> int {
    (DIST_SCALE as int) * (DIST_SCALE as int) * (delta_x(a, b) * delta_x(a, b) + delta_y(a, b)
        * delta_y(a, b))
}

/// What each metric returns: the distance from `a` to `b`, scaled by
/// `DIST_SCALE`.
pub open spec fn dist_spec(m: Metric, a: Point, b: Point) -> int {
    match m {
        Metric::Euclidean => sqrt_floor(euclid_radicand(a, b) as nat) as int,
        Metric::Manhattan => (DIST_SCALE as int) * (delta_x(a, b) + delta_y(a, b)),
        Metric::Chebyshev => (DIST_SCALE as int) * vstd::math::max(delta_x(a, b), delta_y(a, b)),
        Metric::Minimal => (DIST_SCALE as int) * vstd::math::min(delta_x(a, b), delta_y(a, b)),
        Metric::OctagonalApprox => (OCTAGONAL_CHEBYSHEV_WEIGHT as int) * vstd::math::max(
            delta_x(a, b),
            delta_y(a, b),
        ) + (OCTAGONAL_MINIMAL_WEIGHT as int) * vstd::math::min(delta_x(a, b), delta_y(a, b)),
    }
}

/// Every metric is symmetric in its two points.
pub proof fn lemma_metric_symmetric(m: Metric, a: Point, b: Point)
    ensures
        dist_spec(m, a, b) == dist_spec(m, b, a),
{
    assert(delta_x(a, b) == delta_x(b, a));
    assert(delta_y(a, b) == delta_y(b, a));
}

/// Every metric gives a point distance zero from itself; the minimal
/// pseudo-metric is no exception.
pub proof fn lemma_metric_identity(m: Metric, a: Point)
    ensures
        dist_spec(m, a, a) == 0,
{
    assert(delta_x(a, a) == 0);
    assert(delta_y(a, a) == 0);
    assert(euclid_radicand(a, a) == 0) by (nonlinear_arith)
        requires
            delta_x(a, a) == 0,
            delta_y(a, a) == 0,
    ;
    assert(sqrt_floor(0) == 0);
}

/// The Chebyshev distance never falls below the minimal pseudo-distance:
/// it is the larger of the same two nonnegative coordinate differences.
pub proof fn lemma_chebyshev_ge_minimal(a: Point, b: Point)
    ensures
        dist_spec(Metric::Chebyshev, a, b) >= dist_spec(Metric::Minimal, a, b),
{
}

/// The octagonal blend never falls below the minimal pseudo-distance.
pub proof fn lemma_octagonal_at_least_minimal(a: Point, b: Point)
    ensures
        dist_spec(Metric::OctagonalApprox, a, b) >= dist_spec(Metric::Minimal, a, b),
{
}

/// The octagonal blend stays at or below the Chebyshev distance exactly when
/// the minimal component is small enough against the Chebyshev component:
/// 441 is the blend's minimal weight and 17 is the scale's headroom over its
/// Chebyshev weight. The blend's weights sum to more than one, so on points
/// whose coordinate differences are close to each other — `(0,0)` against
/// `(1,1)`, say — it exceeds the Chebyshev distance instead.
pub proof fn lemma_octagonal_at_most_chebyshev(a: Point, b: Point)
    requires
        441 * dist_spec(Metric::Minimal, a, b) <= 17 * dist_spec(Metric::Chebyshev, a, b),
    ensures
        dist_spec(Metric::OctagonalApprox, a, b) <= dist_spec(Metric::Chebyshev, a, b),
{
}

/// Compute the scaled distance from `a` to `b` under metric `m`.
pub fn distance(m: Metric, a: Point, b: Point) -> (d: u64)
    ensures
        d == dist_spec(m, a, b),
{
    let adx = abs_delta(a.x, b.x);
    let ady = abs_delta(a.y, b.y);
    proof {
        assert(adx <= 0xffff_ffffu64);
        assert(ady <= 0xffff_ffffu64);
    }
    match m {
        Metric::Euclidean => {
            proof {
                assert((adx as int) * (adx as int) <= 0xffff_ffff * 0xffff_ffff)
                    by (nonlinear_arith)
                    requires
                        adx <= 0xffff_ffffu64,
                ;
                assert((ady as int) * (ady as int) <= 0xffff_ffff * 0xffff_ffff)
                    by (nonlinear_arith)
                    requires
                        ady <= 0xffff_ffffu64,
                ;
            }
            let sx = (adx as u128) * (adx as u128);
            let sy = (ady as u128) * (ady as u128);
            // 0x10_0000 = DIST_SCALE squared
            let rad = 0x10_0000u128 * (sx + sy);
            let r = isqrt(rad);
            proof {
                assert(rad < 0x40_0000_0000_0000_0000_0000);
                assert(r < 0x800_0000_0000) by (nonlinear_arith)
                    requires
                        r * r < 0x40_0000_0000_0000_0000_0000,
                ;
                assert(rad == euclid_radicand(a, b));
            }
            r as u64
        },
        Metric::Manhattan => DIST_SCALE * (adx + ady),
        Metric::Chebyshev => {
            let c = if adx >= ady {
                adx
            } else {
                ady
            };
            DIST_SCALE * c
        },
        Metric::Minimal => {
            let mn = if adx <= ady {
                adx
            } else {
                ady
            };
            DIST_SCALE * mn
        },
        Metric::OctagonalApprox => {
            let c = if adx >= ady {
                adx
            } else {
                ady
            };
            let mn = if adx <= ady {
                adx
            } else {
                ady
            };
            OCTAGONAL_CHEBYSHEV_WEIGHT * c + OCTAGONAL_MINIMAL_WEIGHT * mn
        },
    }
}

} // verus!
