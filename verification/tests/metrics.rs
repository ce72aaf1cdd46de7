use voronoi::geom::Point;
use voronoi::metric::{distance, Metric, DIST_SCALE};

fn pt(x: i32, y: i32) -> Point {
    Point { x, y }
}

const ALL_METRICS: [Metric; 5] = [
    Metric::Euclidean,
    Metric::Manhattan,
    Metric::Chebyshev,
    Metric::Minimal,
    Metric::OctagonalApprox,
];

#[test]
fn euclidean_exact_on_pythagorean_triple() {
    assert_eq!(distance(Metric::Euclidean, pt(0, 0), pt(3, 4)), 5 * DIST_SCALE);
}

#[test]
fn euclidean_floors_the_scaled_root() {
    // sqrt(2) * 1024 = 1448.15...; the metric takes the floor.
    assert_eq!(distance(Metric::Euclidean, pt(0, 0), pt(1, 1)), 1448);
}

#[test]
fn euclidean_with_negative_coordinates() {
    assert_eq!(distance(Metric::Euclidean, pt(-3, 0), pt(0, 4)), 5 * DIST_SCALE);
}

#[test]
fn manhattan_exact() {
    assert_eq!(distance(Metric::Manhattan, pt(1, 2), pt(4, 6)), 7 * DIST_SCALE);
}

#[test]
fn chebyshev_exact() {
    assert_eq!(distance(Metric::Chebyshev, pt(1, 2), pt(4, 6)), 4 * DIST_SCALE);
}

#[test]
fn minimal_exact() {
    assert_eq!(distance(Metric::Minimal, pt(1, 2), pt(4, 6)), 3 * DIST_SCALE);
}

#[test]
fn octagonal_exact_blend() {
    // max = 4, min = 3: 1007 * 4 + 441 * 3 = 5351.
    assert_eq!(distance(Metric::OctagonalApprox, pt(1, 2), pt(4, 6)), 5351);
}

#[test]
fn every_metric_is_symmetric() {
    let a = pt(-3, 5);
    let b = pt(10, -2);
    for m in ALL_METRICS {
        assert_eq!(distance(m, a, b), distance(m, b, a));
    }
}

#[test]
fn every_metric_is_zero_on_equal_points() {
    let a = pt(7, -3);
    for m in ALL_METRICS {
        assert_eq!(distance(m, a, a), 0);
    }
}

#[test]
fn chebyshev_at_least_minimal() {
    let pairs = [(pt(0, 0), pt(3, 4)), (pt(-5, 2), pt(9, 9)), (pt(1, 1), pt(1, 1))];
    for (a, b) in pairs {
        assert!(distance(Metric::Chebyshev, a, b) >= distance(Metric::Minimal, a, b));
    }
}

#[test]
fn octagonal_between_minimal_and_chebyshev_on_flat_offsets() {
    // min/cheb = 1/100 here, small enough for the upper bound to hold too.
    let a = pt(0, 0);
    let b = pt(100, 1);
    let oct = distance(Metric::OctagonalApprox, a, b);
    assert!(distance(Metric::Minimal, a, b) <= oct);
    assert!(oct <= distance(Metric::Chebyshev, a, b));
}

#[test]
fn octagonal_at_least_minimal_on_diagonal() {
    // On the diagonal the blend exceeds Chebyshev; the lower bound still holds.
    let a = pt(0, 0);
    let b = pt(1, 1);
    assert!(distance(Metric::OctagonalApprox, a, b) >= distance(Metric::Minimal, a, b));
}
