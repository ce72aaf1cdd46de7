use voronoi::builder::{rebuild, ActiveConfig};
use voronoi::geom::{Color, Point, Site};
use voronoi::metric::Metric;
use voronoi::selector::Selector;
use voronoi::sites::generate_sites;

const RED: Color = Color { r: 255, g: 0, b: 0, a: 255 };
const BLUE: Color = Color { r: 0, g: 0, b: 255, a: 255 };

fn pt(x: i32, y: i32) -> Point {
    Point { x, y }
}

fn corner_sites() -> Vec<Site> {
    vec![
        Site { pos: pt(0, 0), color: RED },
        Site { pos: pt(2, 1), color: BLUE },
    ]
}

#[test]
fn buffer_has_one_entry_per_cell_at_its_own_coordinate() {
    let sites = corner_sites();
    let buf = rebuild(3, 2, &sites, Metric::Euclidean, Selector::Nearest);
    assert_eq!(buf.len(), 3 * 2);
    let mut k: usize = 0;
    for x in 0..3 {
        for y in 0..2 {
            assert_eq!(buf[k].pos, pt(x, y));
            k += 1;
        }
    }
}

#[test]
fn buffer_is_empty_when_a_dimension_is_zero() {
    let sites = corner_sites();
    assert_eq!(rebuild(0, 7, &sites, Metric::Manhattan, Selector::Nearest).len(), 0);
    assert_eq!(rebuild(7, 0, &sites, Metric::Manhattan, Selector::Nearest).len(), 0);
}

#[test]
fn cells_take_the_color_of_their_winning_site() {
    let sites = corner_sites();
    let buf = rebuild(3, 2, &sites, Metric::Euclidean, Selector::Nearest);
    // The cell on the red site and the cell on the blue site.
    assert_eq!(buf[0].color, RED);
    assert_eq!(buf[5].color, BLUE);
    // Under farthest-wins the two corners swap allegiance.
    let far = rebuild(3, 2, &sites, Metric::Euclidean, Selector::Farthest);
    assert_eq!(far[0].color, BLUE);
    assert_eq!(far[5].color, RED);
}

#[test]
fn identical_configurations_build_identical_buffers() {
    let sites = corner_sites();
    for m in [Metric::Euclidean, Metric::Minimal, Metric::OctagonalApprox] {
        for sel in [Selector::Nearest, Selector::Farthest] {
            let b1 = rebuild(8, 5, &sites, m, sel);
            let b2 = rebuild(8, 5, &sites, m, sel);
            assert_eq!(b1, b2);
        }
    }
}

#[test]
fn config_starts_euclidean_nearest_and_dirty() {
    let c = ActiveConfig::new();
    assert_eq!(c.metric, Metric::Euclidean);
    assert_eq!(c.selector, Selector::Nearest);
    assert!(c.dirty);
}

#[test]
fn rebuild_happens_only_while_dirty() {
    let sites = corner_sites();
    let mut c = ActiveConfig::new();
    assert!(c.rebuild_if_dirty(3, 2, &sites).is_some());
    assert!(!c.dirty);
    assert!(c.rebuild_if_dirty(3, 2, &sites).is_none());
    c.set_metric(Metric::Chebyshev);
    assert!(c.dirty);
    let buf = c.rebuild_if_dirty(3, 2, &sites);
    assert!(buf.is_some());
    assert!(c.rebuild_if_dirty(3, 2, &sites).is_none());
}

#[test]
fn mutators_raise_the_dirty_flag_and_keep_the_other_setting() {
    let sites = corner_sites();
    let mut c = ActiveConfig::new();
    let _ = c.rebuild_if_dirty(3, 2, &sites);
    c.set_selector(Selector::Farthest);
    assert!(c.dirty);
    assert_eq!(c.metric, Metric::Euclidean);
    assert_eq!(c.selector, Selector::Farthest);
    let _ = c.rebuild_if_dirty(3, 2, &sites);
    c.set_metric(Metric::Minimal);
    assert!(c.dirty);
    assert_eq!(c.metric, Metric::Minimal);
    assert_eq!(c.selector, Selector::Farthest);
}

#[test]
fn dirty_rebuild_matches_a_direct_rebuild() {
    let sites = corner_sites();
    let mut c = ActiveConfig::new();
    c.set_metric(Metric::Manhattan);
    c.set_selector(Selector::Farthest);
    let from_config = c.rebuild_if_dirty(4, 3, &sites).unwrap();
    let direct = rebuild(4, 3, &sites, Metric::Manhattan, Selector::Farthest);
    assert_eq!(from_config, direct);
}

#[test]
fn generated_sites_respect_count_ranges_and_opacity() {
    let sites = generate_sites(40, 1024, 1024);
    assert_eq!(sites.len(), 40);
    for s in &sites {
        assert!(s.pos.x >= 0 && s.pos.x < 1024);
        assert!(s.pos.y >= 0 && s.pos.y < 1024);
        assert_eq!(s.color.a, 255);
    }
}
