use rust_sc2::geom::{circle_intersection, isqrt, Point};
use rust_sc2::grid::Grid;

#[test]
fn isqrt_exact_values() {
    assert_eq!(isqrt(0), 0);
    assert_eq!(isqrt(1), 1);
    assert_eq!(isqrt(63), 7);
    assert_eq!(isqrt(64), 8);
    assert_eq!(isqrt(65), 8);
    assert_eq!(isqrt(1_000_000_000_000_000_000), 1_000_000_000);
}

#[test]
fn distance_squared_exact() {
    let a = Point::new(1000, 2000);
    let b = Point::new(4000, 6000);
    assert_eq!(a.distance_squared(b), 25_000_000);
    assert_eq!(b.distance_squared(a), 25_000_000);
    assert_eq!(a.distance_squared(a), 0);
}

#[test]
fn circle_intersection_symmetric_pair() {
    // Two tile centers 2 tiles apart horizontally, radius^2 = 5 tiles^2.
    let c1 = Point::new(1500, 1500);
    let c2 = Point::new(3500, 1500);
    let r = circle_intersection(c1, c2, 5_000_000).expect("circles must intersect");
    // The pair is symmetric about the midpoint of the centers.
    assert_eq!(r.0.x + r.1.x, 2 * 2500);
    assert_eq!(r.0.y + r.1.y, 2 * 1500);
    // The chord offset is vertical here: x components match the midpoint.
    assert_eq!(r.0.x, 2500);
    assert_eq!(r.1.x, 2500);
    // h = sqrt(5_000_000 - 1_000_000) = 2000.
    assert_eq!(r.0.y, 1500 + 2000);
    assert_eq!(r.1.y, 1500 - 2000);
}

#[test]
fn circle_intersection_rejects_far_apart_centers() {
    let c1 = Point::new(0, 0);
    let c2 = Point::new(1_000_000, 0);
    assert!(circle_intersection(c1, c2, 5_000_000).is_none());
    assert!(circle_intersection(c1, c1, 5_000_000).is_none());
}

#[test]
fn grid_set_and_get() {
    let mut g = Grid::new(8, 4, 0);
    assert!(g.is_free(7, 3));
    g.set(7, 3, 9);
    assert_eq!(g.get(7, 3), 9);
    assert!(!g.is_free(7, 3));
    assert!(g.is_free(6, 3));
    assert!(g.in_bounds(7, 3));
    assert!(!g.in_bounds(8, 3));
}

#[test]
fn tile_of_point() {
    let p = Point::new(20_500, 13_999);
    assert_eq!(p.tile(), (20, 13));
}
