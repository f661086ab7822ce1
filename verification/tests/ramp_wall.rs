use rust_sc2::geom::Point;
use rust_sc2::grid::Grid;
use rust_sc2::ramp::Ramp;

/// A synthetic ramp: two upper tiles on a diagonal, one lower tile.
fn synthetic_ramp() -> Ramp {
    let mut heights = Grid::new(10, 10, 0);
    heights.set(2, 4, 200);
    heights.set(4, 2, 200);
    heights.set(1, 1, 50);
    Ramp::new(vec![(2, 4), (4, 2), (1, 1)], &heights, Point::new(0, 0))
}

#[test]
fn tiers_of_the_synthetic_ramp() {
    let r = synthetic_ramp();
    assert_eq!(r.upper(), vec![(2, 4), (4, 2)]);
    assert_eq!(r.lower(), vec![(1, 1)]);
    assert_eq!(r.top_center(), Some((3, 3)));
    assert_eq!(r.bottom_center(), Some((1, 1)));
    assert_eq!(r.upper2_for_ramp_wall(), Some(((2, 4), (4, 2))));
}

#[test]
fn wall_positions_of_the_synthetic_ramp() {
    let r = synthetic_ramp();
    // Wall tile centers: (2500, 4500) and (4500, 2500); the mid-wall
    // 3x3 position is the intersection farther from the lower tile.
    let b = r.barracks_in_middle().expect("wall pair intersects");
    assert_eq!((b.x, b.y), (4724, 4724));
    let d = r.depot_in_middle().expect("wall pair intersects");
    assert_eq!((d.x, d.y), (4000, 4000));
}

#[test]
fn corner_depots_symmetric_and_equidistant() {
    let r = synthetic_ramp();
    let (c0, c1) = r.corner_depots().expect("corners exist");
    // Symmetric about the ramp's main axis: the pair's midpoint is
    // the midpoint of the wall-pair center (3500, 3500) and the
    // mid-wall depot position (4000, 4000).
    assert_eq!(c0.x + c1.x, 7500);
    assert_eq!(c0.y + c1.y, 7500);
    // Equidistant from the lower-tier centroid (1000, 1000).
    let lower = Point::new(1000, 1000);
    assert_eq!(c0.distance_squared(lower), c1.distance_squared(lower));
    assert_ne!((c0.x, c0.y), (c1.x, c1.y));
}

#[test]
fn degenerate_ramps_have_no_wall() {
    // A single upper tile yields no wall pair.
    let mut heights = Grid::new(10, 10, 0);
    heights.set(2, 2, 200);
    heights.set(1, 1, 50);
    let r = Ramp::new(vec![(2, 2), (1, 1)], &heights, Point::new(0, 0));
    assert_eq!(r.upper2_for_ramp_wall(), None);
    assert_eq!(r.barracks_in_middle(), None);
    assert_eq!(r.corner_depots(), None);

    // An empty ramp has no tiers at all.
    let empty = Ramp::default();
    assert_eq!(empty.upper(), Vec::<(usize, usize)>::new());
    assert_eq!(empty.top_center(), None);
}

#[test]
fn protoss_wall_positions_derive_from_the_pair() {
    let r = synthetic_ramp();
    let m = r.depot_in_middle().unwrap();
    let b = r.barracks_in_middle().unwrap();
    let pylon = r.protoss_wall_pylon().expect("pylon position exists");
    assert_eq!(pylon.x, m.x + (b.x - m.x) * 6);
    assert_eq!(pylon.y, m.y + (b.y - m.y) * 6);
    let (w1, _w2) = r.protoss_wall_buildings().expect("wall buildings exist");
    let (c0, c1) = r.corner_depots().unwrap();
    // The far corner is c1 after sorting by distance to the start.
    assert_eq!(w1.x, c1.x + (b.x - m.x));
    assert_eq!(w1.y, c1.y + (b.y - m.y));
    let warpin = r.protoss_wall_warpin().expect("warp-in position exists");
    assert_eq!(warpin.x, c0.x - (b.x - m.x));
    assert_eq!(warpin.y, c0.y - (b.y - m.y));
}
