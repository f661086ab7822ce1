use rust_sc2::expansion::{compute_expansions, dbscan, ResourcePoint};
use rust_sc2::geom::Point;
use rust_sc2::grid::Grid;

/// Eight mineral fields in a row near one buildable area.
fn mineral_row() -> Vec<ResourcePoint> {
    let mut v = Vec::new();
    for i in 0..8u64 {
        v.push(ResourcePoint {
            pos: Point::new(16_500 + (i as i64) * 1000, 20_500),
            tag: 100 + i,
            is_geyser: false,
        });
    }
    v
}

fn far_point() -> Point {
    Point::new(500, 500)
}

#[test]
fn clustered_minerals_form_one_group() {
    let v = mineral_row();
    let clusters = dbscan(&v);
    assert_eq!(clusters.len(), 1);
    assert_eq!(clusters[0].len(), 8);
}

#[test]
fn sparse_resources_form_no_group() {
    // Three resources cannot reach the four-neighbor threshold.
    let v = vec![
        ResourcePoint { pos: Point::new(10_500, 10_500), tag: 1, is_geyser: false },
        ResourcePoint { pos: Point::new(11_500, 10_500), tag: 2, is_geyser: false },
        ResourcePoint { pos: Point::new(12_500, 10_500), tag: 3, is_geyser: false },
    ];
    let clusters = dbscan(&v);
    assert_eq!(clusters.len(), 0);
}

#[test]
fn one_cluster_yields_one_expansion_and_recomputes_identically() {
    let v = mineral_row();
    let grid = Grid::new(40, 40, 0);
    let far = far_point();
    let first = compute_expansions(&v, &grid, far, far, far, far).expect("placement exists");
    assert_eq!(first.len(), 1);
    // The chosen tile clears six tiles below the mineral row, at a
    // column minimizing the total squared distance (the row mean lies
    // between two columns; the earlier offset wins the tie).
    assert_eq!((first[0].0.x, first[0].0.y), (19_500, 13_500));
    // Recomputing against the unchanged input returns the same list.
    let second = compute_expansions(&v, &grid, far, far, far, far).expect("placement exists");
    assert_eq!(first, second);
}

#[test]
fn expansion_tile_is_buildable_and_clears_every_resource() {
    let v = mineral_row();
    let grid = Grid::new(40, 40, 0);
    let far = far_point();
    let exps = compute_expansions(&v, &grid, far, far, far, far).expect("placement exists");
    let loc = exps[0].0;
    let tile = loc.tile();
    assert!(grid.is_free(tile.0, tile.1));
    for r in &v {
        // Farther than six tiles from every mineral of the group, so
        // the placement tile is distinct from every resource tile.
        assert!(loc.distance_squared(r.pos) > 36_000_000);
    }
}

#[test]
fn start_cluster_reuses_the_known_start_pair() {
    let v = mineral_row();
    let grid = Grid::new(40, 40, 0);
    // The start resource center sits on the cluster's snapped center.
    let start_loc = Point::new(24_500, 20_500);
    let start_center = Point::new(20_500, 20_500);
    let far = far_point();
    let exps = compute_expansions(&v, &grid, start_loc, start_center, far, far)
        .expect("start pair is reused");
    assert_eq!(exps.len(), 1);
    assert_eq!(exps[0], (start_loc, start_center));
}

#[test]
fn blocked_map_reports_a_data_invariant_error() {
    let v = mineral_row();
    // No buildable tile anywhere.
    let grid = Grid::new(40, 40, 1);
    let far = far_point();
    assert!(compute_expansions(&v, &grid, far, far, far, far).is_err());
}
