//! The one-time spatial analysis: density clustering of resource
//! positions into groups, and the per-group search for a legal
//! townhall placement tile.

use vstd::prelude::*;
use crate::geom::{spec_dist_sq, Point, HALF_TILE, SCALE};
use crate::grid::Grid;

verus! {

/// Squared clustering neighborhood radius: 8.5 tiles.
pub const NEIGHBOR_RADIUS_SQ: i64 = 72_250_000;

/// A cluster needs at least this many in-radius resources (the
/// resource itself included).
pub const MIN_NEIGHBORS: usize = 4;

/// One resource as the analysis reads it.
#[derive(Clone, Copy, Debug, PartialEq, Eq, Structural)]
pub struct ResourcePoint {
    pub pos: Point,
    pub tag: u64,
    pub is_geyser: bool,
}

/// Positions the analysis accepts: on-map, within 4500 tiles.
pub open spec fn res_wf(r: ResourcePoint) -> bool {
    0 <= r.pos.x <= 4_500_000 && 0 <= r.pos.y <= 4_500_000
}

pub open spec fn all_res_wf(s: Seq<ResourcePoint>) -> bool {
    forall|i: int| 0 <= i < s.len() ==> #[trigger] res_wf(s[i])
}

/// `j` lies within the clustering radius of `i`.
pub open spec fn is_neighbor(ps: Seq<ResourcePoint>, i: int, j: int) -> bool {
    spec_dist_sq(ps[i].pos, ps[j].pos) <= NEIGHBOR_RADIUS_SQ as int
}

/// The in-radius indices among the first `k`, ascending.
pub open spec fn neighbors_upto(ps: Seq<ResourcePoint>, i: int, k: int) -> Seq<usize>
    decreases k,
{
    if k <= 0 {
        Seq::empty()
    } else {
        neighbors_upto(ps, i, k - 1) + if is_neighbor(ps, i, k - 1) {
            seq![(k - 1) as usize]
        } else {
            Seq::<usize>::empty()
        }
    }
}

/// All in-radius indices of `i`, itself included, ascending.
pub open spec fn spec_neighbors_of(ps: Seq<ResourcePoint>, i: int) -> Seq<usize> {
    neighbors_upto(ps, i, ps.len() as int)
}

/// Indices of a neighbor list are in range.
pub proof fn lemma_neighbors_upto_range(ps: Seq<ResourcePoint>, i: int, k: int)
    requires
        k <= ps.len(),
    ensures
        forall|w: int|
            0 <= w < neighbors_upto(ps, i, k).len() ==> (#[trigger] neighbors_upto(ps, i, k)[w])
                < ps.len(),
    decreases k,
{
    if k > 0 {
        lemma_neighbors_upto_range(ps, i, k - 1);
        let pre = neighbors_upto(ps, i, k - 1);
        let cur = neighbors_upto(ps, i, k);
        assert forall|w: int| 0 <= w < cur.len() implies (#[trigger] cur[w]) < ps.len() by {
            if w < pre.len() {
                assert(cur[w] == pre[w]);
            } else {
                assert(cur[w] == (k - 1) as usize);
            }
        }
    }
}

/// Collect the in-radius indices of resource `i`.
fn neighbors_of(ps: &Vec<ResourcePoint>, i: usize) -> (r: Vec<usize>)
    requires
        all_res_wf(ps@),
        i < ps@.len(),
    ensures
        r@ == spec_neighbors_of(ps@, i as int),
        forall|w: int| 0 <= w < r@.len() ==> #[trigger] r@[w] < ps@.len(),
{
    let n: usize = ps.len();
    let mut r: Vec<usize> = Vec::new();
    let mut k: usize = 0;
    let pi: Point = ps[i].pos;
    while k < n
        invariant
            k <= n,
            n == ps@.len(),
            i < n,
            all_res_wf(ps@),
            pi == ps@[i as int].pos,
            r@ == neighbors_upto(ps@, i as int, k as int),
            forall|w: int| 0 <= w < r@.len() ==> #[trigger] r@[w] < ps@.len(),
        decreases n - k,
    {
        proof {
            assert(res_wf(ps@[i as int]) && res_wf(ps@[k as int]));
        }
        let d: i64 = pi.distance_squared(ps[k].pos);
        if d <= NEIGHBOR_RADIUS_SQ {
            r.push(k);
            proof {
                assert(neighbors_upto(ps@, i as int, k as int).push((k as usize))
                    =~= neighbors_upto(ps@, i as int, k as int + 1));
            }
        } else {
            proof {
                assert(neighbors_upto(ps@, i as int, k as int)
                    =~= neighbors_upto(ps@, i as int, k as int + 1));
            }
        }
        k = k + 1;
    }
    r
}

/// How many entries are still unlabeled.
pub open spec fn count_unlabeled(s: Seq<bool>) -> int
    decreases s.len(),
{
    if s.len() == 0 {
        0
    } else {
        count_unlabeled(s.drop_last()) + if !s.last() {
            1int
        } else {
            0int
        }
    }
}

pub proof fn lemma_count_unlabeled_nonneg(s: Seq<bool>)
    ensures
        count_unlabeled(s) >= 0,
    decreases s.len(),
{
    if s.len() > 0 {
        lemma_count_unlabeled_nonneg(s.drop_last());
    }
}

pub proof fn lemma_count_unlabeled_update(s: Seq<bool>, q: int)
    requires
        0 <= q < s.len(),
        !s[q],
    ensures
        count_unlabeled(s.update(q, true)) == count_unlabeled(s) - 1,
    decreases s.len(),
{
    let t = s.update(q, true);
    if q == s.len() - 1 {
        assert(t.drop_last() =~= s.drop_last());
    } else {
        assert(t.drop_last() =~= s.drop_last().update(q, true));
        lemma_count_unlabeled_update(s.drop_last(), q);
        assert(t.last() == s.last());
    }
}

pub proof fn lemma_count_unlabeled_le_len(s: Seq<bool>)
    ensures
        count_unlabeled(s) <= s.len(),
    decreases s.len(),
{
    if s.len() > 0 {
        lemma_count_unlabeled_le_len(s.drop_last());
    }
}

/// The cluster expansion: pop the queue front; an unlabeled index is
/// labeled and joins the cluster, and a core index (enough neighbors)
/// enqueues its whole neighborhood.
pub open spec fn bfs(
    ps: Seq<ResourcePoint>,
    labeled: Seq<bool>,
    queue: Seq<usize>,
    cluster: Seq<usize>,
) -> (Seq<bool>, Seq<usize>)
    decreases count_unlabeled(labeled), queue.len(),
    via bfs_decreases
{
    if queue.len() == 0 {
        (labeled, cluster)
    } else {
        let q = queue.first() as int;
        let rest = queue.drop_first();
        if q >= labeled.len() || labeled[q] {
            bfs(ps, labeled, rest, cluster)
        } else {
            let labeled2 = labeled.update(q, true);
            let cluster2 = cluster.push(queue.first());
            let nb = spec_neighbors_of(ps, q);
            if nb.len() >= MIN_NEIGHBORS {
                bfs(ps, labeled2, rest + nb, cluster2)
            } else {
                bfs(ps, labeled2, rest, cluster2)
            }
        }
    }
}

#[via_fn]
proof fn bfs_decreases(
    ps: Seq<ResourcePoint>,
    labeled: Seq<bool>,
    queue: Seq<usize>,
    cluster: Seq<usize>,
) {
    if queue.len() > 0 {
        let q = queue.first() as int;
        if q >= labeled.len() || labeled[q] {
        } else {
            lemma_count_unlabeled_update(labeled, q);
            lemma_count_unlabeled_nonneg(labeled.update(q, true));
        }
    }
}

/// A cluster gains at most one member per unlabeled resource.
pub proof fn lemma_bfs_cluster_len(
    ps: Seq<ResourcePoint>,
    labeled: Seq<bool>,
    queue: Seq<usize>,
    cluster: Seq<usize>,
)
    ensures
        bfs(ps, labeled, queue, cluster).1.len() <= cluster.len() + count_unlabeled(labeled),
    decreases count_unlabeled(labeled), queue.len(),
{
    lemma_count_unlabeled_nonneg(labeled);
    if queue.len() == 0 {
    } else {
        let q = queue.first() as int;
        let rest = queue.drop_first();
        if q >= labeled.len() || labeled[q] {
            lemma_bfs_cluster_len(ps, labeled, rest, cluster);
        } else {
            lemma_count_unlabeled_update(labeled, q);
            lemma_count_unlabeled_nonneg(labeled.update(q, true));
            let labeled2 = labeled.update(q, true);
            let cluster2 = cluster.push(queue.first());
            let nb = spec_neighbors_of(ps, q);
            if nb.len() >= MIN_NEIGHBORS {
                lemma_bfs_cluster_len(ps, labeled2, rest + nb, cluster2);
            } else {
                lemma_bfs_cluster_len(ps, labeled2, rest, cluster2);
            }
        }
    }
}

/// Run one cluster expansion from `seed`.
fn bfs_run(ps: &Vec<ResourcePoint>, labeled: &mut Vec<bool>, seed: usize) -> (cluster: Vec<
    usize,
>)
    requires
        all_res_wf(ps@),
        old(labeled)@.len() == ps@.len(),
        seed < ps@.len(),
    ensures
        bfs(ps@, old(labeled)@, seq![seed], Seq::empty()) == (final(labeled)@, cluster@),
        final(labeled)@.len() == ps@.len(),
        forall|w: int| 0 <= w < cluster@.len() ==> #[trigger] cluster@[w] < ps@.len(),
        cluster@.len() <= ps@.len(),
        !old(labeled)@[seed as int] ==> cluster@.len() >= 1,
{
    proof {
        lemma_bfs_cluster_len(ps@, old(labeled)@, seq![seed], Seq::empty());
        lemma_count_unlabeled_le_len(old(labeled)@);
    }
    let mut queue: Vec<usize> = Vec::new();
    queue.push(seed);
    let mut qi: usize = 0;
    let mut cluster: Vec<usize> = Vec::new();
    proof {
        assert(queue@.skip(0) =~= seq![seed]);
        assert(cluster@ =~= Seq::<usize>::empty());
        lemma_count_unlabeled_nonneg(labeled@);
    }
    while qi < queue.len()
        invariant
            all_res_wf(ps@),
            labeled@.len() == ps@.len(),
            qi <= queue@.len(),
            forall|w: int| 0 <= w < queue@.len() ==> #[trigger] queue@[w] < ps@.len(),
            forall|w: int| 0 <= w < cluster@.len() ==> #[trigger] cluster@[w] < ps@.len(),
            bfs(ps@, old(labeled)@, seq![seed], Seq::empty()) == bfs(
                ps@,
                labeled@,
                queue@.skip(qi as int),
                cluster@,
            ),
            count_unlabeled(labeled@) >= 0,
            queue@.len() >= 1,
            queue@[0] == seed,
            qi == 0 ==> labeled@ == old(labeled)@,
            !old(labeled)@[seed as int] && qi > 0 ==> cluster@.len() >= 1,
        decreases count_unlabeled(labeled@), queue@.len() - qi,
    {
        let q: usize = queue[qi];
        proof {
            assert(queue@.skip(qi as int).first() == q);
            assert(queue@.skip(qi as int).drop_first() =~= queue@.skip(qi as int + 1));
        }
        if labeled[q] {
            qi = qi + 1;
        } else {
            let ghost lab_before = labeled@;
            labeled.set(q, true);
            cluster.push(q);
            proof {
                lemma_count_unlabeled_update(lab_before, q as int);
            }
            let nb: Vec<usize> = neighbors_of(ps, q);
            if nb.len() >= MIN_NEIGHBORS {
                let mut k: usize = 0;
                let ghost queue_before = queue@;
                let n2: usize = nb.len();
                while k < n2
                    invariant
                        k <= n2,
                        n2 == nb@.len(),
                        queue@ == queue_before + nb@.take(k as int),
                        forall|w: int| 0 <= w < nb@.len() ==> #[trigger] nb@[w] < ps@.len(),
                        forall|w: int|
                            0 <= w < queue_before.len() ==> #[trigger] queue_before[w]
                                < ps@.len(),
                        forall|w: int| 0 <= w < queue@.len() ==> #[trigger] queue@[w] < ps@.len(),
                    decreases n2 - k,
                {
                    queue.push(nb[k]);
                    proof {
                        assert(queue_before + nb@.take(k as int + 1) =~= (queue_before
                            + nb@.take(k as int)).push(nb@[k as int]));
                    }
                    k = k + 1;
                }
                proof {
                    assert(nb@.take(n2 as int) =~= nb@);
                    assert(queue@.skip(qi as int + 1) =~= queue_before.skip(qi as int + 1)
                        + nb@);
                }
            }
            qi = qi + 1;
            proof {
                lemma_count_unlabeled_nonneg(labeled@);
            }
        }
    }
    proof {
        assert(queue@.skip(qi as int).len() == 0);
        assert(queue@.skip(qi as int) =~= Seq::<usize>::empty());
    }
    cluster
}

/// The cluster scan: each still-unlabeled core resource opens one
/// cluster, expanded at once.
pub open spec fn dbscan_from(ps: Seq<ResourcePoint>, labeled: Seq<bool>, i: int) -> Seq<
    Seq<usize>,
>
    decreases ps.len() - i,
{
    if i < 0 || i >= ps.len() {
        Seq::empty()
    } else {
        if i < labeled.len() && !labeled[i] && spec_neighbors_of(ps, i).len() >= MIN_NEIGHBORS {
            let r = bfs(ps, labeled, seq![i as usize], Seq::empty());
            seq![r.1] + dbscan_from(ps, r.0, i + 1)
        } else {
            dbscan_from(ps, labeled, i + 1)
        }
    }
}

/// The resource groups: density clusters of the resource list, in
/// first-seed order. Resources with fewer than `MIN_NEIGHBORS`
/// in-radius peers that no cluster reaches stay unclustered.
pub open spec fn spec_dbscan(ps: Seq<ResourcePoint>) -> Seq<Seq<usize>> {
    dbscan_from(ps, Seq::new(ps.len(), |i: int| false), 0)
}

/// Cluster the resource list.
pub fn dbscan(ps: &Vec<ResourcePoint>) -> (r: Vec<Vec<usize>>)
    requires
        all_res_wf(ps@),
    ensures
        r@.map_values(|c: Vec<usize>| c@) == spec_dbscan(ps@),
        forall|g: int, w: int|
            0 <= g < r@.len() && 0 <= w < r@[g]@.len() ==> #[trigger] r@[g]@[w] < ps@.len(),
        forall|g: int| 0 <= g < r@.len() ==> 1 <= (#[trigger] r@[g]@).len() <= ps@.len(),
{
    let n: usize = ps.len();
    let mut labeled: Vec<bool> = Vec::new();
    let mut k: usize = 0;
    while k < n
        invariant
            k <= n,
            labeled@.len() == k,
            forall|w: int| 0 <= w < k ==> !(#[trigger] labeled@[w]),
        decreases n - k,
    {
        labeled.push(false);
        k = k + 1;
    }
    proof {
        assert(labeled@ =~= Seq::new(ps@.len(), |i: int| false));
    }
    let mut clusters: Vec<Vec<usize>> = Vec::new();
    let mut i: usize = 0;
    while i < n
        invariant
            i <= n,
            n == ps@.len(),
            all_res_wf(ps@),
            labeled@.len() == n,
            spec_dbscan(ps@) == clusters@.map_values(|c: Vec<usize>| c@) + dbscan_from(
                ps@,
                labeled@,
                i as int,
            ),
            forall|g: int, w: int|
                0 <= g < clusters@.len() && 0 <= w < clusters@[g]@.len()
                    ==> #[trigger] clusters@[g]@[w] < ps@.len(),
            forall|g: int| 0 <= g < clusters@.len() ==> 1 <= (#[trigger] clusters@[g]@).len()
                <= ps@.len(),
        decreases n - i,
    {
        let nb: Vec<usize> = neighbors_of(ps, i);
        let is_core: bool = nb.len() >= MIN_NEIGHBORS;
        if !labeled[i] && is_core {
            let cluster: Vec<usize> = bfs_run(ps, &mut labeled, i);
            clusters.push(cluster);
            proof {
                assert(clusters@.map_values(|c: Vec<usize>| c@)
                    =~= clusters@.drop_last().map_values(|c: Vec<usize>| c@).push(
                    clusters@.last()@,
                ));
                assert((clusters@.drop_last().map_values(|c: Vec<usize>| c@).push(
                    clusters@.last()@,
                )) + dbscan_from(ps@, labeled@, i as int + 1)
                    =~= clusters@.drop_last().map_values(|c: Vec<usize>| c@) + (seq![
                    clusters@.last()@,
                ] + dbscan_from(ps@, labeled@, i as int + 1)));
            }
        }
        i = i + 1;
    }
    proof {
        assert(dbscan_from(ps@, labeled@, n as int) =~= Seq::<Seq<usize>>::empty());
        assert(clusters@.map_values(|c: Vec<usize>| c@) + Seq::<Seq<usize>>::empty()
            =~= clusters@.map_values(|c: Vec<usize>| c@));
    }
    clusters
}

/// Minimum squared clearance between a placement tile and a geyser.
pub const GEYSER_CLEARANCE_SQ: i64 = 49_000_000;

/// Minimum squared clearance between a placement tile and a mineral
/// field.
pub const MINERAL_CLEARANCE_SQ: i64 = 36_000_000;

/// A snapped group center this close (squared) to a start resource
/// center reuses the known start location.
pub const START_CENTER_TOLERANCE_SQ: i64 = 16_000_000;

/// The search disk: integer tile offsets within radius eight, in row
/// scan order.
pub open spec fn offsets_from(x: int, y: int) -> Seq<(i64, i64)>
    decreases 8 - x, 8 - y,
{
    if x > 7 || x < -7 || y < -7 {
        Seq::empty()
    } else if y > 7 {
        offsets_from(x + 1, -7)
    } else {
        (if x * x + y * y <= 64 {
            seq![(x as i64, y as i64)]
        } else {
            Seq::<(i64, i64)>::empty()
        }) + offsets_from(x, y + 1)
    }
}

pub open spec fn spec_offsets() -> Seq<(i64, i64)> {
    offsets_from(-7, -7)
}

/// Build the offset disk.
pub fn build_offsets() -> (r: Vec<(i64, i64)>)
    ensures
        r@ == spec_offsets(),
        forall|k: int|
            0 <= k < r@.len() ==> -7 <= (#[trigger] r@[k]).0 <= 7 && -7 <= r@[k].1 <= 7,
{
    let mut r: Vec<(i64, i64)> = Vec::new();
    let mut x: i64 = -7;
    proof {
        assert(spec_offsets() =~= r@ + offsets_from(-7, -7));
    }
    while x <= 7
        invariant
            -7 <= x <= 8,
            spec_offsets() == r@ + offsets_from(x as int, -7),
            forall|k: int|
                0 <= k < r@.len() ==> -7 <= (#[trigger] r@[k]).0 <= 7 && -7 <= r@[k].1 <= 7,
        decreases 8 - x,
    {
        let mut y: i64 = -7;
        while y <= 7
            invariant
                -7 <= x <= 7,
                -7 <= y <= 8,
                spec_offsets() == r@ + offsets_from(x as int, y as int),
                forall|k: int|
                    0 <= k < r@.len() ==> -7 <= (#[trigger] r@[k]).0 <= 7 && -7 <= r@[k].1
                        <= 7,
            decreases 8 - y,
        {
            proof {
                assert(0 <= x * x <= 49 && 0 <= y * y <= 49) by (nonlinear_arith)
                    requires
                        -7 <= x <= 7 && -7 <= y <= 7,
                ;
            }
            if x * x + y * y <= 64 {
                r.push((x, y));
                proof {
                    assert(offsets_from(x as int, y as int) == seq![(x, y)] + offsets_from(
                        x as int,
                        y as int + 1,
                    ));
                    assert((r@.drop_last() + (seq![(x, y)] + offsets_from(
                        x as int,
                        y as int + 1,
                    ))) =~= r@ + offsets_from(x as int, y as int + 1));
                }
            } else {
                proof {
                    assert(offsets_from(x as int, y as int) =~= Seq::<(i64, i64)>::empty()
                        + offsets_from(x as int, y as int + 1));
                    assert(r@ + (Seq::<(i64, i64)>::empty() + offsets_from(
                        x as int,
                        y as int + 1,
                    )) =~= r@ + offsets_from(x as int, y as int + 1));
                }
            }
            y = y + 1;
        }
        proof {
            assert(offsets_from(x as int, 8) == offsets_from(x as int + 1, -7));
        }
        x = x + 1;
    }
    proof {
        assert(offsets_from(8, -7) =~= Seq::<(i64, i64)>::empty());
        assert(r@ + Seq::<(i64, i64)>::empty() =~= r@);
    }
    r
}

/// The clearance a resource demands of a placement tile.
pub open spec fn spec_clearance(r: ResourcePoint) -> int {
    if r.is_geyser {
        GEYSER_CLEARANCE_SQ as int
    } else {
        MINERAL_CLEARANCE_SQ as int
    }
}

/// A legal placement: an on-map, buildable tile clearing every
/// resource of the group by that resource's footprint distance.
pub open spec fn spec_candidate_ok(grid: Grid, group: Seq<ResourcePoint>, pos: Point) -> bool {
    &&& pos.x >= 0 && pos.y >= 0
    &&& grid.spec_in_bounds(pos.x as int / (SCALE as int), pos.y as int / (SCALE as int))
    &&& grid.spec_at(pos.x as int / (SCALE as int), pos.y as int / (SCALE as int)) == 0
    &&& forall|i: int|
        0 <= i < group.len() ==> spec_dist_sq(pos, (#[trigger] group[i]).pos) > spec_clearance(
            group[i],
        )
}

/// Total squared distance from `pos` to the group's resources.
pub open spec fn spec_dist_sum(group: Seq<ResourcePoint>, pos: Point) -> int
    decreases group.len(),
{
    if group.len() == 0 {
        0
    } else {
        spec_dist_sum(group.drop_last(), pos) + spec_dist_sq(pos, group.last().pos)
    }
}

/// Judge one candidate: its total distance when legal.
fn eval_candidate(grid: &Grid, group: &Vec<ResourcePoint>, pos: Point) -> (r: Option<i64>)
    requires
        grid.wf(),
        all_res_wf(group@),
        group@.len() <= 10_000,
        -8_000_000 <= pos.x <= 8_000_000 && -8_000_000 <= pos.y <= 8_000_000,
    ensures
        r is Some <==> spec_candidate_ok(*grid, group@, pos),
        r is Some ==> r->0 == spec_dist_sum(group@, pos),
{
    if pos.x < 0 || pos.y < 0 {
        return None;
    }
    let t: (usize, usize) = pos.tile();
    if !grid.in_bounds(t.0, t.1) {
        return None;
    }
    if !grid.is_free(t.0, t.1) {
        return None;
    }
    let n: usize = group.len();
    let mut sum: i64 = 0;
    let mut i: usize = 0;
    while i < n
        invariant
            i <= n,
            n == group@.len() <= 10_000,
            all_res_wf(group@),
            -8_000_000 <= pos.x <= 8_000_000 && -8_000_000 <= pos.y <= 8_000_000,
            sum == spec_dist_sum(group@.take(i as int), pos),
            0 <= sum <= i * 320_000_000_000_000,
            forall|w: int|
                0 <= w < i ==> spec_dist_sq(pos, (#[trigger] group@[w]).pos) > spec_clearance(
                    group@[w],
                ),
        decreases n - i,
    {
        let rp: ResourcePoint = group[i];
        proof {
            assert(res_wf(group@[i as int]));
        }
        let d: i64 = pos.distance_squared(rp.pos);
        proof {
            let dx = pos.x - rp.pos.x;
            let dy = pos.y - rp.pos.y;
            assert(0 <= dx * dx + dy * dy <= 320_000_000_000_000) by (nonlinear_arith)
                requires
                    -12_500_000 <= dx <= 12_500_000 && -12_500_000 <= dy <= 12_500_000,
            ;
            assert(group@.take(i as int + 1).drop_last() =~= group@.take(i as int));
            assert(group@.take(i as int + 1).last() == group@[i as int]);
        }
        let clearance: i64 = if rp.is_geyser {
            GEYSER_CLEARANCE_SQ
        } else {
            MINERAL_CLEARANCE_SQ
        };
        if d <= clearance {
            return None;
        }
        sum = sum + d;
        i = i + 1;
    }
    proof {
        assert(group@.take(n as int) =~= group@);
    }
    Some(sum)
}

/// Fold one offset into the running best candidate: a legal position
/// with a strictly smaller distance total replaces the best; an
/// earlier candidate keeps ties.
pub open spec fn spec_step_best(
    acc: Option<(Point, int)>,
    grid: Grid,
    group: Seq<ResourcePoint>,
    center: Point,
    off: (i64, i64),
) -> Option<(Point, int)> {
    let pos = Point { x: (center.x + off.0 * SCALE) as i64, y: (center.y + off.1 * SCALE) as i64 };
    if spec_candidate_ok(grid, group, pos) {
        let s = spec_dist_sum(group, pos);
        match acc {
            Option::None => Some((pos, s)),
            Some(a) => if s < a.1 {
                Some((pos, s))
            } else {
                acc
            },
        }
    } else {
        acc
    }
}

/// The best legal placement over an offset list, first offset winning
/// ties.
pub open spec fn spec_search(
    acc: Option<(Point, int)>,
    grid: Grid,
    group: Seq<ResourcePoint>,
    center: Point,
    offs: Seq<(i64, i64)>,
) -> Option<(Point, int)>
    decreases offs.len(),
{
    if offs.len() == 0 {
        acc
    } else {
        spec_search(
            spec_step_best(acc, grid, group, center, offs.first()),
            grid,
            group,
            center,
            offs.drop_first(),
        )
    }
}

/// Whatever the search returns is a legal placement.
pub proof fn lemma_search_ok(
    acc: Option<(Point, int)>,
    grid: Grid,
    group: Seq<ResourcePoint>,
    center: Point,
    offs: Seq<(i64, i64)>,
)
    requires
        acc is Some ==> spec_candidate_ok(grid, group, (acc->0).0),
    ensures
        spec_search(acc, grid, group, center, offs) is Some ==> spec_candidate_ok(
            grid,
            group,
            (spec_search(acc, grid, group, center, offs)->0).0,
        ),
    decreases offs.len(),
{
    if offs.len() > 0 {
        lemma_search_ok(
            spec_step_best(acc, grid, group, center, offs.first()),
            grid,
            group,
            center,
            offs.drop_first(),
        );
    }
}

/// The exec view of a running best candidate.
pub open spec fn best_view(o: Option<(Point, i64)>) -> Option<(Point, int)> {
    match o {
        Option::None => Option::None,
        Some((p, s)) => Some((p, s as int)),
    }
}

/// Scan the offset disk for the best legal placement around `center`.
fn search_placement(
    grid: &Grid,
    group: &Vec<ResourcePoint>,
    center: Point,
    offsets: &Vec<(i64, i64)>,
) -> (r: Option<(Point, i64)>)
    requires
        grid.wf(),
        all_res_wf(group@),
        group@.len() <= 10_000,
        0 <= center.x <= 4_600_000 && 0 <= center.y <= 4_600_000,
        forall|k: int|
            0 <= k < offsets@.len() ==> -7 <= (#[trigger] offsets@[k]).0 <= 7 && -7
                <= offsets@[k].1 <= 7,
    ensures
        best_view(r) == spec_search(
            Option::None,
            *grid,
            group@,
            center,
            offsets@,
        ),
{
    let n: usize = offsets.len();
    let mut best: Option<(Point, i64)> = None;
    let mut i: usize = 0;
    proof {
        assert(offsets@.skip(0) =~= offsets@);
    }
    while i < n
        invariant
            i <= n,
            n == offsets@.len(),
            grid.wf(),
            all_res_wf(group@),
            group@.len() <= 10_000,
            0 <= center.x <= 4_600_000 && 0 <= center.y <= 4_600_000,
            forall|k: int|
                0 <= k < offsets@.len() ==> -7 <= (#[trigger] offsets@[k]).0 <= 7 && -7
                    <= offsets@[k].1 <= 7,
            spec_search(Option::None, *grid, group@, center, offsets@) == spec_search(
                best_view(best),
                *grid,
                group@,
                center,
                offsets@.skip(i as int),
            ),
            best is Some ==> (best->0).1 == spec_dist_sum(group@, (best->0).0),
        decreases n - i,
    {
        let off: (i64, i64) = offsets[i];
        let pos: Point = Point::new(center.x + off.0 * SCALE, center.y + off.1 * SCALE);
        proof {
            assert(-7_000 <= off.0 * SCALE <= 7_000 && -7_000 <= off.1 * SCALE <= 7_000)
                by (nonlinear_arith)
                requires
                    -7 <= off.0 <= 7 && -7 <= off.1 <= 7 && SCALE == 1000,
            ;
            assert(offsets@.skip(i as int).first() == off);
            assert(offsets@.skip(i as int).drop_first() =~= offsets@.skip(i as int + 1));
        }
        match eval_candidate(grid, group, pos) {
            Some(s) => {
                let replace: bool = match &best {
                    Option::None => true,
                    Some(b) => s < b.1,
                };
                if replace {
                    best = Some((pos, s));
                }
            },
            Option::None => {},
        }
        i = i + 1;
    }
    proof {
        assert(offsets@.skip(n as int) =~= Seq::<(i64, i64)>::empty());
    }
    best
}

/// Sum of the group's x coordinates, in milli-tiles.
pub open spec fn spec_res_sum_x(group: Seq<ResourcePoint>) -> int
    decreases group.len(),
{
    if group.len() == 0 {
        0
    } else {
        spec_res_sum_x(group.drop_last()) + group.last().pos.x
    }
}

pub open spec fn spec_res_sum_y(group: Seq<ResourcePoint>) -> int
    decreases group.len(),
{
    if group.len() == 0 {
        0
    } else {
        spec_res_sum_y(group.drop_last()) + group.last().pos.y
    }
}

pub proof fn lemma_res_sum_bounds(group: Seq<ResourcePoint>)
    requires
        all_res_wf(group),
    ensures
        0 <= spec_res_sum_x(group) <= group.len() * 4_500_000,
        0 <= spec_res_sum_y(group) <= group.len() * 4_500_000,
    decreases group.len(),
{
    if group.len() > 0 {
        assert(forall|i: int|
            0 <= i < group.drop_last().len() ==> #[trigger] res_wf(group.drop_last()[i]));
        lemma_res_sum_bounds(group.drop_last());
        assert(res_wf(group.last()));
        assert((group.len() - 1) * 4_500_000 + 4_500_000 == group.len() * 4_500_000)
            by (nonlinear_arith);
    } else {
        assert(group.len() * 4_500_000 == 0) by (nonlinear_arith)
            requires
                group.len() == 0,
        ;
    }
}

/// The group's mean position, snapped to the center of its tile.
pub open spec fn spec_group_center(group: Seq<ResourcePoint>) -> Point {
    if group.len() == 0 {
        Point { x: 0, y: 0 }
    } else {
        let n = group.len() as int;
        let mx = spec_res_sum_x(group) / n;
        let my = spec_res_sum_y(group) / n;
        Point {
            x: ((mx / (SCALE as int)) * (SCALE as int) + HALF_TILE as int) as i64,
            y: ((my / (SCALE as int)) * (SCALE as int) + HALF_TILE as int) as i64,
        }
    }
}

/// Compute the snapped group center.
fn group_center(group: &Vec<ResourcePoint>) -> (r: Point)
    requires
        all_res_wf(group@),
        1 <= group@.len() <= 10_000,
    ensures
        r == spec_group_center(group@),
        0 <= r.x <= 4_500_500 && 0 <= r.y <= 4_500_500,
{
    let n: usize = group.len();
    let mut sx: i64 = 0;
    let mut sy: i64 = 0;
    let mut i: usize = 0;
    while i < n
        invariant
            i <= n,
            n == group@.len() <= 10_000,
            all_res_wf(group@),
            sx == spec_res_sum_x(group@.take(i as int)),
            sy == spec_res_sum_y(group@.take(i as int)),
            0 <= sx <= i * 4_500_000,
            0 <= sy <= i * 4_500_000,
        decreases n - i,
    {
        let rp: ResourcePoint = group[i];
        proof {
            assert(res_wf(group@[i as int]));
            assert(group@.take(i as int + 1).drop_last() =~= group@.take(i as int));
            assert(group@.take(i as int + 1).last() == group@[i as int]);
        }
        sx = sx + rp.pos.x;
        sy = sy + rp.pos.y;
        i = i + 1;
    }
    proof {
        assert(group@.take(n as int) =~= group@);
        vstd::arithmetic::div_mod::lemma_div_pos_is_pos(sx as int, n as int);
        vstd::arithmetic::div_mod::lemma_div_pos_is_pos(sy as int, n as int);
        vstd::arithmetic::div_mod::lemma_div_is_ordered(sx as int, (n as int) * 4_500_000, n as int);
        vstd::arithmetic::div_mod::lemma_div_is_ordered(sy as int, (n as int) * 4_500_000, n as int);
        vstd::arithmetic::div_mod::lemma_div_multiples_vanish(4_500_000, n as int);
    }
    let mx: i64 = sx / (n as i64);
    let my: i64 = sy / (n as i64);
    proof {
        vstd::arithmetic::div_mod::lemma_div_pos_is_pos(mx as int, SCALE as int);
        vstd::arithmetic::div_mod::lemma_div_pos_is_pos(my as int, SCALE as int);
        vstd::arithmetic::div_mod::lemma_div_is_ordered(mx as int, 4_500_000, SCALE as int);
        vstd::arithmetic::div_mod::lemma_div_is_ordered(my as int, 4_500_000, SCALE as int);
        assert(0 <= (mx / SCALE) * SCALE <= 4_500_000) by (nonlinear_arith)
            requires
                0 <= mx / SCALE <= 4_500,
                SCALE == 1000,
        ;
        assert(0 <= (my / SCALE) * SCALE <= 4_500_000) by (nonlinear_arith)
            requires
                0 <= my / SCALE <= 4_500,
                SCALE == 1000,
        ;
    }
    Point::new((mx / SCALE) * SCALE + HALF_TILE, (my / SCALE) * SCALE + HALF_TILE)
}

/// The expansion computed for one resource group: the start pair is
/// reused when the snapped center lies by the start resource center;
/// otherwise the best legal placement over the offset disk, with the
/// group centroid shifted onto it. `None` when the search exhausts
/// the disk.
pub open spec fn spec_expansion_for_group(
    grid: Grid,
    group: Seq<ResourcePoint>,
    start_location: Point,
    start_center: Point,
    enemy_start: Point,
    enemy_center: Point,
) -> Option<(Point, Point)> {
    if group.len() == 0 {
        Option::None
    } else {
        let center = spec_group_center(group);
        if spec_dist_sq(center, start_center) < START_CENTER_TOLERANCE_SQ as int {
            Some((start_location, start_center))
        } else if spec_dist_sq(center, enemy_center) < START_CENTER_TOLERANCE_SQ as int {
            Some((enemy_start, enemy_center))
        } else {
            match spec_search(Option::None, grid, group, center, spec_offsets()) {
                Option::None => Option::None,
                Some((p, s)) => {
                    let n1 = group.len() as int + 1;
                    Some(
                        (
                            p,
                            Point {
                                x: ((spec_res_sum_x(group) + p.x) / n1) as i64,
                                y: ((spec_res_sum_y(group) + p.y) / n1) as i64,
                            },
                        ),
                    )
                },
            }
        }
    }
}

/// Compute one group's expansion.
fn expansion_for_group(
    grid: &Grid,
    group: &Vec<ResourcePoint>,
    offsets: &Vec<(i64, i64)>,
    start_location: Point,
    start_center: Point,
    enemy_start: Point,
    enemy_center: Point,
) -> (r: Option<(Point, Point)>)
    requires
        grid.wf(),
        all_res_wf(group@),
        1 <= group@.len() <= 10_000,
        offsets@ == spec_offsets(),
        forall|k: int|
            0 <= k < offsets@.len() ==> -7 <= (#[trigger] offsets@[k]).0 <= 7 && -7
                <= offsets@[k].1 <= 7,
        start_center.wf() && enemy_center.wf(),
    ensures
        r == spec_expansion_for_group(
            *grid,
            group@,
            start_location,
            start_center,
            enemy_start,
            enemy_center,
        ),
{
    let center: Point = group_center(group);
    let ds: i64 = center.distance_squared(start_center);
    if ds < START_CENTER_TOLERANCE_SQ {
        return Some((start_location, start_center));
    }
    let de: i64 = center.distance_squared(enemy_center);
    if de < START_CENTER_TOLERANCE_SQ {
        return Some((enemy_start, enemy_center));
    }
    match search_placement(grid, group, center, offsets) {
        Some((p, s)) => {
            proof {
                lemma_search_ok(Option::None, *grid, group@, center, offsets@);
                lemma_res_sum_bounds(group@);
                vstd::arithmetic::div_mod::lemma_div_pos_is_pos(
                    spec_res_sum_x(group@) + p.x,
                    group@.len() as int + 1,
                );
                vstd::arithmetic::div_mod::lemma_div_pos_is_pos(
                    spec_res_sum_y(group@) + p.y,
                    group@.len() as int + 1,
                );
            }
            let n: usize = group.len();
            let mut sx: i64 = 0;
            let mut sy: i64 = 0;
            let mut i: usize = 0;
            while i < n
                invariant
                    i <= n,
                    n == group@.len() <= 10_000,
                    all_res_wf(group@),
                    sx == spec_res_sum_x(group@.take(i as int)),
                    sy == spec_res_sum_y(group@.take(i as int)),
                    0 <= sx <= i * 4_500_000,
                    0 <= sy <= i * 4_500_000,
                decreases n - i,
            {
                let rp: ResourcePoint = group[i];
                proof {
                    assert(res_wf(group@[i as int]));
                    assert(group@.take(i as int + 1).drop_last() =~= group@.take(i as int));
                    assert(group@.take(i as int + 1).last() == group@[i as int]);
                }
                sx = sx + rp.pos.x;
                sy = sy + rp.pos.y;
                i = i + 1;
            }
            proof {
                assert(group@.take(n as int) =~= group@);
            }
            let cx: i64 = (sx + p.x) / (n as i64 + 1);
            let cy: i64 = (sy + p.y) / (n as i64 + 1);
            Some((p, Point::new(cx, cy)))
        },
        Option::None => Option::None,
    }
}

/// A group of fewer than `MIN_NEIGHBORS` resources can never arise
/// from the clustering; a search failure on a proper group is an
/// unrecoverable map-data violation.
#[derive(Clone, Copy, Debug, PartialEq, Eq, Structural)]
pub struct DataInvariantError;

/// The resources of one cluster.
pub open spec fn spec_group_points(ps: Seq<ResourcePoint>, idxs: Seq<usize>) -> Seq<
    ResourcePoint,
> {
    idxs.map_values(|i: usize| ps[i as int])
}

/// The per-group expansion results, one per cluster.
pub open spec fn spec_group_results(
    ps: Seq<ResourcePoint>,
    grid: Grid,
    start_location: Point,
    start_center: Point,
    enemy_start: Point,
    enemy_center: Point,
) -> Seq<Option<(Point, Point)>> {
    spec_dbscan(ps).map_values(
        |cl: Seq<usize>|
            spec_expansion_for_group(
                grid,
                spec_group_points(ps, cl),
                start_location,
                start_center,
                enemy_start,
                enemy_center,
            ),
    )
}

/// Compute every expansion of the map: cluster the resources, then
/// place one townhall location per cluster. The whole list is a pure
/// function of the inputs; identical resource positions always yield
/// the identical ordered expansion list. An error reports a cluster
/// whose offset disk holds no legal placement.
pub fn compute_expansions(
    resources: &Vec<ResourcePoint>,
    grid: &Grid,
    start_location: Point,
    start_center: Point,
    enemy_start: Point,
    enemy_center: Point,
) -> (r: Result<Vec<(Point, Point)>, DataInvariantError>)
    requires
        grid.wf(),
        all_res_wf(resources@),
        resources@.len() <= 10_000,
        start_center.wf() && enemy_center.wf(),
    ensures
        ({
            let results = spec_group_results(
                resources@,
                *grid,
                start_location,
                start_center,
                enemy_start,
                enemy_center,
            );
            match r {
                Ok(v) => v@.len() == results.len() && forall|g: int|
                    0 <= g < results.len() ==> results[g] == Some(#[trigger] v@[g]),
                Err(_) => exists|g: int| 0 <= g < results.len() && results[g] is None,
            }
        }),
{
    let clusters: Vec<Vec<usize>> = dbscan(resources);
    let offsets: Vec<(i64, i64)> = build_offsets();
    let mut out: Vec<(Point, Point)> = Vec::new();
    let ghost results = spec_group_results(
        resources@,
        *grid,
        start_location,
        start_center,
        enemy_start,
        enemy_center,
    );
    let m: usize = clusters.len();
    proof {
        assert(results.len() == m);
    }
    let mut g: usize = 0;
    while g < m
        invariant
            g <= m,
            m == clusters@.len(),
            grid.wf(),
            all_res_wf(resources@),
            resources@.len() <= 10_000,
            start_center.wf() && enemy_center.wf(),
            offsets@ == spec_offsets(),
            forall|k: int|
                0 <= k < offsets@.len() ==> -7 <= (#[trigger] offsets@[k]).0 <= 7 && -7
                    <= offsets@[k].1 <= 7,
            results == spec_group_results(
                resources@,
                *grid,
                start_location,
                start_center,
                enemy_start,
                enemy_center,
            ),
            results.len() == m,
            forall|w: int, j: int|
                0 <= w < clusters@.len() && 0 <= j < clusters@[w]@.len()
                    ==> #[trigger] clusters@[w]@[j] < resources@.len(),
            forall|w: int|
                0 <= w < clusters@.len() ==> 1 <= (#[trigger] clusters@[w]@).len()
                    <= resources@.len(),
            forall|w: int|
                0 <= w < clusters@.len() ==> #[trigger] results[w]
                    == spec_expansion_for_group(
                    *grid,
                    spec_group_points(resources@, clusters@[w]@),
                    start_location,
                    start_center,
                    enemy_start,
                    enemy_center,
                ),
            out@.len() == g,
            forall|w: int| 0 <= w < g ==> results[w] == Some(#[trigger] out@[w]),
        decreases m - g,
    {
        let cluster: &Vec<usize> = &clusters[g];
        let cn: usize = cluster.len();
        let mut group: Vec<ResourcePoint> = Vec::new();
        let mut j: usize = 0;
        while j < cn
            invariant
                j <= cn,
                cn == cluster@.len(),
                cluster@ == clusters@[g as int]@,
                g < clusters@.len(),
                all_res_wf(resources@),
                forall|w: int, jj: int|
                    0 <= w < clusters@.len() && 0 <= jj < clusters@[w]@.len()
                        ==> #[trigger] clusters@[w]@[jj] < resources@.len(),
                group@ == spec_group_points(resources@, cluster@.take(j as int)),
            decreases cn - j,
        {
            let idx: usize = cluster[j];
            group.push(resources[idx]);
            proof {
                assert(spec_group_points(resources@, cluster@.take(j as int + 1))
                    =~= spec_group_points(resources@, cluster@.take(j as int)).push(
                    resources@[cluster@[j as int] as int],
                ));
            }
            j = j + 1;
        }
        proof {
            assert(cluster@.take(cn as int) =~= cluster@);
            assert(forall|i: int|
                0 <= i < group@.len() ==> #[trigger] res_wf(group@[i]));
            assert(1 <= group@.len() <= 10_000);
        }
        match expansion_for_group(
            grid,
            &group,
            &offsets,
            start_location,
            start_center,
            enemy_start,
            enemy_center,
        ) {
            Some(e) => {
                out.push(e);
            },
            Option::None => {
                proof {
                    assert(results[g as int] is None);
                }
                return Err(DataInvariantError);
            },
        }
        g = g + 1;
    }
    Ok(out)
}

/// Expansion computation is deterministic: any two outputs meeting
/// the computation's contract on identical inputs are the identical
/// ordered list.
pub proof fn lemma_expansions_deterministic(
    a: Seq<(Point, Point)>,
    b: Seq<(Point, Point)>,
    results: Seq<Option<(Point, Point)>>,
)
    requires
        a.len() == results.len(),
        forall|g: int| 0 <= g < results.len() ==> results[g] == Some(#[trigger] a[g]),
        b.len() == results.len(),
        forall|g: int| 0 <= g < results.len() ==> results[g] == Some(#[trigger] b[g]),
    ensures
        a == b,
{
    assert forall|g: int| 0 <= g < results.len() implies a[g] == b[g] by {
        assert(results[g] == Some(a[g]) && results[g] == Some(b[g]));
    }
    assert(a =~= b);
}

/// Every expansion placed by the disk search sits on a buildable
/// tile and clears every resource of its group by more than the
/// resource's footprint clearance — in particular it coincides with
/// no resource tile, and its centroid is a plain integer point at a
/// well-defined (finite) squared distance from every group member.
pub proof fn lemma_expansion_placement_legal(
    grid: Grid,
    group: Seq<ResourcePoint>,
    start_location: Point,
    start_center: Point,
    enemy_start: Point,
    enemy_center: Point,
)
    requires
        group.len() > 0,
        spec_dist_sq(spec_group_center(group), start_center) >= START_CENTER_TOLERANCE_SQ as int,
        spec_dist_sq(spec_group_center(group), enemy_center) >= START_CENTER_TOLERANCE_SQ as int,
        spec_expansion_for_group(
            grid,
            group,
            start_location,
            start_center,
            enemy_start,
            enemy_center,
        ) is Some,
    ensures
        ({
            let loc = (spec_expansion_for_group(
                grid,
                group,
                start_location,
                start_center,
                enemy_start,
                enemy_center,
            )->0).0;
            spec_candidate_ok(grid, group, loc) && forall|i: int|
                0 <= i < group.len() ==> spec_dist_sq(loc, (#[trigger] group[i]).pos)
                    > MINERAL_CLEARANCE_SQ as int
        }),
{
    let center = spec_group_center(group);
    lemma_search_ok(Option::None, grid, group, center, spec_offsets());
    let loc = (spec_expansion_for_group(
        grid,
        group,
        start_location,
        start_center,
        enemy_start,
        enemy_center,
    )->0).0;
    assert(spec_candidate_ok(grid, group, loc));
    assert forall|i: int|
        0 <= i < group.len() implies spec_dist_sq(loc, (#[trigger] group[i]).pos)
        > MINERAL_CLEARANCE_SQ as int by {
        assert(spec_dist_sq(loc, group[i].pos) > spec_clearance(group[i]));
    }
}

} // verus!
