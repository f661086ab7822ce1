//! Ramp geometry: tiles of one terrain ramp plus the shared height
//! map. Upper and lower tiers, their centers, and the wall positions
//! (mid-wall building, corner buildings) are pure functions of the
//! tile set; every position is exact fixed-point arithmetic.

use vstd::prelude::*;
use crate::geom::{
    circle_intersection, spec_circle_intersection, spec_dist_sq, spec_div2_trunc, Point,
    HALF_TILE, SCALE,
};
use crate::grid::Grid;
use crate::util::{lemma_filter_all_false, lemma_filter_take_step, lemma_filter_take_zero,
    lemma_take_full};

verus! {

/// A tile position: column and row indices.
pub type Pos = (usize, usize);

/// Squared radius (in milli-tile units) of a 3x3 building footprint
/// circle: five square tiles.
pub const WALL_RADIUS_SQ: i64 = 5_000_000;

/// Squared radius of a 2x2 building footprint circle: two and a half
/// square tiles.
pub const DEPOT_RADIUS_SQ: i64 = 2_500_000;

/// The tiles whose height equals `m`.
pub open spec fn height_sel(g: Grid, m: int) -> spec_fn(Pos) -> bool {
    |p: Pos| g.spec_at(p.0 as int, p.1 as int) == m
}

/// The greatest height over the tiles, or 0 of none.
pub open spec fn max_height_rec(s: Seq<Pos>, g: Grid) -> int
    decreases s.len(),
{
    if s.len() == 0 {
        0
    } else {
        let r = max_height_rec(s.drop_last(), g);
        let h = g.spec_at(s.last().0 as int, s.last().1 as int) as int;
        if h > r {
            h
        } else {
            r
        }
    }
}

/// The least height over the tiles, or 255 of none.
pub open spec fn min_height_rec(s: Seq<Pos>, g: Grid) -> int
    decreases s.len(),
{
    if s.len() == 0 {
        255
    } else {
        let r = min_height_rec(s.drop_last(), g);
        let h = g.spec_at(s.last().0 as int, s.last().1 as int) as int;
        if h < r {
            h
        } else {
            r
        }
    }
}

/// One terrain ramp: its tiles, the shared height raster and the own
/// starting base location (used to orient wall positions).
#[derive(Debug)]
pub struct Ramp {
    pub points: Vec<Pos>,
    pub heights: Grid,
    pub start_location: Point,
}

impl Ramp {
    /// Tiles lie within the raster, the raster is well formed and the
    /// tile count is bounded.
    pub open spec fn wf(self) -> bool {
        self.heights.wf() && self.points@.len() <= 100_000 && forall|i: int|
            0 <= i < self.points@.len() ==> self.heights.spec_in_bounds(
                #[trigger] self.points@[i].0 as int,
                self.points@[i].1 as int,
            )
    }

    pub open spec fn spec_max_height(self) -> int {
        max_height_rec(self.points@, self.heights)
    }

    pub open spec fn spec_min_height(self) -> int {
        min_height_rec(self.points@, self.heights)
    }

    /// The upper tier: tiles at the greatest height present.
    pub open spec fn spec_upper(self) -> Seq<Pos> {
        self.points@.filter(height_sel(self.heights, self.spec_max_height()))
    }

    /// The lower tier: tiles at the least height present.
    pub open spec fn spec_lower(self) -> Seq<Pos> {
        self.points@.filter(height_sel(self.heights, self.spec_min_height()))
    }

    pub fn new(points: Vec<Pos>, heights: &Grid, start_location: Point) -> (r: Ramp)
        requires
            heights.wf(),
            points@.len() <= 100_000,
            forall|i: int|
                0 <= i < points@.len() ==> heights.spec_in_bounds(
                    #[trigger] points@[i].0 as int,
                    points@[i].1 as int,
                ),
        ensures
            r.wf(),
            r.points@ == points@,
            r.start_location == start_location,
            r.heights.width == heights.width && r.heights.height == heights.height,
            forall|x: int, y: int|
                r.heights.spec_in_bounds(x, y) ==> r.heights.spec_at(x, y)
                    == heights.spec_at(x, y),
    {
        Ramp { points, heights: clone_grid(heights), start_location }
    }

    /// All tiles of the greatest height, in tile-list order.
    pub fn upper(&self) -> (r: Vec<Pos>)
        requires
            self.wf(),
        ensures
            r@ == self.spec_upper(),
            forall|j: int|
                0 <= j < r@.len() ==> self.heights.spec_in_bounds(
                    #[trigger] r@[j].0 as int,
                    r@[j].1 as int,
                ),
    {
        let mut max: u8 = 0;
        let mut result: Vec<Pos> = Vec::new();
        let n: usize = self.points.len();
        let mut i: usize = 0;
        proof {
            lemma_filter_take_zero(self.points@, height_sel(self.heights, 0));
        }
        while i < n
            invariant
                i <= n,
                n == self.points@.len(),
                self.wf(),
                max as int == max_height_rec(self.points@.take(i as int), self.heights),
                result@ == self.points@.take(i as int).filter(
                    height_sel(self.heights, max as int),
                ),
                forall|j: int|
                    0 <= j < i ==> self.heights.spec_at(
                        #[trigger] self.points@[j].0 as int,
                        self.points@[j].1 as int,
                    ) <= max,
                forall|j: int|
                    0 <= j < result@.len() ==> self.heights.spec_in_bounds(
                        #[trigger] result@[j].0 as int,
                        result@[j].1 as int,
                    ),
            decreases n - i,
        {
            let p: Pos = self.points[i];
            let h: u8 = self.heights.get(p.0, p.1);
            proof {
                assert(self.points@.take(i as int + 1).drop_last() =~= self.points@.take(
                    i as int,
                ));
                assert(self.points@.take(i as int + 1).last() == p);
            }
            if h > max {
                proof {
                    lemma_filter_all_false(
                        self.points@.take(i as int),
                        height_sel(self.heights, h as int),
                    );
                    lemma_filter_take_step(
                        self.points@,
                        height_sel(self.heights, h as int),
                        i as int,
                    );
                }
                max = h;
                result.clear();
                result.push(p);
            } else {
                proof {
                    lemma_filter_take_step(
                        self.points@,
                        height_sel(self.heights, max as int),
                        i as int,
                    );
                }
                if h == max {
                    result.push(p);
                }
            }
            i = i + 1;
        }
        proof {
            lemma_take_full(self.points@);
        }
        result
    }

    /// All tiles of the least height, in tile-list order.
    pub fn lower(&self) -> (r: Vec<Pos>)
        requires
            self.wf(),
        ensures
            r@ == self.spec_lower(),
            forall|j: int|
                0 <= j < r@.len() ==> self.heights.spec_in_bounds(
                    #[trigger] r@[j].0 as int,
                    r@[j].1 as int,
                ),
    {
        let mut min: u8 = 255;
        let mut result: Vec<Pos> = Vec::new();
        let n: usize = self.points.len();
        let mut i: usize = 0;
        proof {
            lemma_filter_take_zero(self.points@, height_sel(self.heights, 255));
        }
        while i < n
            invariant
                i <= n,
                n == self.points@.len(),
                self.wf(),
                min as int == min_height_rec(self.points@.take(i as int), self.heights),
                result@ == self.points@.take(i as int).filter(
                    height_sel(self.heights, min as int),
                ),
                forall|j: int|
                    0 <= j < i ==> self.heights.spec_at(
                        #[trigger] self.points@[j].0 as int,
                        self.points@[j].1 as int,
                    ) >= min,
                forall|j: int|
                    0 <= j < result@.len() ==> self.heights.spec_in_bounds(
                        #[trigger] result@[j].0 as int,
                        result@[j].1 as int,
                    ),
            decreases n - i,
        {
            let p: Pos = self.points[i];
            let h: u8 = self.heights.get(p.0, p.1);
            proof {
                assert(self.points@.take(i as int + 1).drop_last() =~= self.points@.take(
                    i as int,
                ));
                assert(self.points@.take(i as int + 1).last() == p);
            }
            if h < min {
                proof {
                    lemma_filter_all_false(
                        self.points@.take(i as int),
                        height_sel(self.heights, h as int),
                    );
                    lemma_filter_take_step(
                        self.points@,
                        height_sel(self.heights, h as int),
                        i as int,
                    );
                }
                min = h;
                result.clear();
                result.push(p);
            } else {
                proof {
                    lemma_filter_take_step(
                        self.points@,
                        height_sel(self.heights, min as int),
                        i as int,
                    );
                }
                if h == min {
                    result.push(p);
                }
            }
            i = i + 1;
        }
        proof {
            lemma_take_full(self.points@);
        }
        result
    }
}

impl Default for Ramp {
    /// A ramp with no tiles.
    fn default() -> (r: Ramp)
        ensures
            r.wf(),
            r.points@.len() == 0,
    {
        Ramp { points: Vec::new(), heights: Grid::default(), start_location: Point { x: 0, y: 0 } }
    }
}

/// All ramps of a map, with the two nearest the starting bases.
#[derive(Debug)]
pub struct Ramps {
    pub all: Vec<Ramp>,
    pub my: Ramp,
    pub enemy: Ramp,
}

impl Default for Ramps {
    fn default() -> (r: Ramps)
        ensures
            r.all@.len() == 0,
            r.my.wf() && r.enemy.wf(),
    {
        Ramps { all: Vec::new(), my: Ramp::default(), enemy: Ramp::default() }
    }
}

/// An exact copy of a byte raster.
pub fn clone_grid(g: &Grid) -> (r: Grid)
    ensures
        r.width == g.width && r.height == g.height && r.cells@ == g.cells@,
        g.wf() ==> r.wf(),
        forall|x: int, y: int| r.spec_in_bounds(x, y) == g.spec_in_bounds(x, y),
        forall|x: int, y: int| g.spec_in_bounds(x, y) ==> r.spec_at(x, y) == g.spec_at(x, y),
{
    let mut cells: Vec<u8> = Vec::new();
    let n: usize = g.cells.len();
    let mut i: usize = 0;
    while i < n
        invariant
            i <= n,
            n == g.cells@.len(),
            cells@ == g.cells@.take(i as int),
        decreases n - i,
    {
        cells.push(g.cells[i]);
        proof {
            assert(g.cells@.take(i as int).push(g.cells@[i as int]) =~= g.cells@.take(
                i as int + 1,
            ));
        }
        i = i + 1;
    }
    proof {
        assert(g.cells@.take(n as int) =~= g.cells@);
    }
    Grid { width: g.width, height: g.height, cells }
}

/// Sum of the column indices.
pub open spec fn sum_x(s: Seq<Pos>) -> int
    decreases s.len(),
{
    if s.len() == 0 {
        0
    } else {
        sum_x(s.drop_last()) + s.last().0
    }
}

/// Sum of the row indices.
pub open spec fn sum_y(s: Seq<Pos>) -> int
    decreases s.len(),
{
    if s.len() == 0 {
        0
    } else {
        sum_y(s.drop_last()) + s.last().1
    }
}

/// The projection key the wall-pair selection maximizes: the dot
/// product of the tile with the lower-tier center.
pub open spec fn wall_key(c: Pos, p: Pos) -> int {
    c.0 * p.0 + c.1 * p.1
}

/// The index of the first tile with the greatest key.
pub open spec fn best_key_index(s: Seq<Pos>, c: Pos) -> int
    decreases s.len(),
{
    if s.len() <= 1 {
        0
    } else {
        let p = best_key_index(s.drop_last(), c);
        if wall_key(c, s.last()) > wall_key(c, s[p]) {
            s.len() - 1
        } else {
            p
        }
    }
}

pub proof fn lemma_best_key_index_range(s: Seq<Pos>, c: Pos)
    requires
        s.len() >= 1,
    ensures
        0 <= best_key_index(s, c) < s.len(),
    decreases s.len(),
{
    if s.len() > 1 {
        lemma_best_key_index_range(s.drop_last(), c);
    }
}

/// The key, on machine integers.
fn key_val(c: Pos, p: Pos) -> (r: u64)
    requires
        c.0 <= 4095 && c.1 <= 4095 && p.0 <= 4095 && p.1 <= 4095,
    ensures
        r as int == wall_key(c, p),
{
    proof {
        assert(c.0 * p.0 <= 4095 * 4095 && c.1 * p.1 <= 4095 * 4095) by (nonlinear_arith)
            requires
                c.0 <= 4095 && c.1 <= 4095 && p.0 <= 4095 && p.1 <= 4095,
        ;
    }
    (c.0 as u64) * (p.0 as u64) + (c.1 as u64) * (p.1 as u64)
}

/// The first index with the greatest key, by one scan.
fn best_index(v: &Vec<Pos>, c: Pos) -> (r: usize)
    requires
        1 <= v@.len() <= 100_000,
        c.0 <= 4095 && c.1 <= 4095,
        forall|j: int| 0 <= j < v@.len() ==> #[trigger] v@[j].0 <= 4095 && v@[j].1 <= 4095,
    ensures
        r as int == best_key_index(v@, c),
        r < v@.len(),
{
    let n: usize = v.len();
    let mut best: usize = 0;
    let mut i: usize = 1;
    proof {
        assert(v@.take(1).len() == 1);
        assert(best_key_index(v@.take(1), c) == 0);
    }
    while i < n
        invariant
            1 <= i <= n,
            n == v@.len() <= 100_000,
            best < i,
            best as int == best_key_index(v@.take(i as int), c),
            c.0 <= 4095 && c.1 <= 4095,
            forall|j: int| 0 <= j < v@.len() ==> #[trigger] v@[j].0 <= 4095 && v@[j].1 <= 4095,
        decreases n - i,
    {
        proof {
            assert(v@.take(i as int + 1).drop_last() =~= v@.take(i as int));
            assert(v@.take(i as int + 1).last() == v@[i as int]);
            assert(v@.take(i as int + 1)[best as int] == v@[best as int]);
        }
        if key_val(c, v[i]) > key_val(c, v[best]) {
            best = i;
        }
        i = i + 1;
    }
    proof {
        lemma_take_full(v@);
    }
    best
}

/// The list with the element at `idx` removed.
fn remove_at(v: &Vec<Pos>, idx: usize) -> (r: Vec<Pos>)
    requires
        idx < v@.len(),
    ensures
        r@ == v@.subrange(0, idx as int) + v@.subrange(idx as int + 1, v@.len() as int),
        r@.len() == v@.len() - 1,
{
    let n: usize = v.len();
    let mut r: Vec<Pos> = Vec::new();
    let mut j: usize = 0;
    while j < idx
        invariant
            j <= idx,
            idx < n,
            n == v@.len(),
            r@ == v@.subrange(0, j as int),
        decreases idx - j,
    {
        r.push(v[j]);
        proof {
            assert(v@.subrange(0, j as int).push(v@[j as int]) =~= v@.subrange(0, j as int + 1));
        }
        j = j + 1;
    }
    let mut k: usize = idx + 1;
    while k < n
        invariant
            idx < k <= n,
            idx < n,
            n == v@.len(),
            r@ == v@.subrange(0, idx as int) + v@.subrange(idx as int + 1, k as int),
        decreases n - k,
    {
        r.push(v[k]);
        proof {
            assert((v@.subrange(0, idx as int) + v@.subrange(idx as int + 1, k as int)).push(
                v@[k as int],
            ) =~= v@.subrange(0, idx as int) + v@.subrange(idx as int + 1, k as int + 1));
        }
        k = k + 1;
    }
    r
}

/// Two thirds of `v`, truncated toward zero.
pub open spec fn spec_two_thirds(v: int) -> int {
    if v >= 0 {
        (2 * v) / 3
    } else {
        -((2 * (-v)) / 3)
    }
}

fn two_thirds(v: i64) -> (r: i64)
    requires
        -100_000_000 <= v <= 100_000_000,
    ensures
        r == spec_two_thirds(v as int),
        -100_000_000 <= r <= 100_000_000,
{
    if v >= 0 {
        let q: i64 = (2 * v) / 3;
        proof {
            vstd::arithmetic::div_mod::lemma_div_pos_is_pos((2 * v) as int, 3);
            vstd::arithmetic::div_mod::lemma_div_is_ordered((2 * v) as int, (3 * v) as int, 3);
            vstd::arithmetic::div_mod::lemma_div_multiples_vanish(v as int, 3);
        }
        q
    } else {
        let q: i64 = (2 * (-v)) / 3;
        proof {
            vstd::arithmetic::div_mod::lemma_div_pos_is_pos((2 * (-v)) as int, 3);
            vstd::arithmetic::div_mod::lemma_div_is_ordered(
                (2 * (-v)) as int,
                (3 * (-v)) as int,
                3,
            );
            vstd::arithmetic::div_mod::lemma_div_multiples_vanish((-v) as int, 3);
        }
        -q
    }
}

impl Ramp {
    /// The mean tile of the upper tier, in integer tile coordinates.
    pub open spec fn spec_top_center(self) -> Option<Pos> {
        let ups = self.spec_upper();
        if ups.len() == 0 {
            None
        } else {
            Some(
                (
                    (sum_x(ups) / (ups.len() as int)) as usize,
                    (sum_y(ups) / (ups.len() as int)) as usize,
                ),
            )
        }
    }

    /// The mean tile of the lower tier, in integer tile coordinates.
    pub open spec fn spec_bottom_center(self) -> Option<Pos> {
        let lws = self.spec_lower();
        if lws.len() == 0 {
            None
        } else {
            Some(
                (
                    (sum_x(lws) / (lws.len() as int)) as usize,
                    (sum_y(lws) / (lws.len() as int)) as usize,
                ),
            )
        }
    }

    pub fn top_center(&self) -> (r: Option<Pos>)
        requires
            self.wf(),
        ensures
            r == self.spec_top_center(),
            r is Some ==> (r->0).0 <= 4095 && (r->0).1 <= 4095,
    {
        let ups = self.upper();
        proof {
            assert(forall|j: int|
                0 <= j < ups@.len() ==> #[trigger] ups@[j].0 <= 4095 && ups@[j].1 <= 4095);
        }
        center_of(&ups)
    }

    pub fn bottom_center(&self) -> (r: Option<Pos>)
        requires
            self.wf(),
        ensures
            r == self.spec_bottom_center(),
            r is Some ==> (r->0).0 <= 4095 && (r->0).1 <= 4095,
    {
        let lws = self.lower();
        proof {
            assert(forall|j: int|
                0 <= j < lws@.len() ==> #[trigger] lws@[j].0 <= 4095 && lws@[j].1 <= 4095);
        }
        center_of(&lws)
    }
}

/// The mean tile of a tile list, floor-divided componentwise.
fn center_of(v: &Vec<Pos>) -> (r: Option<Pos>)
    requires
        v@.len() <= 100_000,
        forall|j: int| 0 <= j < v@.len() ==> #[trigger] v@[j].0 <= 4095 && v@[j].1 <= 4095,
    ensures
        r == if v@.len() == 0 {
            None::<Pos>
        } else {
            Some(
                (
                    (sum_x(v@) / (v@.len() as int)) as usize,
                    (sum_y(v@) / (v@.len() as int)) as usize,
                ),
            )
        },
        r is Some ==> (r->0).0 <= 4095 && (r->0).1 <= 4095,
{
    let n: usize = v.len();
    if n == 0 {
        return None;
    }
    let mut sx: u64 = 0;
    let mut sy: u64 = 0;
    let mut j: usize = 0;
    while j < n
        invariant
            j <= n,
            n == v@.len() <= 100_000,
            forall|w: int| 0 <= w < v@.len() ==> #[trigger] v@[w].0 <= 4095 && v@[w].1 <= 4095,
            sx as int == sum_x(v@.take(j as int)),
            sy as int == sum_y(v@.take(j as int)),
            sx <= 4095 * (j as u64),
            sy <= 4095 * (j as u64),
        decreases n - j,
    {
        proof {
            assert(v@.take(j as int + 1).drop_last() =~= v@.take(j as int));
            assert(v@.take(j as int + 1).last() == v@[j as int]);
        }
        let p: Pos = v[j];
        sx = sx + p.0 as u64;
        sy = sy + p.1 as u64;
        j = j + 1;
    }
    proof {
        lemma_take_full(v@);
        vstd::arithmetic::div_mod::lemma_div_pos_is_pos(sx as int, n as int);
        vstd::arithmetic::div_mod::lemma_div_pos_is_pos(sy as int, n as int);
        vstd::arithmetic::div_mod::lemma_div_is_ordered(
            sx as int,
            (n as int) * 4095,
            n as int,
        );
        vstd::arithmetic::div_mod::lemma_div_is_ordered(
            sy as int,
            (n as int) * 4095,
            n as int,
        );
        vstd::arithmetic::div_mod::lemma_div_multiples_vanish(4095, n as int);
    }
    let cx: u64 = sx / (n as u64);
    let cy: u64 = sy / (n as u64);
    Some((cx as usize, cy as usize))
}

impl Ramp {
    /// The two wall tiles: the pair itself when the upper tier has
    /// exactly two tiles; of a larger tier (up to five tiles), the two
    /// tiles with the greatest projection key toward the lower-tier
    /// center, scan order breaking ties.
    pub open spec fn spec_upper2(self) -> Option<(Pos, Pos)> {
        let ups = self.spec_upper();
        if ups.len() > 5 {
            None
        } else if ups.len() == 2 {
            Some((ups[0], ups[1]))
        } else if ups.len() < 2 {
            None
        } else if self.spec_lower().len() == 0 {
            None
        } else {
            let c = self.spec_bottom_center()->0;
            let i1 = best_key_index(ups, c);
            let rest = ups.subrange(0, i1) + ups.subrange(i1 + 1, ups.len() as int);
            let i2 = best_key_index(rest, c);
            Some((ups[i1], rest[i2]))
        }
    }

    pub fn upper2_for_ramp_wall(&self) -> (r: Option<(Pos, Pos)>)
        requires
            self.wf(),
        ensures
            r == self.spec_upper2(),
            r is Some ==> (r->0).0.0 <= 4095 && (r->0).0.1 <= 4095 && (r->0).1.0 <= 4095
                && (r->0).1.1 <= 4095,
    {
        let ups = self.upper();
        proof {
            assert(forall|j: int|
                0 <= j < ups@.len() ==> #[trigger] ups@[j].0 <= 4095 && ups@[j].1 <= 4095);
        }
        if ups.len() > 5 {
            return None;
        }
        if ups.len() == 2 {
            return Some((ups[0], ups[1]));
        }
        if ups.len() < 2 {
            return None;
        }
        match self.bottom_center() {
            None => None,
            Some(c) => {
                let i1 = best_index(&ups, c);
                let rest = remove_at(&ups, i1);
                proof {
                    assert(forall|j: int|
                        0 <= j < rest@.len() ==> #[trigger] rest@[j].0 <= 4095 && rest@[j].1
                            <= 4095);
                }
                let i2 = best_index(&rest, c);
                Some((ups[i1], rest[i2]))
            },
        }
    }

    /// The mid-wall position for a footprint circle of squared radius
    /// `r_sq`: the circle intersection at the two wall tiles' centers,
    /// disambiguated to the point farther from the first lower tile.
    pub open spec fn spec_wall_middle(self, r_sq: int) -> Option<Point> {
        let ups = self.spec_upper();
        if ups.len() != 2 && ups.len() != 5 {
            None
        } else {
            match self.spec_upper2() {
                None => None,
                Some((a, b)) => {
                    if self.spec_lower().len() == 0 {
                        None
                    } else {
                        let p1 = Point {
                            x: (a.0 * SCALE + HALF_TILE) as i64,
                            y: (a.1 * SCALE + HALF_TILE) as i64,
                        };
                        let p2 = Point {
                            x: (b.0 * SCALE + HALF_TILE) as i64,
                            y: (b.1 * SCALE + HALF_TILE) as i64,
                        };
                        match spec_circle_intersection(p1, p2, r_sq) {
                            None => None,
                            Some((q0, q1)) => {
                                let lw = self.spec_lower()[0];
                                let lp = Point { x: (lw.0 * SCALE) as i64, y: (lw.1 * SCALE) as i64 };
                                Some(
                                    if spec_dist_sq(q1, lp) >= spec_dist_sq(q0, lp) {
                                        q1
                                    } else {
                                        q0
                                    },
                                )
                            },
                        }
                    }
                },
            }
        }
    }

    pub open spec fn spec_barracks_in_middle(self) -> Option<Point> {
        self.spec_wall_middle(WALL_RADIUS_SQ as int)
    }

    pub open spec fn spec_depot_in_middle(self) -> Option<Point> {
        self.spec_wall_middle(DEPOT_RADIUS_SQ as int)
    }

    fn wall_middle(&self, r_sq: i64) -> (r: Option<Point>)
        requires
            self.wf(),
            0 < r_sq <= 1_000_000_000_000,
        ensures
            r == self.spec_wall_middle(r_sq as int),
            r is Some ==> -2_000_000 <= (r->0).x <= 6_100_000 && -2_000_000 <= (r->0).y
                <= 6_100_000,
    {
        let ups = self.upper();
        if ups.len() != 2 && ups.len() != 5 {
            return None;
        }
        match self.upper2_for_ramp_wall() {
            None => None,
            Some(ps) => {
                let lows = self.lower();
                if lows.len() == 0 {
                    return None;
                }
                let p1 = Point::tile_center(ps.0.0, ps.0.1);
                let p2 = Point::tile_center(ps.1.0, ps.1.1);
                match circle_intersection(p1, p2, r_sq) {
                    None => None,
                    Some((q0, q1)) => {
                        let lw: Pos = lows[0];
                        proof {
                            assert(self.heights.spec_in_bounds(lw.0 as int, lw.1 as int));
                        }
                        let lp = Point::new((lw.0 as i64) * SCALE, (lw.1 as i64) * SCALE);
                        let d0: i64 = q0.distance_squared(lp);
                        let d1: i64 = q1.distance_squared(lp);
                        if d1 >= d0 {
                            Some(q1)
                        } else {
                            Some(q0)
                        }
                    },
                }
            },
        }
    }

    /// The mid-wall position of the 3x3 wall building.
    pub fn barracks_in_middle(&self) -> (r: Option<Point>)
        requires
            self.wf(),
        ensures
            r == self.spec_barracks_in_middle(),
            r is Some ==> -2_000_000 <= (r->0).x <= 6_100_000 && -2_000_000 <= (r->0).y
                <= 6_100_000,
    {
        self.wall_middle(WALL_RADIUS_SQ)
    }

    /// The mid-wall position of the 2x2 wall building.
    pub fn depot_in_middle(&self) -> (r: Option<Point>)
        requires
            self.wf(),
        ensures
            r == self.spec_depot_in_middle(),
            r is Some ==> -2_000_000 <= (r->0).x <= 6_100_000 && -2_000_000 <= (r->0).y
                <= 6_100_000,
    {
        self.wall_middle(DEPOT_RADIUS_SQ)
    }

    /// The two corner positions beside the wall pair, ordered by
    /// squared distance from the starting base location.
    pub open spec fn spec_corner_depots(self) -> Option<(Point, Point)> {
        match self.spec_upper2() {
            None => None,
            Some((a, b)) => {
                let p1 = Point {
                    x: (a.0 * SCALE + HALF_TILE) as i64,
                    y: (a.1 * SCALE + HALF_TILE) as i64,
                };
                let p2 = Point {
                    x: (b.0 * SCALE + HALF_TILE) as i64,
                    y: (b.1 * SCALE + HALF_TILE) as i64,
                };
                let center = Point {
                    x: ((p1.x + p2.x) / 2) as i64,
                    y: ((p1.y + p2.y) / 2) as i64,
                };
                match self.spec_depot_in_middle() {
                    None => None,
                    Some(dm) => match spec_circle_intersection(center, dm, WALL_RADIUS_SQ as int) {
                        None => None,
                        Some((c0, c1)) => Some(
                            if spec_dist_sq(c0, self.start_location) <= spec_dist_sq(
                                c1,
                                self.start_location,
                            ) {
                                (c0, c1)
                            } else {
                                (c1, c0)
                            },
                        ),
                    },
                }
            },
        }
    }

    pub fn corner_depots(&self) -> (r: Option<(Point, Point)>)
        requires
            self.wf(),
            self.start_location.wf(),
        ensures
            r == self.spec_corner_depots(),
            r is Some ==> -10_000_000 <= (r->0).0.x <= 10_000_000 && -10_000_000
                <= (r->0).0.y <= 10_000_000 && -10_000_000 <= (r->0).1.x <= 10_000_000
                && -10_000_000 <= (r->0).1.y <= 10_000_000,
    {
        match self.upper2_for_ramp_wall() {
            None => None,
            Some(ps) => {
                let p1 = Point::tile_center(ps.0.0, ps.0.1);
                let p2 = Point::tile_center(ps.1.0, ps.1.1);
                let center = Point::new((p1.x + p2.x) / 2, (p1.y + p2.y) / 2);
                match self.depot_in_middle() {
                    None => None,
                    Some(dm) => {
                        match circle_intersection(center, dm, WALL_RADIUS_SQ) {
                            None => None,
                            Some((c0, c1)) => {
                                let e0: i64 = c0.distance_squared(self.start_location);
                                let e1: i64 = c1.distance_squared(self.start_location);
                                if e0 <= e1 {
                                    Some((c0, c1))
                                } else {
                                    Some((c1, c0))
                                }
                            },
                        }
                    },
                }
            },
        }
    }
}

impl Ramp {
    /// The corrected 3x3 wall position: keep the mid-wall position
    /// when it clears the corner buildings on the x axis, otherwise
    /// step two tiles left.
    pub open spec fn spec_barracks_correct_placement(self) -> Option<Point> {
        match self.spec_barracks_in_middle() {
            None => None,
            Some(pos) => {
                let clears = match self.spec_corner_depots() {
                    Some((d0, d1)) => pos.x + SCALE > (if d0.x >= d1.x {
                        d0.x
                    } else {
                        d1.x
                    }),
                    None => false,
                };
                Some(
                    if clears {
                        pos
                    } else {
                        Point { x: (pos.x - 2 * SCALE) as i64, y: pos.y }
                    },
                )
            },
        }
    }

    pub fn barracks_correct_placement(&self) -> (r: Option<Point>)
        requires
            self.wf(),
            self.start_location.wf(),
        ensures
            r == self.spec_barracks_correct_placement(),
    {
        match self.barracks_in_middle() {
            None => None,
            Some(pos) => {
                let clears: bool = match self.corner_depots() {
                    Some(ds) => {
                        let mx: i64 = if ds.0.x >= ds.1.x {
                            ds.0.x
                        } else {
                            ds.1.x
                        };
                        pos.x + SCALE > mx
                    },
                    None => false,
                };
                if clears {
                    Some(pos)
                } else {
                    Some(Point::new(pos.x - 2 * SCALE, pos.y))
                }
            },
        }
    }

    /// The wall pylon position: six mid-wall-to-barracks steps past
    /// the mid-wall position.
    pub open spec fn spec_protoss_wall_pylon(self) -> Option<Point> {
        match self.spec_depot_in_middle() {
            None => None,
            Some(m) => match self.spec_barracks_in_middle() {
                None => None,
                Some(b) => Some(
                    Point { x: (m.x + (b.x - m.x) * 6) as i64, y: (m.y + (b.y - m.y) * 6) as i64 },
                ),
            },
        }
    }

    pub fn protoss_wall_pylon(&self) -> (r: Option<Point>)
        requires
            self.wf(),
        ensures
            r == self.spec_protoss_wall_pylon(),
    {
        match self.depot_in_middle() {
            None => None,
            Some(m) => match self.barracks_in_middle() {
                None => None,
                Some(b) => Some(Point::new(m.x + (b.x - m.x) * 6, m.y + (b.y - m.y) * 6)),
            },
        }
    }

    /// The two wall building positions: one step past the far corner,
    /// and a two-thirds backstep from there past the mid-wall.
    pub open spec fn spec_protoss_wall_buildings(self) -> Option<(Point, Point)> {
        match self.spec_depot_in_middle() {
            None => None,
            Some(m) => match self.spec_barracks_in_middle() {
                None => None,
                Some(b) => match self.spec_corner_depots() {
                    None => None,
                    Some((d0, d1)) => {
                        let dirx = b.x - m.x;
                        let diry = b.y - m.y;
                        let w1 = Point { x: (d1.x + dirx) as i64, y: (d1.y + diry) as i64 };
                        let w2 = Point {
                            x: (m.x + dirx + spec_two_thirds(m.x - w1.x)) as i64,
                            y: (m.y + diry + spec_two_thirds(m.y - w1.y)) as i64,
                        };
                        Some((w1, w2))
                    },
                },
            },
        }
    }

    pub fn protoss_wall_buildings(&self) -> (r: Option<(Point, Point)>)
        requires
            self.wf(),
            self.start_location.wf(),
        ensures
            r == self.spec_protoss_wall_buildings(),
    {
        match self.depot_in_middle() {
            None => None,
            Some(m) => match self.barracks_in_middle() {
                None => None,
                Some(b) => match self.corner_depots() {
                    None => None,
                    Some(ds) => {
                        let dirx: i64 = b.x - m.x;
                        let diry: i64 = b.y - m.y;
                        let w1 = Point::new(ds.1.x + dirx, ds.1.y + diry);
                        let w2 = Point::new(
                            m.x + dirx + two_thirds(m.x - w1.x),
                            m.y + diry + two_thirds(m.y - w1.y),
                        );
                        Some((w1, w2))
                    },
                },
            },
        }
    }

    /// The warp-in slot: one mid-wall-to-barracks step back from the
    /// near corner.
    pub open spec fn spec_protoss_wall_warpin(self) -> Option<Point> {
        match self.spec_depot_in_middle() {
            None => None,
            Some(m) => match self.spec_barracks_in_middle() {
                None => None,
                Some(b) => match self.spec_corner_depots() {
                    None => None,
                    Some((d0, d1)) => Some(
                        Point { x: (d0.x - (b.x - m.x)) as i64, y: (d0.y - (b.y - m.y)) as i64 },
                    ),
                },
            },
        }
    }

    pub fn protoss_wall_warpin(&self) -> (r: Option<Point>)
        requires
            self.wf(),
            self.start_location.wf(),
        ensures
            r == self.spec_protoss_wall_warpin(),
    {
        match self.depot_in_middle() {
            None => None,
            Some(m) => match self.barracks_in_middle() {
                None => None,
                Some(b) => match self.corner_depots() {
                    None => None,
                    Some(ds) => Some(Point::new(ds.0.x - (b.x - m.x), ds.0.y - (b.y - m.y))),
                },
            },
        }
    }
}

/// All tiles of a well-formed ramp have both indices below 4096.
proof fn lemma_upper_bounds(r: Ramp)
    requires
        r.wf(),
    ensures
        forall|i: int|
            0 <= i < r.spec_upper().len() ==> (#[trigger] r.spec_upper()[i]).0 <= 4095
                && r.spec_upper()[i].1 <= 4095,
{
    let prop = |p: Pos| p.0 <= 4095 && p.1 <= 4095;
    assert(forall|k: int| 0 <= k < r.points@.len() ==> #[trigger] prop(r.points@[k]));
    crate::util::lemma_filter_preserves(
        r.points@,
        height_sel(r.heights, r.spec_max_height()),
        prop,
    );
    assert forall|i: int|
        0 <= i < r.spec_upper().len() implies (#[trigger] r.spec_upper()[i]).0 <= 4095
        && r.spec_upper()[i].1 <= 4095 by {
        assert(prop(r.spec_upper()[i]));
    }
}

/// The two wall tiles of a well-formed ramp are in range.
proof fn lemma_upper2_bounds(r: Ramp)
    requires
        r.wf(),
        r.spec_upper2() is Some,
    ensures
        (r.spec_upper2()->0).0.0 <= 4095 && (r.spec_upper2()->0).0.1 <= 4095,
        (r.spec_upper2()->0).1.0 <= 4095 && (r.spec_upper2()->0).1.1 <= 4095,
{
    lemma_upper_bounds(r);
    let ups = r.spec_upper();
    if ups.len() == 2 {
    } else {
        let c = r.spec_bottom_center()->0;
        let i1 = best_key_index(ups, c);
        lemma_best_key_index_range(ups, c);
        let rest = ups.subrange(0, i1) + ups.subrange(i1 + 1, ups.len() as int);
        let i2 = best_key_index(rest, c);
        lemma_best_key_index_range(rest, c);
        assert(rest.len() == ups.len() - 1);
        if i2 < i1 {
            assert(rest[i2] == ups[i2]);
        } else {
            assert(rest[i2] == ups[i2 + 1]);
        }
    }
}

/// The chord half-length and center distance of an intersection are
/// small: the offset applied around the midpoint is at most the
/// root of four squared radii.
proof fn lemma_intersection_bounds(c1: Point, c2: Point, r_sq: int)
    requires
        spec_circle_intersection(c1, c2, r_sq) is Some,
        0 < r_sq <= 1_000_000_000_000,
        -8_000_000 <= c1.x <= 8_000_000 && -8_000_000 <= c1.y <= 8_000_000,
        -8_000_000 <= c2.x <= 8_000_000 && -8_000_000 <= c2.y <= 8_000_000,
    ensures
        ({
            let (q0, q1) = spec_circle_intersection(c1, c2, r_sq)->0;
            let bx = spec_div2_trunc(c1.x + c2.x);
            let by = spec_div2_trunc(c1.y + c2.y);
            -2_000_000 <= q0.x as int - bx <= 2_000_000 && -2_000_000 <= q0.y as int - by
                <= 2_000_000 && q0.x as int + q1.x as int == 2 * bx && q0.y as int + q1.y as int
                == 2 * by && q0.x as int - bx == -(q1.x as int - bx) && q0.y as int - by == -(
            q1.y as int - by)
        }),
{
    let dx = c2.x - c1.x;
    let dy = c2.y - c1.y;
    assert(dx * dx >= 0 && dy * dy >= 0) by (nonlinear_arith);
    let d_sq = dx * dx + dy * dy;
    assert(d_sq != 0 && d_sq <= 4 * r_sq);
    assert(d_sq >= 1);
    crate::geom::lemma_isqrt_exists(4 * r_sq - d_sq);
    crate::geom::lemma_isqrt_exists(d_sq);
    let s = crate::geom::spec_isqrt(4 * r_sq - d_sq);
    let d = crate::geom::spec_isqrt(d_sq);
    assert(d >= 1) by (nonlinear_arith)
        requires
            crate::geom::is_isqrt(d_sq, d),
            d_sq >= 1,
    ;
    assert(s <= 2_000_000) by (nonlinear_arith)
        requires
            crate::geom::is_isqrt(4 * r_sq - d_sq, s),
            4 * r_sq - d_sq <= 4_000_000_000_000,
            s >= 0,
    ;
    assert(-d <= dy <= d && -d <= dx <= d) by (nonlinear_arith)
        requires
            crate::geom::is_isqrt(d_sq, d),
            d_sq == dx * dx + dy * dy,
            dx * dx >= 0 && dy * dy >= 0,
            d >= 0,
    ;
    crate::geom::lemma_half_chord_bound(-dy, s, d);
    crate::geom::lemma_half_chord_bound(dx, s, d);
}

/// The two corner positions are symmetric about the ramp's main axis:
/// their coordinate sums equal twice the truncated midpoint of the
/// wall-pair center and the mid-wall position, which is a point of
/// that axis. In particular their midpoint lies on the axis.
pub proof fn lemma_corner_depots_symmetric(r: Ramp)
    requires
        r.wf(),
        r.spec_corner_depots() is Some,
    ensures
        ({
            let (c0, c1) = r.spec_corner_depots()->0;
            let (a, b) = r.spec_upper2()->0;
            let p1 = Point {
                x: (a.0 * SCALE + HALF_TILE) as i64,
                y: (a.1 * SCALE + HALF_TILE) as i64,
            };
            let p2 = Point {
                x: (b.0 * SCALE + HALF_TILE) as i64,
                y: (b.1 * SCALE + HALF_TILE) as i64,
            };
            let center = Point { x: ((p1.x + p2.x) / 2) as i64, y: ((p1.y + p2.y) / 2) as i64 };
            let dm = r.spec_depot_in_middle()->0;
            c0.x + c1.x == 2 * crate::geom::spec_div2_trunc(center.x + dm.x) && c0.y + c1.y
                == 2 * crate::geom::spec_div2_trunc(center.y + dm.y)
        }),
{
    lemma_upper2_bounds(r);
    let (a, b) = r.spec_upper2()->0;
    let p1 = Point { x: (a.0 * SCALE + HALF_TILE) as i64, y: (a.1 * SCALE + HALF_TILE) as i64 };
    let p2 = Point { x: (b.0 * SCALE + HALF_TILE) as i64, y: (b.1 * SCALE + HALF_TILE) as i64 };
    let center = Point { x: ((p1.x + p2.x) / 2) as i64, y: ((p1.y + p2.y) / 2) as i64 };
    assert(500 <= p1.x <= 4_095_500 && 500 <= p1.y <= 4_095_500);
    assert(500 <= p2.x <= 4_095_500 && 500 <= p2.y <= 4_095_500);
    assert(500 <= center.x <= 4_095_500 && 500 <= center.y <= 4_095_500);
    // The mid-wall position stays within one chord bound of the
    // wall-pair midpoint.
    let dm = r.spec_depot_in_middle()->0;
    assert(r.spec_depot_in_middle() is Some);
    lemma_intersection_bounds(p1, p2, DEPOT_RADIUS_SQ as int);
    assert(-2_000_000 <= dm.x <= 6_100_000 && -2_000_000 <= dm.y <= 6_100_000);
    // The corner pair is the intersection around the axis midpoint.
    lemma_intersection_bounds(center, dm, WALL_RADIUS_SQ as int);
    let (i0, i1) = spec_circle_intersection(center, dm, WALL_RADIUS_SQ as int)->0;
    let (c0, c1) = r.spec_corner_depots()->0;
    assert((c0 == i0 && c1 == i1) || (c0 == i1 && c1 == i0));
}

/// For a mirror-symmetric wall pair — the two wall tiles are each
/// other's coordinate swap — the two corner positions are coordinate
/// swaps of each other, so they lie symmetric about the ramp's main
/// axis (the map diagonal here) and are exactly equidistant from
/// every point of that axis, the lower-tier centroid included.
pub proof fn lemma_corner_depots_equidistant(r: Ramp, l: Point)
    requires
        r.wf(),
        r.spec_corner_depots() is Some,
        ({
            let (a, b) = r.spec_upper2()->0;
            b.0 == a.1 && b.1 == a.0 && a.0 != a.1
        }),
        l.x == l.y,
    ensures
        ({
            let (c0, c1) = r.spec_corner_depots()->0;
            c0.x == c1.y && c0.y == c1.x && spec_dist_sq(c0, l) == spec_dist_sq(c1, l)
        }),
{
    lemma_upper2_bounds(r);
    let (a, b) = r.spec_upper2()->0;
    let p1 = Point { x: (a.0 * SCALE + HALF_TILE) as i64, y: (a.1 * SCALE + HALF_TILE) as i64 };
    let p2 = Point { x: (b.0 * SCALE + HALF_TILE) as i64, y: (b.1 * SCALE + HALF_TILE) as i64 };
    // The swapped pair: p2 is p1 with coordinates exchanged, so the
    // pair's midpoint lies on the diagonal.
    assert(p2.x == p1.y && p2.y == p1.x);
    let center = Point { x: ((p1.x + p2.x) / 2) as i64, y: ((p1.y + p2.y) / 2) as i64 };
    assert(center.x == center.y);
    // The mid-wall position lies on the diagonal too: the chord
    // offset of the swapped pair runs along it.
    let dm = r.spec_depot_in_middle()->0;
    assert(r.spec_depot_in_middle() is Some);
    assert(dm.x == dm.y) by {
        let d_sq = (p2.x - p1.x) * (p2.x - p1.x) + (p2.y - p1.y) * (p2.y - p1.y);
        let s = crate::geom::spec_isqrt(4 * (DEPOT_RADIUS_SQ as int) - d_sq);
        let d = crate::geom::spec_isqrt(d_sq);
        assert(p2.y - p1.y == -(p2.x - p1.x));
        assert(crate::geom::spec_half_chord(-(p2.y - p1.y), s, d)
            == crate::geom::spec_half_chord(p2.x - p1.x, s, d));
    }
    // The corner intersection at two diagonal centers: the chord
    // offset components are opposite, so the two intersection points
    // are coordinate swaps of each other.
    let (i0, i1) = spec_circle_intersection(center, dm, WALL_RADIUS_SQ as int)->0;
    assert(i0.x == i1.y && i0.y == i1.x) by {
        let dx = dm.x - center.x;
        let dy = dm.y - center.y;
        let d_sq = dx * dx + dy * dy;
        let s = crate::geom::spec_isqrt(4 * (WALL_RADIUS_SQ as int) - d_sq);
        let d = crate::geom::spec_isqrt(d_sq);
        assert(dx == dy);
        assert(d_sq >= 1) by (nonlinear_arith)
            requires
                d_sq == dx * dx + dy * dy && d_sq != 0,
        ;
        crate::geom::lemma_isqrt_exists(d_sq);
        assert(d >= 1) by (nonlinear_arith)
            requires
                crate::geom::is_isqrt(d_sq, d),
                d_sq >= 1,
        ;
        crate::geom::lemma_half_chord_odd(dy, s, d);
        let wx = crate::geom::spec_half_chord(-dy, s, d);
        let wy = crate::geom::spec_half_chord(dx, s, d);
        assert(wx == -wy);
        let bx = spec_div2_trunc(center.x + dm.x);
        let by = spec_div2_trunc(center.y + dm.y);
        assert(bx == by);
    }
    let (c0, c1) = r.spec_corner_depots()->0;
    assert((c0 == i0 && c1 == i1) || (c0 == i1 && c1 == i0));
    assert(spec_dist_sq(c0, l) == spec_dist_sq(c1, l));
}

} // verus!
