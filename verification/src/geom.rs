//! Fixed-point plane geometry: points in milli-tile coordinates,
//! squared distances, integer square roots and circle intersections.

use vstd::prelude::*;

verus! {

/// Fixed-point units per map tile.
pub const SCALE: i64 = 1000;

/// Half a tile, used to address the center of a grid cell.
pub const HALF_TILE: i64 = 500;

/// Largest coordinate magnitude the library works with (5000 tiles).
pub const COORD_LIMIT: i64 = 5_000_000;

/// A point of the map plane in milli-tile coordinates.
#[derive(Clone, Copy, Debug, PartialEq, Eq, Structural)]
pub struct Point {
    pub x: i64,
    pub y: i64,
}

/// Squared distance between two points, as unbounded integers.
pub open spec fn spec_dist_sq(a: Point, b: Point) -> int {
    (a.x - b.x) * (a.x - b.x) + (a.y - b.y) * (a.y - b.y)
}

/// `r` is the integer square root of `n`.
pub open spec fn is_isqrt(n: int, r: int) -> bool {
    0 <= r && r * r <= n && n < (r + 1) * (r + 1)
}

/// The integer square root as a function, defined as the unique root.
pub open spec fn spec_isqrt(n: int) -> int {
    choose|r: int| is_isqrt(n, r)
}

pub proof fn lemma_isqrt_unique(n: int, r: int)
    requires
        is_isqrt(n, r),
    ensures
        spec_isqrt(n) == r,
{
    assert(is_isqrt(n, spec_isqrt(n)));
    let r2 = spec_isqrt(n);
    assert(r == r2) by (nonlinear_arith)
        requires
            is_isqrt(n, r),
            is_isqrt(n, r2),
    ;
}

impl Point {
    /// The point is within the coordinate range the library supports.
    pub open spec fn wf(self) -> bool {
        -COORD_LIMIT <= self.x <= COORD_LIMIT && -COORD_LIMIT <= self.y <= COORD_LIMIT
    }

    /// Both coordinates are non-negative (true of all on-map positions).
    pub open spec fn nonneg(self) -> bool {
        0 <= self.x && 0 <= self.y
    }

    pub fn new(x: i64, y: i64) -> (p: Point)
        ensures
            p.x == x && p.y == y,
    {
        Point { x, y }
    }

    /// The center of the tile whose corner indices are `(tx, ty)`.
    pub fn tile_center(tx: usize, ty: usize) -> (p: Point)
        requires
            tx <= 4096 && ty <= 4096,
        ensures
            p.x == tx * SCALE + HALF_TILE && p.y == ty * SCALE + HALF_TILE,
            p.wf() && p.nonneg(),
    {
        Point { x: tx as i64 * SCALE + HALF_TILE, y: ty as i64 * SCALE + HALF_TILE }
    }

    /// The corner of the tile containing this point.
    pub fn tile(self) -> (t: (usize, usize))
        requires
            0 <= self.x <= 100_000_000 && 0 <= self.y <= 100_000_000,
        ensures
            t.0 == self.x as int / SCALE as int && t.1 == self.y as int / SCALE as int,
    {
        ((self.x / SCALE) as usize, (self.y / SCALE) as usize)
    }

    pub fn add(self, other: Point) -> (p: Point)
        requires
            self.wf() && other.wf(),
        ensures
            p.x == self.x + other.x && p.y == self.y + other.y,
    {
        Point { x: self.x + other.x, y: self.y + other.y }
    }

    pub fn sub(self, other: Point) -> (p: Point)
        requires
            self.wf() && other.wf(),
        ensures
            p.x == self.x - other.x && p.y == self.y - other.y,
    {
        Point { x: self.x - other.x, y: self.y - other.y }
    }

    pub fn offset(self, dx: i64, dy: i64) -> (p: Point)
        requires
            self.wf(),
            -COORD_LIMIT <= dx <= COORD_LIMIT && -COORD_LIMIT <= dy <= COORD_LIMIT,
        ensures
            p.x == self.x + dx && p.y == self.y + dy,
    {
        Point { x: self.x + dx, y: self.y + dy }
    }

    /// Exact squared distance in milli-tile units.
    pub fn distance_squared(self, other: Point) -> (d: i64)
        requires
            -20_000_000 <= self.x <= 20_000_000 && -20_000_000 <= self.y <= 20_000_000,
            -20_000_000 <= other.x <= 20_000_000 && -20_000_000 <= other.y <= 20_000_000,
        ensures
            d == spec_dist_sq(self, other),
            0 <= d <= 3_200_000_000_000_000,
    {
        let dx: i64 = self.x - other.x;
        let dy: i64 = self.y - other.y;
        proof {
            assert(dx * dx <= 1_600_000_000_000_000 && dx * dx >= 0) by (nonlinear_arith)
                requires
                    -40_000_000 <= dx <= 40_000_000,
            ;
            assert(dy * dy <= 1_600_000_000_000_000 && dy * dy >= 0) by (nonlinear_arith)
                requires
                    -40_000_000 <= dy <= 40_000_000,
            ;
        }
        dx * dx + dy * dy
    }
}

/// Floor integer square root by bisection.
pub fn isqrt(n: i64) -> (r: i64)
    requires
        0 <= n <= 1_000_000_000_000_000_000,
    ensures
        is_isqrt(n as int, r as int),
        r == spec_isqrt(n as int),
        0 <= r <= 1_000_000_000,
{
    let mut lo: i64 = 0;
    let mut hi: i64 = 1_000_000_001;
    proof {
        assert(hi * hi > n) by (nonlinear_arith)
            requires
                hi == 1_000_000_001i64 && n <= 1_000_000_000_000_000_000i64,
        ;
    }
    while lo + 1 < hi
        invariant
            0 <= lo < hi <= 1_000_000_001,
            lo * lo <= n,
            hi * hi > n,
        decreases hi - lo,
    {
        let mid: i64 = lo + (hi - lo) / 2;
        proof {
            assert(0 <= mid * mid <= 2_000_000_000_000_000_000) by (nonlinear_arith)
                requires
                    0 <= mid <= 1_000_000_001i64,
            ;
        }
        if mid * mid <= n {
            lo = mid;
        } else {
            hi = mid;
        }
    }
    proof {
        assert(is_isqrt(n as int, lo as int));
        lemma_isqrt_unique(n as int, lo as int);
    }
    lo
}

/// Half of `a`, truncated toward zero.
pub open spec fn spec_div2_trunc(a: int) -> int {
    if a >= 0 {
        a / 2
    } else {
        -((-a) / 2)
    }
}

/// `num * s / (2 * d)` truncated toward zero; `num` may be negative,
/// `s` is non-negative and `d` positive.
pub open spec fn spec_half_chord(num: int, s: int, d: int) -> int {
    if num >= 0 {
        (num * s) / (2 * d)
    } else {
        -(((-num) * s) / (2 * d))
    }
}

/// The two intersection points of circles of equal squared radius `r_sq`
/// centered at `c1` and `c2`, in fixed-point arithmetic: the floor
/// midpoint of the centers plus and minus a rounded half-chord offset.
/// `None` when the centers coincide or lie too far apart.
pub open spec fn spec_circle_intersection(c1: Point, c2: Point, r_sq: int) -> Option<(Point, Point)> {
    let dx = c2.x - c1.x;
    let dy = c2.y - c1.y;
    let d_sq = dx * dx + dy * dy;
    if d_sq == 0 || d_sq > 4 * r_sq {
        None
    } else {
        let s = spec_isqrt(4 * r_sq - d_sq);
        let d = spec_isqrt(d_sq);
        let wx = spec_half_chord(-dy, s, d);
        let wy = spec_half_chord(dx, s, d);
        let bx = spec_div2_trunc(c1.x + c2.x);
        let by = spec_div2_trunc(c1.y + c2.y);
        Some((
            Point { x: (bx + wx) as i64, y: (by + wy) as i64 },
            Point { x: (bx - wx) as i64, y: (by - wy) as i64 },
        ))
    }
}

/// Truncated `num * s / (2 * d)` on machine integers.
fn half_chord(num: i64, s: i64, d: i64) -> (w: i64)
    requires
        -32_000_000 <= num <= 32_000_000,
        0 <= s <= 32_000_000,
        0 < d <= 32_000_000,
        -d <= num <= d,
    ensures
        w == spec_half_chord(num as int, s as int, d as int),
        -s <= w <= s,
{
    let mag: i64 = if num >= 0 { num } else { -num };
    proof {
        assert(0 <= mag * s <= 1_024_000_000_000_000 && mag * s <= (2 * d) * s)
            by (nonlinear_arith)
            requires
                0 <= mag <= 32_000_000 && 0 <= s <= 32_000_000 && mag <= d && d
                    <= 32_000_000,
        ;
    }
    let q: i64 = (mag * s) / (2 * d);
    proof {
        vstd::arithmetic::div_mod::lemma_div_nonincreasing((mag * s) as int, (2 * d) as int);
        vstd::arithmetic::div_mod::lemma_div_pos_is_pos((mag * s) as int, (2 * d) as int);
        vstd::arithmetic::div_mod::lemma_div_is_ordered(
            (mag * s) as int,
            ((2 * d) * s) as int,
            (2 * d) as int,
        );
        vstd::arithmetic::div_mod::lemma_div_multiples_vanish(s as int, (2 * d) as int);
        assert(q <= s);
    }
    if num >= 0 { q } else { -q }
}

/// Intersection of two equal-radius circles; see `spec_circle_intersection`.
pub fn circle_intersection(c1: Point, c2: Point, r_sq: i64) -> (res: Option<(Point, Point)>)
    requires
        -8_000_000 <= c1.x <= 8_000_000 && -8_000_000 <= c1.y <= 8_000_000,
        -8_000_000 <= c2.x <= 8_000_000 && -8_000_000 <= c2.y <= 8_000_000,
        0 < r_sq <= 1_000_000_000_000,
    ensures
        res == spec_circle_intersection(c1, c2, r_sq as int),
        res is Some ==> (res->Some_0.0.x + res->Some_0.1.x == 2 * spec_div2_trunc(
            c1.x + c2.x,
        ) && res->Some_0.0.y + res->Some_0.1.y == 2 * spec_div2_trunc(c1.y + c2.y)),
        res is Some ==> (-10_000_000 <= res->Some_0.0.x <= 10_000_000 && -10_000_000
            <= res->Some_0.0.y <= 10_000_000 && -10_000_000 <= res->Some_0.1.x <= 10_000_000
            && -10_000_000 <= res->Some_0.1.y <= 10_000_000),
        res is Some ==> (-2_000_000 <= res->Some_0.0.x - spec_div2_trunc(c1.x + c2.x)
            <= 2_000_000 && -2_000_000 <= res->Some_0.0.y - spec_div2_trunc(c1.y + c2.y)
            <= 2_000_000 && -2_000_000 <= res->Some_0.1.x - spec_div2_trunc(c1.x + c2.x)
            <= 2_000_000 && -2_000_000 <= res->Some_0.1.y - spec_div2_trunc(c1.y + c2.y)
            <= 2_000_000),
{
    let dx: i64 = c2.x - c1.x;
    let dy: i64 = c2.y - c1.y;
    proof {
        assert(dx * dx + dy * dy <= 512_000_000_000_000 && dx * dx >= 0 && dy * dy >= 0)
            by (nonlinear_arith)
            requires
                -16_000_000 <= dx <= 16_000_000 && -16_000_000 <= dy <= 16_000_000,
        ;
    }
    let d_sq: i64 = dx * dx + dy * dy;
    if d_sq == 0 || d_sq > 4 * r_sq {
        return None;
    }
    let s: i64 = isqrt(4 * r_sq - d_sq);
    let d: i64 = isqrt(d_sq);
    proof {
        assert(s <= 2_000_000) by (nonlinear_arith)
            requires
                is_isqrt((4 * r_sq - d_sq) as int, s as int),
                4 * r_sq - d_sq <= 4_000_000_000_000,
                s >= 0,
        ;
        assert(d <= 32_000_000) by (nonlinear_arith)
            requires
                is_isqrt(d_sq as int, d as int),
                d_sq <= 512_000_000_000_000,
                d >= 0,
        ;
        assert(d >= 1) by (nonlinear_arith)
            requires
                is_isqrt(d_sq as int, d as int),
                d_sq >= 1,
        ;
        assert(-d <= dy <= d && -d <= dx <= d) by (nonlinear_arith)
            requires
                is_isqrt(d_sq as int, d as int),
                d_sq == dx * dx + dy * dy,
                dx * dx >= 0 && dy * dy >= 0,
                d >= 0,
        ;
    }
    let wx: i64 = half_chord(-dy, s, d);
    let wy: i64 = half_chord(dx, s, d);
    let sx: i64 = c1.x + c2.x;
    let sy: i64 = c1.y + c2.y;
    let bx: i64 = if sx >= 0 { sx / 2 } else { -((-sx) / 2) };
    let by: i64 = if sy >= 0 { sy / 2 } else { -((-sy) / 2) };
    Some((Point { x: bx + wx, y: by + wy }, Point { x: bx - wx, y: by - wy }))
}

/// Every non-negative integer has an integer square root.
pub proof fn lemma_isqrt_exists(n: int)
    requires
        n >= 0,
    ensures
        is_isqrt(n, spec_isqrt(n)),
    decreases n,
{
    if n == 0 {
        assert(is_isqrt(0, 0));
    } else {
        lemma_isqrt_exists(n - 1);
        let r = spec_isqrt(n - 1);
        if (r + 1) * (r + 1) <= n {
            assert(is_isqrt(n, r + 1)) by (nonlinear_arith)
                requires
                    is_isqrt(n - 1, r),
                    (r + 1) * (r + 1) <= n,
            ;
        } else {
            assert(is_isqrt(n, r));
        }
    }
}

/// The rounded half chord is no longer than the chord bound `s`.
pub proof fn lemma_half_chord_bound(num: int, s: int, d: int)
    requires
        -d <= num <= d,
        0 <= s,
        1 <= d,
    ensures
        -s <= spec_half_chord(num, s, d) <= s,
{
    let mag = if num >= 0 { num } else { -num };
    assert(0 <= mag * s && mag * s <= (2 * d) * s) by (nonlinear_arith)
        requires
            0 <= mag && 0 <= s && mag <= d && 1 <= d,
    ;
    vstd::arithmetic::div_mod::lemma_div_pos_is_pos(mag * s, 2 * d);
    vstd::arithmetic::div_mod::lemma_div_is_ordered(mag * s, (2 * d) * s, 2 * d);
    vstd::arithmetic::div_mod::lemma_div_multiples_vanish(s, 2 * d);
}

/// The rounded half chord is odd in its numerator.
pub proof fn lemma_half_chord_odd(num: int, s: int, d: int)
    requires
        0 < d,
    ensures
        spec_half_chord(-num, s, d) == -spec_half_chord(num, s, d),
{
    if num == 0 {
        assert(spec_half_chord(0, s, d) == (0 * s) / (2 * d));
        assert((0 * s) / (2 * d) == 0) by {
            vstd::arithmetic::div_mod::lemma_div_of0(2 * d);
        }
    } else if num > 0 {
        assert(spec_half_chord(-num, s, d) == -((num * s) / (2 * d)));
    } else {
        assert(spec_half_chord(-num, s, d) == ((-num) * s) / (2 * d));
    }
}

} // verus!
