//! Rectangular byte grids: terrain height, placement, pathing,
//! visibility and creep layers are all byte-per-cell rasters.

use vstd::prelude::*;

verus! {

/// Width and height never exceed this many tiles.
pub const GRID_DIM_LIMIT: usize = 4096;

/// A row-major byte raster over map tiles.
#[derive(Clone, Debug)]
pub struct Grid {
    pub width: usize,
    pub height: usize,
    pub cells: Vec<u8>,
}

impl Grid {
    /// Dimensions are bounded and the backing vector matches them.
    pub open spec fn wf(self) -> bool {
        self.width <= GRID_DIM_LIMIT && self.height <= GRID_DIM_LIMIT
            && self.cells.len() == self.width * self.height
    }

    /// The byte stored at column `x`, row `y`.
    pub open spec fn spec_at(self, x: int, y: int) -> u8 {
        self.cells[y * self.width + x]
    }

    pub open spec fn spec_in_bounds(self, x: int, y: int) -> bool {
        0 <= x < self.width && 0 <= y < self.height
    }

    /// A grid of the given dimensions with every cell set to `fill`.
    pub fn new(width: usize, height: usize, fill: u8) -> (g: Grid)
        requires
            width <= GRID_DIM_LIMIT && height <= GRID_DIM_LIMIT,
        ensures
            g.wf(),
            g.width == width && g.height == height,
            forall|x: int, y: int| g.spec_in_bounds(x, y) ==> g.spec_at(x, y) == fill,
    {
        proof {
            assert(width * height <= GRID_DIM_LIMIT * GRID_DIM_LIMIT) by (nonlinear_arith)
                requires
                    width <= GRID_DIM_LIMIT && height <= GRID_DIM_LIMIT,
            ;
        }
        let n: usize = width * height;
        let mut cells: Vec<u8> = Vec::new();
        let mut i: usize = 0;
        while i < n
            invariant
                i <= n,
                cells.len() == i,
                forall|k: int| 0 <= k < i ==> cells[k] == fill,
            decreases n - i,
        {
            cells.push(fill);
            i = i + 1;
        }
        let g = Grid { width, height, cells };
        proof {
            assert forall|x: int, y: int| g.spec_in_bounds(x, y) implies g.spec_at(x, y)
                == fill by {
                assert(0 <= y * width + x < width * height) by (nonlinear_arith)
                    requires
                        0 <= x < width && 0 <= y < height,
                ;
            }
        }
        g
    }

    pub fn in_bounds(&self, x: usize, y: usize) -> (r: bool)
        ensures
            r == self.spec_in_bounds(x as int, y as int),
    {
        x < self.width && y < self.height
    }

    pub fn get(&self, x: usize, y: usize) -> (v: u8)
        requires
            self.wf(),
            self.spec_in_bounds(x as int, y as int),
        ensures
            v == self.spec_at(x as int, y as int),
    {
        proof {
            assert(y * self.width + x < self.width * self.height) by (nonlinear_arith)
                requires
                    x < self.width && y < self.height,
            ;
        }
        self.cells[y * self.width + x]
    }

    pub fn set(&mut self, x: usize, y: usize, v: u8)
        requires
            old(self).wf(),
            old(self).spec_in_bounds(x as int, y as int),
        ensures
            final(self).wf(),
            final(self).width == old(self).width && final(self).height == old(self).height,
            final(self).spec_at(x as int, y as int) == v,
            forall|a: int, b: int|
                final(self).spec_in_bounds(a, b) && (a != x || b != y) ==> final(self).spec_at(
                    a, b) == old(self).spec_at(a, b),
    {
        proof {
            assert(y * self.width + x < self.width * self.height) by (nonlinear_arith)
                requires
                    x < self.width && y < self.height,
            ;
        }
        let idx: usize = y * self.width + x;
        self.cells.set(idx, v);
        proof {
            assert forall|a: int, b: int|
                self.spec_in_bounds(a, b) && (a != x || b != y) implies self.spec_at(a, b)
                == old(self).spec_at(a, b) by {
                assert(0 <= b * self.width + a < self.width * self.height
                    && (b * self.width + a != y * self.width + x)) by (nonlinear_arith)
                    requires
                        0 <= a < self.width && 0 <= b < self.height,
                        0 <= x < self.width && 0 <= y < self.height,
                        a != x || b != y,
                ;
            }
        }
    }

    /// A free cell (value zero) marks a buildable or pathable tile.
    pub fn is_free(&self, x: usize, y: usize) -> (r: bool)
        requires
            self.wf(),
            self.spec_in_bounds(x as int, y as int),
        ensures
            r == (self.spec_at(x as int, y as int) == 0),
    {
        self.get(x, y) == 0
    }
}

impl Default for Grid {
    /// The empty grid.
    fn default() -> (g: Grid)
        ensures
            g.wf(),
            g.width == 0 && g.height == 0,
    {
        Grid { width: 0, height: 0, cells: Vec::new() }
    }
}

} // verus!
