use vstd::prelude::*;

use vstd::arithmetic::div_mod::{
    lemma_div_pos_is_pos, lemma_fundamental_div_mod, lemma_fundamental_div_mod_converse,
    lemma_mod_pos_bound, lemma_multiply_divide_lt,
};

use crate::cell::Cell;
use crate::traverse::{Cells, Columns, Rows};

verus! {

/// An inclusive rectangle of cells, from `start` (top left) to `end` (bottom right).
#[derive(Debug, Clone, Copy, PartialEq, Eq, Hash, Structural)]
pub struct Grid {
    pub(crate) start: Cell,
    pub(crate) end: Cell,
}

impl Grid {
    /// Neither axis runs backwards: `start` is above and to the left of `end`, or on them.
    #[verifier::type_invariant]
    pub open(crate) spec fn valid(self) -> bool {
        self.start.w() <= self.end.w() && self.start.d() <= self.end.d()
    }

    pub open(crate) spec fn spec_start(self) -> Cell {
        self.start
    }

    pub open(crate) spec fn spec_end(self) -> Cell {
        self.end
    }

    /// Number of columns.
    pub open spec fn extent_w(self) -> int {
        self.spec_end().w() - self.spec_start().w() + 1
    }

    /// Number of rows.
    pub open spec fn extent_d(self) -> int {
        self.spec_end().d() - self.spec_start().d() + 1
    }

    /// Number of cells.
    pub open spec fn spec_size(self) -> int {
        self.extent_w() * self.extent_d()
    }

    /// The cell `w` columns right of and `d` rows below `start`.
    pub open spec fn at(self, w: int, d: int) -> Cell {
        Cell::spec_new((self.spec_start().w() + w) as u8, (self.spec_start().d() + d) as u8)
    }

    /// The horizontal coordinate `x` held to the grid's columns.
    pub open spec fn clamp_w(self, x: int) -> int {
        if x < self.spec_start().w() {
            self.spec_start().w()
        } else if x > self.spec_end().w() {
            self.spec_end().w()
        } else {
            x
        }
    }

    /// The vertical coordinate `x` held to the grid's rows.
    pub open spec fn clamp_d(self, x: int) -> int {
        if x < self.spec_start().d() {
            self.spec_start().d()
        } else if x > self.spec_end().d() {
            self.spec_end().d()
        } else {
            x
        }
    }

    /// The horizontal coordinate `x` brought back onto the grid's columns, which
    /// are taken as a cycle: leaving on one side enters again on the other.
    pub open spec fn cycle_w(self, x: int) -> int {
        self.spec_start().w() + (x - self.spec_start().w()) % self.extent_w()
    }

    /// The vertical coordinate `x` brought back onto the grid's rows, taken as a cycle.
    pub open spec fn cycle_d(self, x: int) -> int {
        self.spec_start().d() + (x - self.spec_start().d()) % self.extent_d()
    }


    /// Position of `c` when the grid is read row by row, left to right, from 0.
    pub open spec fn index_of(self, c: Cell) -> int {
        (c.d() - self.spec_start().d()) * self.extent_w() + (c.w() - self.spec_start().w())
    }

    /// The cell at position `k` when the grid is read row by row, left to right.
    pub open spec fn nth_cell(self, k: int) -> Cell {
        self.at(k % self.extent_w(), k / self.extent_w())
    }

    /// Row `k` from the top, as a grid one cell deep.
    pub open(crate) spec fn nth_row(self, k: int) -> Grid {
        Grid { start: self.at(0, k), end: self.at(self.extent_w() - 1, k) }
    }

    /// Column `k` from the left, as a grid one cell wide.
    pub open(crate) spec fn nth_column(self, k: int) -> Grid {
        Grid { start: self.at(k, 0), end: self.at(k, self.extent_d() - 1) }
    }

    /// Each cell of a grid stands at its own position, and positions run from 0
    /// to the size less one.
    pub proof fn lemma_index_of(self, c: Cell)
        requires
            self.valid(),
            c.within(self),
        ensures
            0 <= self.index_of(c) < self.spec_size(),
            self.nth_cell(self.index_of(c)) == c,
    {
        let w = self.extent_w();
        let q = c.d() - self.start.d();
        let r = c.w() - self.start.w();
        let k = self.index_of(c);
        assert(k == q * w + r);
        lemma_fundamental_div_mod_converse(k, w, q, r);
        assert(k < w * self.extent_d()) by (nonlinear_arith)
            requires
                k == q * w + r,
                0 <= q < self.extent_d(),
                0 <= r < w,
        ;
        assert(0 <= k) by (nonlinear_arith)
            requires
                k == q * w + r,
                0 <= q,
                0 <= r,
                0 < w,
        ;
    }


    /// Position `k` of a grid names a cell of it, in column `k % width` and row
    /// `k / width`, and that cell stands at position `k`.
    pub proof fn lemma_nth_cell(self, k: int)
        requires
            self.valid(),
            0 <= k < self.spec_size(),
        ensures
            self.nth_cell(k).within(self),
            self.nth_cell(k).w() == self.start().w() + k % self.extent_w(),
            self.nth_cell(k).d() == self.start().d() + k / self.extent_w(),
            self.index_of(self.nth_cell(k)) == k,
    {
        let w = self.extent_w();
        lemma_mod_pos_bound(k, w);
        lemma_div_pos_is_pos(k, w);
        lemma_multiply_divide_lt(k, w, self.extent_d());
        lemma_fundamental_div_mod(k, w);
        assert(k == (k / w) * w + k % w) by (nonlinear_arith)
            requires
                k == w * (k / w) + k % w,
        ;
    }

    /// The first cell, top left.
    #[verifier::when_used_as_spec(spec_start)]
    pub fn start(self) -> (r: Cell)
        ensures
            r == self.spec_start(),
    {
        self.start
    }

    /// The last cell, bottom right.
    #[verifier::when_used_as_spec(spec_end)]
    pub fn end(self) -> (r: Cell)
        ensures
            r == self.spec_end(),
    {
        self.end
    }

    /// A grid of `width` columns and `depth` rows whose first cell is `(0, 0)`.
    pub fn new(width: u8, depth: u8) -> (r: Grid)
        requires
            width >= 1,
            depth >= 1,
        ensures
            r.start() == Cell::new(0, 0),
            r.end() == Cell::new((width - 1) as u8, (depth - 1) as u8),
    {
        Grid {
            start: Cell { global_width: 0, global_depth: 0 },
            end: Cell { global_width: width - 1, global_depth: depth - 1 },
        }
    }

    /// A grid of `width` columns and `depth` rows whose first cell is `indent`.
    pub fn indented(width: u8, depth: u8, indent: (u8, u8)) -> (r: Grid)
        requires
            width >= 1,
            depth >= 1,
            indent.0 + width - 1 <= u8::MAX,
            indent.1 + depth - 1 <= u8::MAX,
        ensures
            r.start() == Cell::new(indent.0, indent.1),
            r.end() == Cell::new((indent.0 + width - 1) as u8, (indent.1 + depth - 1) as u8),
    {
        Grid {
            start: Cell { global_width: indent.0, global_depth: indent.1 },
            end: Cell {
                global_width: indent.0 + (width - 1),
                global_depth: indent.1 + (depth - 1),
            },
        }
    }

    /// The grid from `start` to `end`, both included; `start` may not lie
    /// below or right of `end`.
    pub fn spanning(start: Cell, end: Cell) -> (r: Grid)
        requires
            start.w() <= end.w(),
            start.d() <= end.d(),
        ensures
            r.start() == start,
            r.end() == end,
    {
        Grid { start, end }
    }

    pub open spec fn spec_within(self, grid: Grid) -> bool {
        self.start().within(grid) && self.end().within(grid)
    }

    /// Whether every cell of `self` lies within `grid`.
    #[verifier::when_used_as_spec(spec_within)]
    pub fn within(self, grid: Grid) -> (r: bool)
        ensures
            r == self.spec_within(grid),
    {
        self.start.within(grid) && self.end.within(grid)
    }

    /// Requires that `self` lies within `grid`: a call where that cannot be shown
    /// does not verify.
    pub fn within_panic(self, grid: Grid)
        requires
            self.within(grid),
    {
    }

    /// The cell `width` columns right of and `depth` rows below `start`; both
    /// offsets count from 0 and must stay in the grid.
    pub fn member(self, width: u8, depth: u8) -> (r: Cell)
        requires
            width < self.extent_w(),
            depth < self.extent_d(),
        ensures
            r == self.at(width as int, depth as int),
    {
        proof {
            use_type_invariant(&self);
        }
        self.start.strict_right(self, width).strict_down(self, depth)
    }

    /// The sub-grid of `width` columns and `depth` rows that shares `start` with `self`.
    pub fn area(self, width: u8, depth: u8) -> (r: Grid)
        requires
            1 <= width <= self.extent_w(),
            1 <= depth <= self.extent_d(),
        ensures
            r.start() == self.start(),
            r.end() == self.at(width - 1, depth - 1),
    {
        proof {
            use_type_invariant(&self);
        }
        Grid {
            start: self.start,
            end: self.start.strict_right(self, width - 1).strict_down(self, depth - 1),
        }
    }

    /// The sub-grid of `width` columns and `depth` rows whose first cell is
    /// `indent` columns and rows away from `start`.
    pub fn slice(self, width: u8, depth: u8, indent: (u8, u8)) -> (r: Grid)
        requires
            width >= 1,
            depth >= 1,
            indent.0 + width <= self.extent_w(),
            indent.1 + depth <= self.extent_d(),
        ensures
            r.start() == self.at(indent.0 as int, indent.1 as int),
            r.end() == self.at(indent.0 + width - 1, indent.1 + depth - 1),
    {
        proof {
            use_type_invariant(&self);
        }
        Grid {
            start: self.start.strict_right(self, indent.0).strict_down(self, indent.1),
            end: self.start.strict_right(self, indent.0 + (width - 1)).strict_down(
                self,
                indent.1 + (depth - 1),
            ),
        }
    }

    /// Number of columns; a grid of 256 columns has no `u8` width.
    pub fn width(self) -> (r: u8)
        requires
            self.extent_w() <= u8::MAX,
        ensures
            r == self.extent_w(),
    {
        proof {
            use_type_invariant(&self);
        }
        self.end.global_width - self.start.global_width + 1
    }

    /// Number of rows; a grid of 256 rows has no `u8` depth.
    pub fn depth(self) -> (r: u8)
        requires
            self.extent_d() <= u8::MAX,
        ensures
            r == self.extent_d(),
    {
        proof {
            use_type_invariant(&self);
        }
        self.end.global_depth - self.start.global_depth + 1
    }

    /// Number of cells; only the full 256 by 256 grid has no `u16` size.
    pub fn size(self) -> (r: u16)
        requires
            self.spec_size() <= u16::MAX,
        ensures
            r == self.spec_size(),
    {
        proof {
            use_type_invariant(&self);
        }
        let width: u32 = (self.end.global_width - self.start.global_width) as u32 + 1;
        let depth: u32 = (self.end.global_depth - self.start.global_depth) as u32 + 1;
        proof {
            vstd::arithmetic::mul::lemma_mul_upper_bound(width as int, 256, depth as int, 256);
        }
        (width * depth) as u16
    }

    /// Every cell of the grid, row by row, each row left to right.
    pub fn cells(self) -> (r: Cells)
        ensures
            r.grid() == self,
            r.taken() == 0,
    {
        proof {
            use_type_invariant(&self);
        }
        Cells { grid: self, current: self.start, consumed: false }
    }

    /// Every row of the grid, top to bottom, each as a grid one cell deep.
    pub fn rows(self) -> (r: Rows)
        ensures
            r.grid() == self,
            r.taken() == 0,
    {
        proof {
            use_type_invariant(&self);
        }
        Rows {
            grid: self,
            current: Grid { start: self.start, end: self.start.project_right(self) },
            consumed: false,
        }
    }

    /// Every column of the grid, left to right, each as a grid one cell wide.
    pub fn columns(self) -> (r: Columns)
        ensures
            r.grid() == self,
            r.taken() == 0,
    {
        proof {
            use_type_invariant(&self);
        }
        Columns {
            grid: self,
            current: Grid { start: self.start, end: self.start.project_down(self) },
            consumed: false,
        }
    }
}


impl From<Grid> for (Cell, Cell) {
    /// The grid's first and last cells.
    fn from(value: Grid) -> (r: (Cell, Cell)) {
        (value.start, value.end)
    }
}

impl vstd::std_specs::convert::FromSpecImpl<Grid> for (Cell, Cell) {
    open spec fn obeys_from_spec() -> bool {
        true
    }

    open spec fn from_spec(v: Grid) -> (Cell, Cell) {
        (v.start(), v.end())
    }
}

impl From<Grid> for ((u8, u8), (u8, u8)) {
    /// The coordinates of the grid's first and last cells.
    fn from(value: Grid) -> (r: ((u8, u8), (u8, u8))) {
        (value.start.into(), value.end.into())
    }
}

impl vstd::std_specs::convert::FromSpecImpl<Grid> for ((u8, u8), (u8, u8)) {
    open spec fn obeys_from_spec() -> bool {
        true
    }

    open spec fn from_spec(v: Grid) -> ((u8, u8), (u8, u8)) {
        (
            (v.start().w() as u8, v.start().d() as u8),
            (v.end().w() as u8, v.end().d() as u8),
        )
    }
}

} // verus!
