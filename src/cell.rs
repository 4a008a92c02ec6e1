use vstd::prelude::*;

use vstd::arithmetic::div_mod::{
    lemma_fundamental_div_mod, lemma_fundamental_div_mod_converse, lemma_mod_pos_bound,
    lemma_small_mod,
};

use crate::grid::Grid;

verus! {

/// A point with a horizontal coordinate (`global_width`) and a vertical one
/// (`global_depth`). Cells are values: every move returns a new cell.
#[derive(Debug, Clone, Copy, PartialEq, Eq, Hash, Structural)]
pub struct Cell {
    pub(crate) global_width: u8,
    pub(crate) global_depth: u8,
}

impl Cell {
    /// The horizontal coordinate.
    pub open(crate) spec fn w(self) -> int {
        self.global_width as int
    }

    /// The vertical coordinate.
    pub open(crate) spec fn d(self) -> int {
        self.global_depth as int
    }

    pub open(crate) spec fn spec_new(global_width: u8, global_depth: u8) -> Cell {
        Cell { global_width, global_depth }
    }

    /// This cell with its horizontal coordinate replaced by `w`.
    pub open(crate) spec fn with_w(self, w: int) -> Cell {
        Cell { global_width: w as u8, global_depth: self.global_depth }
    }

    /// This cell with its vertical coordinate replaced by `d`.
    pub open(crate) spec fn with_d(self, d: int) -> Cell {
        Cell { global_width: self.global_width, global_depth: d as u8 }
    }

    /// Both coordinates lie in the grid's inclusive ranges.
    pub open spec fn spec_within(self, grid: Grid) -> bool {
        &&& grid.start().w() <= self.w() <= grid.end().w()
        &&& grid.start().d() <= self.d() <= grid.end().d()
    }

    #[verifier::when_used_as_spec(spec_new)]
    pub fn new(global_width: u8, global_depth: u8) -> (r: Cell)
        ensures
            r.w() == global_width,
            r.d() == global_depth,
    {
        Cell { global_width, global_depth }
    }

    #[verifier::when_used_as_spec(spec_within)]
    pub fn within(self, grid: Grid) -> (r: bool)
        ensures
            r == self.spec_within(grid),
    {
        grid.start.global_width <= self.global_width && self.global_width <= grid.end.global_width
            && grid.start.global_depth <= self.global_depth && self.global_depth
            <= grid.end.global_depth
    }

    /// Requires that `self` lies within `grid`: a call where that cannot be shown
    /// does not verify, so this is where a caller states the fact.
    pub fn within_panic(self, grid: Grid)
        requires
            self.within(grid),
    {
    }

    pub fn global_width(self) -> (r: u8)
        ensures
            r == self.w(),
    {
        self.global_width
    }

    pub fn global_depth(self) -> (r: u8)
        ensures
            r == self.d(),
    {
        self.global_depth
    }

    /// Column of `self` counted from the grid's left border.
    pub fn width(self, grid: Grid) -> (r: u8)
        requires
            self.within(grid),
        ensures
            r == self.w() - grid.start().w(),
    {
        self.global_width - grid.start.global_width
    }

    /// Columns between `self` and the grid's right border.
    pub fn width_gap(self, grid: Grid) -> (r: u8)
        requires
            self.within(grid),
        ensures
            r == grid.end().w() - self.w(),
    {
        grid.end.global_width - self.global_width
    }

    /// Row of `self` counted from the grid's top border.
    pub fn depth(self, grid: Grid) -> (r: u8)
        requires
            self.within(grid),
        ensures
            r == self.d() - grid.start().d(),
    {
        self.global_depth - grid.start.global_depth
    }

    /// Rows between `self` and the grid's bottom border.
    pub fn depth_gap(self, grid: Grid) -> (r: u8)
        requires
            self.within(grid),
        ensures
            r == grid.end().d() - self.d(),
    {
        grid.end.global_depth - self.global_depth
    }

    /// Whether moving up by `step` would leave the grid.
    pub fn will_underflow_depth(self, grid: Grid, step: u8) -> (r: bool)
        requires
            self.within(grid),
        ensures
            r == (self.d() - step < grid.start().d()),
    {
        self.global_depth < step || self.global_depth - step < grid.start.global_depth
    }

    /// Whether moving down by `step` would leave the grid.
    pub fn will_overflow_depth(self, grid: Grid, step: u8) -> (r: bool)
        requires
            self.within(grid),
        ensures
            r == (self.d() + step > grid.end().d()),
    {
        self.global_depth > u8::MAX - step || self.global_depth + step > grid.end.global_depth
    }

    /// Whether moving left by `step` would leave the grid.
    pub fn will_underflow_width(self, grid: Grid, step: u8) -> (r: bool)
        requires
            self.within(grid),
        ensures
            r == (self.w() - step < grid.start().w()),
    {
        self.global_width < step || self.global_width - step < grid.start.global_width
    }

    /// Whether moving right by `step` would leave the grid.
    pub fn will_overflow_width(self, grid: Grid, step: u8) -> (r: bool)
        requires
            self.within(grid),
        ensures
            r == (self.w() + step > grid.end().w()),
    {
        self.global_width > u8::MAX - step || self.global_width + step > grid.end.global_width
    }

    /// Moves up by `step`; the move must stay in the grid.
    pub fn strict_up(self, grid: Grid, step: u8) -> (r: Cell)
        requires
            self.within(grid),
            self.d() - step >= grid.start().d(),
        ensures
            r == self.with_d(self.d() - step),
    {
        Cell { global_width: self.global_width, global_depth: self.global_depth - step }
    }

    /// Moves down by `step`; the move must stay in the grid.
    pub fn strict_down(self, grid: Grid, step: u8) -> (r: Cell)
        requires
            self.within(grid),
            self.d() + step <= grid.end().d(),
        ensures
            r == self.with_d(self.d() + step),
    {
        Cell { global_width: self.global_width, global_depth: self.global_depth + step }
    }

    /// Moves left by `step`; the move must stay in the grid.
    pub fn strict_left(self, grid: Grid, step: u8) -> (r: Cell)
        requires
            self.within(grid),
            self.w() - step >= grid.start().w(),
        ensures
            r == self.with_w(self.w() - step),
    {
        Cell { global_width: self.global_width - step, global_depth: self.global_depth }
    }

    /// Moves right by `step`; the move must stay in the grid.
    pub fn strict_right(self, grid: Grid, step: u8) -> (r: Cell)
        requires
            self.within(grid),
            self.w() + step <= grid.end().w(),
        ensures
            r == self.with_w(self.w() + step),
    {
        Cell { global_width: self.global_width + step, global_depth: self.global_depth }
    }

    /// Moves up by `step`, stopping at the top border.
    pub fn saturating_up(self, grid: Grid, step: u8) -> (r: Cell)
        requires
            self.within(grid),
        ensures
            r == self.with_d(grid.clamp_d(self.d() - step)),
    {
        let next_depth = if self.will_underflow_depth(grid, step) {
            grid.start.global_depth
        } else {
            self.global_depth - step
        };
        Cell { global_width: self.global_width, global_depth: next_depth }
    }

    /// Moves down by `step`, stopping at the bottom border.
    pub fn saturating_down(self, grid: Grid, step: u8) -> (r: Cell)
        requires
            self.within(grid),
        ensures
            r == self.with_d(grid.clamp_d(self.d() + step)),
    {
        let next_depth = if self.will_overflow_depth(grid, step) {
            grid.end.global_depth
        } else {
            self.global_depth + step
        };
        Cell { global_width: self.global_width, global_depth: next_depth }
    }

    /// Moves left by `step`, stopping at the left border.
    pub fn saturating_left(self, grid: Grid, step: u8) -> (r: Cell)
        requires
            self.within(grid),
        ensures
            r == self.with_w(grid.clamp_w(self.w() - step)),
    {
        let next_width = if self.will_underflow_width(grid, step) {
            grid.start.global_width
        } else {
            self.global_width - step
        };
        Cell { global_width: next_width, global_depth: self.global_depth }
    }

    /// Moves right by `step`, stopping at the right border.
    pub fn saturating_right(self, grid: Grid, step: u8) -> (r: Cell)
        requires
            self.within(grid),
        ensures
            r == self.with_w(grid.clamp_w(self.w() + step)),
    {
        let next_width = if self.will_overflow_width(grid, step) {
            grid.end.global_width
        } else {
            self.global_width + step
        };
        Cell { global_width: next_width, global_depth: self.global_depth }
    }

    /// Moves up by `step`. A move that would leave the grid re-enters from the
    /// bottom border and goes on counting: the rows form a cycle. The flag says
    /// whether the move wrapped.
    pub fn overflowing_up(self, grid: Grid, step: u8) -> (r: (Cell, bool))
        requires
            self.within(grid),
        ensures
            r.1 == (self.d() - step < grid.start().d()),
            r.0 == self.with_d(grid.cycle_d(self.d() - step)),
            r.1 ==> r.0.d() == grid.end().d() - (step - (self.d() - grid.start().d()) - 1)
                % grid.extent_d(),
    {
        proof {
            use_type_invariant(&grid);
        }
        let underflowed = self.will_underflow_depth(grid, step);
        let next_depth = if underflowed {
            let len: u16 = (grid.end.global_depth - grid.start.global_depth) as u16 + 1;
            let past: u8 = step - self.depth(grid) - 1;
            let back: u16 = past as u16 % len;
            proof {
                lemma_cycle(len as int, past as int);
            }
            grid.end.global_depth - back as u8
        } else {
            proof {
                lemma_cycle(grid.extent_d(), self.d() - step - grid.start().d());
            }
            self.global_depth - step
        };
        (Cell { global_width: self.global_width, global_depth: next_depth }, underflowed)
    }

    /// Moves down by `step`. A move that would leave the grid re-enters from the
    /// top border and goes on counting. The flag says whether the move wrapped.
    pub fn overflowing_down(self, grid: Grid, step: u8) -> (r: (Cell, bool))
        requires
            self.within(grid),
        ensures
            r.1 == (self.d() + step > grid.end().d()),
            r.0 == self.with_d(grid.cycle_d(self.d() + step)),
            r.1 ==> r.0.d() == grid.start().d() + (step - (grid.end().d() - self.d()) - 1)
                % grid.extent_d(),
    {
        proof {
            use_type_invariant(&grid);
        }
        let overflowed = self.will_overflow_depth(grid, step);
        let next_depth = if overflowed {
            let len: u16 = (grid.end.global_depth - grid.start.global_depth) as u16 + 1;
            let past: u8 = step - self.depth_gap(grid) - 1;
            let ahead: u16 = past as u16 % len;
            proof {
                lemma_cycle(len as int, past as int);
            }
            grid.start.global_depth + ahead as u8
        } else {
            proof {
                lemma_cycle(grid.extent_d(), self.d() + step - grid.start().d());
            }
            self.global_depth + step
        };
        (Cell { global_width: self.global_width, global_depth: next_depth }, overflowed)
    }

    /// Moves left by `step`. A move that would leave the grid re-enters from the
    /// right border and goes on counting: the columns form a cycle. The flag says
    /// whether the move wrapped.
    pub fn overflowing_left(self, grid: Grid, step: u8) -> (r: (Cell, bool))
        requires
            self.within(grid),
        ensures
            r.1 == (self.w() - step < grid.start().w()),
            r.0 == self.with_w(grid.cycle_w(self.w() - step)),
            r.1 ==> r.0.w() == grid.end().w() - (step - (self.w() - grid.start().w()) - 1)
                % grid.extent_w(),
    {
        proof {
            use_type_invariant(&grid);
        }
        let underflowed = self.will_underflow_width(grid, step);
        let next_width = if underflowed {
            let len: u16 = (grid.end.global_width - grid.start.global_width) as u16 + 1;
            let past: u8 = step - self.width(grid) - 1;
            let back: u16 = past as u16 % len;
            proof {
                lemma_cycle(len as int, past as int);
            }
            grid.end.global_width - back as u8
        } else {
            proof {
                lemma_cycle(grid.extent_w(), self.w() - step - grid.start().w());
            }
            self.global_width - step
        };
        (Cell { global_width: next_width, global_depth: self.global_depth }, underflowed)
    }

    /// Moves right by `step`. A move that would leave the grid re-enters from the
    /// left border and goes on counting. The flag says whether the move wrapped.
    pub fn overflowing_right(self, grid: Grid, step: u8) -> (r: (Cell, bool))
        requires
            self.within(grid),
        ensures
            r.1 == (self.w() + step > grid.end().w()),
            r.0 == self.with_w(grid.cycle_w(self.w() + step)),
            r.1 ==> r.0.w() == grid.start().w() + (step - (grid.end().w() - self.w()) - 1)
                % grid.extent_w(),
    {
        proof {
            use_type_invariant(&grid);
        }
        let overflowed = self.will_overflow_width(grid, step);
        let next_width = if overflowed {
            let len: u16 = (grid.end.global_width - grid.start.global_width) as u16 + 1;
            let past: u8 = step - self.width_gap(grid) - 1;
            let ahead: u16 = past as u16 % len;
            proof {
                lemma_cycle(len as int, past as int);
            }
            grid.start.global_width + ahead as u8
        } else {
            proof {
                lemma_cycle(grid.extent_w(), self.w() + step - grid.start().w());
            }
            self.global_width + step
        };
        (Cell { global_width: next_width, global_depth: self.global_depth }, overflowed)
    }

    /// [`Cell::overflowing_up`] without the flag.
    pub fn wrapping_up(self, grid: Grid, step: u8) -> (r: Cell)
        requires
            self.within(grid),
        ensures
            r == self.with_d(grid.cycle_d(self.d() - step)),
    {
        self.overflowing_up(grid, step).0
    }

    /// [`Cell::overflowing_down`] without the flag.
    pub fn wrapping_down(self, grid: Grid, step: u8) -> (r: Cell)
        requires
            self.within(grid),
        ensures
            r == self.with_d(grid.cycle_d(self.d() + step)),
    {
        self.overflowing_down(grid, step).0
    }

    /// [`Cell::overflowing_left`] without the flag.
    pub fn wrapping_left(self, grid: Grid, step: u8) -> (r: Cell)
        requires
            self.within(grid),
        ensures
            r == self.with_w(grid.cycle_w(self.w() - step)),
    {
        self.overflowing_left(grid, step).0
    }

    /// [`Cell::overflowing_right`] without the flag.
    pub fn wrapping_right(self, grid: Grid, step: u8) -> (r: Cell)
        requires
            self.within(grid),
        ensures
            r == self.with_w(grid.cycle_w(self.w() + step)),
    {
        self.overflowing_right(grid, step).0
    }

    /// The cell on the top border in the same column.
    pub fn project_up(self, grid: Grid) -> (r: Cell)
        requires
            self.within(grid),
        ensures
            r == self.with_d(grid.start().d()),
    {
        self.saturating_up(grid, u8::MAX)
    }

    /// The cell on the bottom border in the same column.
    pub fn project_down(self, grid: Grid) -> (r: Cell)
        requires
            self.within(grid),
        ensures
            r == self.with_d(grid.end().d()),
    {
        self.saturating_down(grid, u8::MAX)
    }

    /// The cell on the left border in the same row.
    pub fn project_left(self, grid: Grid) -> (r: Cell)
        requires
            self.within(grid),
        ensures
            r == self.with_w(grid.start().w()),
    {
        self.saturating_left(grid, u8::MAX)
    }

    /// The cell on the right border in the same row.
    pub fn project_right(self, grid: Grid) -> (r: Cell)
        requires
            self.within(grid),
        ensures
            r == self.with_w(grid.end().w()),
    {
        self.saturating_right(grid, u8::MAX)
    }
}

impl From<(u8, u8)> for Cell {
    /// The cell whose coordinates are the pair's, width first.
    fn from(value: (u8, u8)) -> (r: Cell) {
        Cell { global_width: value.0, global_depth: value.1 }
    }
}

impl vstd::std_specs::convert::FromSpecImpl<(u8, u8)> for Cell {
    open spec fn obeys_from_spec() -> bool {
        true
    }

    open spec fn from_spec(v: (u8, u8)) -> Cell {
        Cell::spec_new(v.0, v.1)
    }
}

impl From<Cell> for (u8, u8) {
    /// The cell's coordinates, width first.
    fn from(value: Cell) -> (r: (u8, u8)) {
        (value.global_width, value.global_depth)
    }
}

impl vstd::std_specs::convert::FromSpecImpl<Cell> for (u8, u8) {
    open spec fn obeys_from_spec() -> bool {
        true
    }

    open spec fn from_spec(v: Cell) -> (u8, u8) {
        (v.w() as u8, v.d() as u8)
    }
}

/// An offset `m` past a border, reduced modulo the axis length `len`, in the
/// three forms that the wrapping moves meet.
proof fn lemma_cycle(len: int, m: int)
    requires
        0 < len,
        0 <= m,
    ensures
        m < len ==> m % len == m,
        (m + len) % len == m % len,
        (-(m + 1)) % len == len - 1 - m % len,
{
    let q = m / len;
    let r = m % len;
    lemma_fundamental_div_mod(m, len);
    lemma_mod_pos_bound(m, len);
    assert(m == q * len + r) by (nonlinear_arith)
        requires
            m == len * q + r,
    ;
    if m < len {
        lemma_small_mod(m as nat, len as nat);
    }
    assert(m + len == (q + 1) * len + r) by (nonlinear_arith)
        requires
            m == q * len + r,
    ;
    lemma_fundamental_div_mod_converse(m + len, len, q + 1, r);
    assert(-(m + 1) == (-q - 1) * len + (len - 1 - r)) by (nonlinear_arith)
        requires
            m == q * len + r,
    ;
    lemma_fundamental_div_mod_converse(-(m + 1), len, -q - 1, len - 1 - r);
}

} // verus!
