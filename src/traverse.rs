use vstd::prelude::*;

use vstd::arithmetic::div_mod::{lemma_mod_self_0, lemma_small_mod};

use crate::cell::Cell;
use crate::grid::Grid;

verus! {

/// Walks every cell of a grid, row by row, each row left to right.
///
/// `current` is the next cell to hand out; once the grid's last cell has been
/// handed out, `consumed` is set and the walk is over for good.
#[derive(Debug, Clone, Copy, PartialEq, Eq)]
pub struct Cells {
    pub(crate) grid: Grid,
    pub(crate) current: Cell,
    pub(crate) consumed: bool,
}

/// Walks the rows of a grid, top to bottom; each row is a grid one cell deep.
#[derive(Debug, Clone, Copy, PartialEq, Eq)]
pub struct Rows {
    pub(crate) grid: Grid,
    pub(crate) current: Grid,
    pub(crate) consumed: bool,
}

/// Walks the columns of a grid, left to right; each column is a grid one cell wide.
#[derive(Debug, Clone, Copy, PartialEq, Eq)]
pub struct Columns {
    pub(crate) grid: Grid,
    pub(crate) current: Grid,
    pub(crate) consumed: bool,
}

impl Cells {
    #[verifier::type_invariant]
    pub(crate) open spec fn well_formed(self) -> bool {
        &&& self.current.within(self.grid)
        &&& self.consumed ==> self.current == self.grid.end()
    }

    /// The grid being walked.
    pub open(crate) spec fn grid(self) -> Grid {
        self.grid
    }

    /// How many cells have been handed out so far.
    pub open(crate) spec fn taken(self) -> int {
        self.grid.index_of(self.current) + if self.consumed {
            1int
        } else {
            0int
        }
    }

    /// The next cell in row-major order, or `None` once all of them were handed out.
    pub fn next(&mut self) -> (r: Option<Cell>)
        ensures
            final(self).grid() == old(self).grid(),
            0 <= final(self).taken() <= final(self).grid().spec_size(),
            old(self).taken() < old(self).grid().spec_size() ==> {
                &&& r == Some(old(self).grid().nth_cell(old(self).taken()))
                &&& final(self).taken() == old(self).taken() + 1
            },
            old(self).taken() >= old(self).grid().spec_size() ==> {
                &&& r is None
                &&& final(self).taken() == old(self).taken()
            },
    {
        proof {
            use_type_invariant(&*self);
            use_type_invariant(&self.grid);
            self.grid.lemma_index_of(self.current);
            self.grid.lemma_index_of(self.grid.end);
        }
        let grid = self.grid;
        let ghost w = grid.extent_w();
        assert(grid.index_of(grid.end()) == grid.spec_size() - 1) by (nonlinear_arith)
            requires
                grid.index_of(grid.end()) == (grid.extent_d() - 1) * w + (w - 1),
                grid.spec_size() == w * grid.extent_d(),
        ;
        if self.consumed {
            return None;
        }
        if self.current == grid.end {
            self.consumed = true;
            return Some(self.current);
        }
        let previous = self.current;
        match self.current.overflowing_right(grid, 1) {
            (next, true) => {
                proof {
                    lemma_mod_self_0(w);
                    lemma_small_mod(
                        (previous.d() + 1 - grid.start().d()) as nat,
                        grid.extent_d() as nat,
                    );
                    let q = previous.d() - grid.start().d();
                    assert((q + 1) * w == q * w + w) by (nonlinear_arith);
                }
                self.current = next.wrapping_down(grid, 1);
            },
            (next, false) => {
                proof {
                    lemma_small_mod(
                        (previous.w() + 1 - grid.start().w()) as nat,
                        w as nat,
                    );
                }
                self.current = next;
            },
        }
        proof {
            grid.lemma_index_of(self.current);
        }
        Some(previous)
    }
}

impl Rows {
    #[verifier::type_invariant]
    pub(crate) open spec fn well_formed(self) -> bool {
        let k = self.current.start().d() - self.grid.start().d();
        &&& 0 <= k < self.grid.extent_d()
        &&& self.current == self.grid.nth_row(k)
        &&& self.consumed ==> k == self.grid.extent_d() - 1
    }

    /// The grid being walked.
    pub open(crate) spec fn grid(self) -> Grid {
        self.grid
    }

    /// How many rows have been handed out so far.
    pub open(crate) spec fn taken(self) -> int {
        self.current.start().d() - self.grid.start().d() + if self.consumed {
            1int
        } else {
            0int
        }
    }

    /// The next row from the top, or `None` once all of them were handed out.
    pub fn next(&mut self) -> (r: Option<Grid>)
        ensures
            final(self).grid() == old(self).grid(),
            0 <= final(self).taken() <= final(self).grid().extent_d(),
            old(self).taken() < old(self).grid().extent_d() ==> {
                &&& r == Some(old(self).grid().nth_row(old(self).taken()))
                &&& final(self).taken() == old(self).taken() + 1
            },
            old(self).taken() >= old(self).grid().extent_d() ==> {
                &&& r is None
                &&& final(self).taken() == old(self).taken()
            },
    {
        proof {
            use_type_invariant(&*self);
            use_type_invariant(&self.grid);
        }
        let grid = self.grid;
        if self.consumed {
            return None;
        }
        if self.current.end == grid.end {
            self.consumed = true;
            return Some(self.current);
        }
        let previous = self.current;
        self.current = Grid {
            start: previous.start.saturating_down(grid, 1),
            end: previous.end.saturating_down(grid, 1),
        };
        Some(previous)
    }
}

impl Columns {
    #[verifier::type_invariant]
    pub(crate) open spec fn well_formed(self) -> bool {
        let k = self.current.start().w() - self.grid.start().w();
        &&& 0 <= k < self.grid.extent_w()
        &&& self.current == self.grid.nth_column(k)
        &&& self.consumed ==> k == self.grid.extent_w() - 1
    }

    /// The grid being walked.
    pub open(crate) spec fn grid(self) -> Grid {
        self.grid
    }

    /// How many columns have been handed out so far.
    pub open(crate) spec fn taken(self) -> int {
        self.current.start().w() - self.grid.start().w() + if self.consumed {
            1int
        } else {
            0int
        }
    }

    /// The next column from the left, or `None` once all of them were handed out.
    pub fn next(&mut self) -> (r: Option<Grid>)
        ensures
            final(self).grid() == old(self).grid(),
            0 <= final(self).taken() <= final(self).grid().extent_w(),
            old(self).taken() < old(self).grid().extent_w() ==> {
                &&& r == Some(old(self).grid().nth_column(old(self).taken()))
                &&& final(self).taken() == old(self).taken() + 1
            },
            old(self).taken() >= old(self).grid().extent_w() ==> {
                &&& r is None
                &&& final(self).taken() == old(self).taken()
            },
    {
        proof {
            use_type_invariant(&*self);
            use_type_invariant(&self.grid);
        }
        let grid = self.grid;
        if self.consumed {
            return None;
        }
        if self.current.end == grid.end {
            self.consumed = true;
            return Some(self.current);
        }
        let previous = self.current;
        self.current = Grid {
            start: previous.start.saturating_right(grid, 1),
            end: previous.end.saturating_right(grid, 1),
        };
        Some(previous)
    }
}

} // verus!
