//! Properties that relate several operations of the library, stated over the
//! same spec functions that the operations' own contracts use.
use vstd::prelude::*;

use vstd::arithmetic::div_mod::{
    lemma_add_mod_noop_right, lemma_div_is_ordered, lemma_fundamental_div_mod,
    lemma_sub_mod_noop_right,
};

use crate::cell::Cell;
use crate::grid::Grid;

verus! {

/// A cell's position relative to a grid (what `Cell::width` and `Cell::depth`
/// return) added to the grid's start gives the cell's own coordinates back;
/// the relative position and the gap to the far border fill the axis.
pub proof fn lemma_relative_position(c: Cell, g: Grid)
    requires
        g.valid(),
        c.within(g),
    ensures
        (c.w() - g.start().w()) + g.start().w() == c.w(),
        (c.d() - g.start().d()) + g.start().d() == c.d(),
        0 <= c.w() - g.start().w() < g.extent_w(),
        0 <= c.d() - g.start().d() < g.extent_d(),
        (c.w() - g.start().w()) + (g.end().w() - c.w()) + 1 == g.extent_w(),
        (c.d() - g.start().d()) + (g.end().d() - c.d()) + 1 == g.extent_d(),
{
}

/// The member at offset (0, 0) is the grid's start, and the member at offset
/// (width - 1, depth - 1) is its end.
pub proof fn lemma_member_corners(g: Grid)
    requires
        g.valid(),
    ensures
        g.at(0, 0) == g.start(),
        g.at(g.extent_w() - 1, g.extent_d() - 1) == g.end(),
{
}

/// A saturating move towards a border that the cell already stands on leaves
/// the cell where it is, whatever the step.
pub proof fn lemma_saturating_on_border(c: Cell, g: Grid, step: u8)
    requires
        g.valid(),
        c.within(g),
    ensures
        c.d() == g.start().d() ==> c.with_d(g.clamp_d(c.d() - step)) == c,
        c.d() == g.end().d() ==> c.with_d(g.clamp_d(c.d() + step)) == c,
        c.w() == g.start().w() ==> c.with_w(g.clamp_w(c.w() - step)) == c,
        c.w() == g.end().w() ==> c.with_w(g.clamp_w(c.w() + step)) == c,
{
}

/// A wrapping move by `step` ends where a wrapping move by `step` modulo the
/// axis length ends: whole turns around the grid cancel out.
pub proof fn lemma_wrapping_periodic(c: Cell, g: Grid, step: u8)
    requires
        g.valid(),
        c.within(g),
    ensures
        c.with_d(g.cycle_d(c.d() - step))
            == c.with_d(g.cycle_d(c.d() - (step as int) % g.extent_d())),
        c.with_d(g.cycle_d(c.d() + step))
            == c.with_d(g.cycle_d(c.d() + (step as int) % g.extent_d())),
        c.with_w(g.cycle_w(c.w() - step))
            == c.with_w(g.cycle_w(c.w() - (step as int) % g.extent_w())),
        c.with_w(g.cycle_w(c.w() + step))
            == c.with_w(g.cycle_w(c.w() + (step as int) % g.extent_w())),
{
    let (pw, pd) = (c.w() - g.start().w(), c.d() - g.start().d());
    let (lw, ld) = (g.extent_w(), g.extent_d());
    lemma_sub_mod_noop_right(pd, step as int, ld);
    lemma_add_mod_noop_right(pd, step as int, ld);
    lemma_sub_mod_noop_right(pw, step as int, lw);
    lemma_add_mod_noop_right(pw, step as int, lw);
}

/// A projection lands on the named border, in the grid, and keeps the other
/// coordinate; projecting right always ends in the grid's last column, which is
/// why projecting left and then right does not in general give the cell back.
pub proof fn lemma_projection_on_border(c: Cell, g: Grid)
    requires
        g.valid(),
        c.within(g),
    ensures
        c.with_d(g.start().d()).within(g) && c.with_d(g.start().d()).d() == g.start().d()
            && c.with_d(g.start().d()).w() == c.w(),
        c.with_d(g.end().d()).within(g) && c.with_d(g.end().d()).d() == g.end().d()
            && c.with_d(g.end().d()).w() == c.w(),
        c.with_w(g.start().w()).within(g) && c.with_w(g.start().w()).w() == g.start().w()
            && c.with_w(g.start().w()).d() == c.d(),
        c.with_w(g.end().w()).within(g) && c.with_w(g.end().w()).w() == g.end().w()
            && c.with_w(g.end().w()).d() == c.d(),
{
}

/// The walk over all cells hands out `size` cells: the first is the grid's
/// start, the last its end, each lies in the grid, each cell of the grid comes
/// at its own position, and they come in strict row-major order, so none twice.
pub proof fn lemma_cells_in_row_major_order(g: Grid)
    requires
        g.valid(),
    ensures
        g.nth_cell(0) == g.start(),
        g.nth_cell(g.spec_size() - 1) == g.end(),
        forall|k: int| 0 <= k < g.spec_size() ==> #[trigger] g.nth_cell(k).within(g),
        forall|c: Cell|
            c.within(g) ==> {
                &&& 0 <= #[trigger] g.index_of(c) < g.spec_size()
                &&& g.nth_cell(g.index_of(c)) == c
            },
        forall|j: int, k: int|
            0 <= j < k < g.spec_size() ==> {
                ||| #[trigger] g.nth_cell(j).d() < #[trigger] g.nth_cell(k).d()
                ||| g.nth_cell(j).d() == g.nth_cell(k).d() && g.nth_cell(j).w() < g.nth_cell(k).w()
            },
        forall|j: int, k: int|
            0 <= j < g.spec_size() && 0 <= k < g.spec_size() && j != k ==> #[trigger] g.nth_cell(j)
                != #[trigger] g.nth_cell(k),
{
    let w = g.extent_w();
    assert(0 < g.spec_size()) by (nonlinear_arith)
        requires
            g.spec_size() == w * g.extent_d(),
            0 < w,
            0 < g.extent_d(),
    ;
    g.lemma_nth_cell(0);
    g.lemma_index_of(g.end());
    assert(g.index_of(g.end()) == g.spec_size() - 1) by (nonlinear_arith)
        requires
            g.index_of(g.end()) == (g.extent_d() - 1) * w + (w - 1),
            g.spec_size() == w * g.extent_d(),
    ;
    assert forall|k: int| 0 <= k < g.spec_size() implies #[trigger] g.nth_cell(k).within(g) by {
        g.lemma_nth_cell(k);
    }
    assert forall|c: Cell| c.within(g) implies {
        &&& 0 <= #[trigger] g.index_of(c) < g.spec_size()
        &&& g.nth_cell(g.index_of(c)) == c
    } by {
        g.lemma_index_of(c);
    }
    assert forall|j: int, k: int| 0 <= j < k < g.spec_size() implies {
        ||| #[trigger] g.nth_cell(j).d() < #[trigger] g.nth_cell(k).d()
        ||| g.nth_cell(j).d() == g.nth_cell(k).d() && g.nth_cell(j).w() < g.nth_cell(k).w()
    } by {
        g.lemma_nth_cell(j);
        g.lemma_nth_cell(k);
        lemma_div_is_ordered(j, k, w);
        lemma_fundamental_div_mod(j, w);
        lemma_fundamental_div_mod(k, w);
    }
    assert forall|j: int, k: int|
        0 <= j < g.spec_size() && 0 <= k < g.spec_size() && j != k implies #[trigger] g.nth_cell(j)
        != #[trigger] g.nth_cell(k) by {
        g.lemma_nth_cell(j);
        g.lemma_nth_cell(k);
    }
}

/// The walk over rows hands out `depth` rows, top to bottom: row `k` spans the
/// grid's full width, is one cell deep and lies `k` rows below the top, so
/// each cell of the grid lies in exactly one of them.
pub proof fn lemma_rows_partition(g: Grid)
    requires
        g.valid(),
    ensures
        forall|k: int|
            0 <= k < g.extent_d() ==> {
                &&& (#[trigger] g.nth_row(k)).valid()
                &&& g.nth_row(k).within(g)
                &&& g.nth_row(k).extent_w() == g.extent_w()
                &&& g.nth_row(k).extent_d() == 1
                &&& g.nth_row(k).start().w() == g.start().w()
                &&& g.nth_row(k).start().d() == g.start().d() + k
            },
        forall|c: Cell, k: int|
            c.within(g) && 0 <= k < g.extent_d() ==> (#[trigger] c.within(g.nth_row(k)) <==> k
                == c.d() - g.start().d()),
{
}

/// The walk over columns hands out `width` columns, left to right: column `k`
/// spans the grid's full depth, is one cell wide and lies `k` columns right of
/// the left border, so each cell of the grid lies in exactly one of them.
pub proof fn lemma_columns_partition(g: Grid)
    requires
        g.valid(),
    ensures
        forall|k: int|
            0 <= k < g.extent_w() ==> {
                &&& (#[trigger] g.nth_column(k)).valid()
                &&& g.nth_column(k).within(g)
                &&& g.nth_column(k).extent_d() == g.extent_d()
                &&& g.nth_column(k).extent_w() == 1
                &&& g.nth_column(k).start().d() == g.start().d()
                &&& g.nth_column(k).start().w() == g.start().w() + k
            },
        forall|c: Cell, k: int|
            c.within(g) && 0 <= k < g.extent_w() ==> (#[trigger] c.within(g.nth_column(k)) <==> k
                == c.w() - g.start().w()),
{
}

/// Distinct cells have distinct keys: the key gives the cell back, so a
/// `GridMap` keeps one value per cell.
pub proof fn lemma_key_round_trip(c: Cell)
    ensures
        Cell::of_key(c.key()) == c,
{
}

} // verus!
