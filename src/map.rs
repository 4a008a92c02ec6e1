use vstd::prelude::*;

use std::collections::HashMap;

use crate::cell::Cell;
use crate::grid::Grid;

verus! {

impl Cell {
    /// The cell as one `u16`: width in the high byte, depth in the low one.
    pub open spec fn key(self) -> u16 {
        (self.w() * 256 + self.d()) as u16
    }

    /// The cell whose key is `k`.
    pub open spec fn of_key(k: u16) -> Cell {
        Cell::spec_new((k / 256) as u8, (k % 256) as u8)
    }

    fn to_key(self) -> (r: u16)
        ensures
            r == self.key(),
    {
        self.global_width as u16 * 256 + self.global_depth as u16
    }
}

/// Values stored at the cells of one grid. A value can only be stored at a
/// cell within the grid; lookups and the count work as in a hash map.
#[verifier::reject_recursive_types(V)]
pub struct GridMap<V> {
    pub(crate) grid: Grid,
    pub(crate) hashmap: HashMap<u16, V>,
}

impl<V> GridMap<V> {
    /// Every stored value sits at a cell of the grid.
    pub open(crate) spec fn bounded(self) -> bool {
        forall|k: u16|
            #[trigger] self.hashmap@.contains_key(k) ==> Cell::of_key(k).within(self.grid)
    }

    /// The stored values, by the key of their cell (see `Cell::key`).
    pub open(crate) spec fn entries(self) -> Map<u16, V> {
        self.hashmap@
    }

    pub open(crate) spec fn spec_grid(&self) -> Grid {
        self.grid
    }

    /// An empty map over a grid of `width` columns and `depth` rows from `(0, 0)`.
    pub fn new(width: u8, depth: u8) -> (r: GridMap<V>)
        requires
            width >= 1,
            depth >= 1,
        ensures
            r.grid().start() == Cell::new(0, 0),
            r.grid().end() == Cell::new((width - 1) as u8, (depth - 1) as u8),
            r.entries().is_empty(),
            r.bounded(),
    {
        GridMap { grid: Grid::new(width, depth), hashmap: HashMap::new() }
    }

    /// An empty map over `grid`.
    pub fn from(grid: Grid) -> (r: GridMap<V>)
        ensures
            r.grid() == grid,
            r.entries().is_empty(),
            r.bounded(),
    {
        GridMap { grid, hashmap: HashMap::new() }
    }

    /// Stores `value` at `cell`, which must lie within the grid, and returns the
    /// value that was stored there before.
    pub fn insert(&mut self, cell: Cell, value: V) -> (r: Option<V>)
        requires
            old(self).bounded(),
            cell.within(old(self).grid()),
        ensures
            final(self).bounded(),
            final(self).grid() == old(self).grid(),
            final(self).entries() == old(self).entries().insert(cell.key(), value),
            r == old(self).entries().get(cell.key()),
    {
        let key = cell.to_key();
        proof {
            assert(Cell::of_key(key) == cell);
        }
        self.hashmap.insert(key, value)
    }

    /// The grid that bounds the map.
    #[verifier::when_used_as_spec(spec_grid)]
    pub fn grid(&self) -> (r: Grid)
        ensures
            r == self.spec_grid(),
    {
        self.grid
    }

    /// Whether a value is stored at `cell`, which must lie within the grid.
    pub fn occupied(&self, cell: Cell) -> (r: bool)
        requires
            cell.within(self.grid()),
        ensures
            r == self.entries().contains_key(cell.key()),
    {
        self.hashmap.contains_key(&cell.to_key())
    }

    /// The value stored at `cell`, if any.
    pub fn get(&self, cell: Cell) -> (r: Option<&V>)
        ensures
            match r {
                Some(v) => {
                    &&& self.entries().contains_key(cell.key())
                    &&& *v == self.entries()[cell.key()]
                },
                None => !self.entries().contains_key(cell.key()),
            },
    {
        self.hashmap.get(&cell.to_key())
    }

    /// How many cells hold a value.
    pub fn len(&self) -> (r: usize)
        ensures
            r == self.entries().len(),
    {
        self.hashmap.len()
    }
}

} // verus!
