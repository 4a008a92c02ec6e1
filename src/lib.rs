//! Bounded two-dimensional coordinate arithmetic for fixed-size rectangular grids.
//!
//! A [`Cell`] is a point with two `u8` coordinates, `global_width` (horizontal)
//! and `global_depth` (vertical). A [`Grid`] is the inclusive rectangle between
//! two cells. Cells move inside a grid under four policies (strict, saturating,
//! overflowing / wrapping, and projection onto a border), and a grid can be
//! walked cell by cell, row by row or column by column.
mod cell;
mod grid;
mod map;
mod text;
mod traverse;
pub mod laws;

pub use cell::Cell;
pub use grid::Grid;
pub use map::GridMap;
pub use traverse::{Cells, Columns, Rows};
