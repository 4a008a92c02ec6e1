use grid_math::{Cell, Grid};

#[test]
fn grid_new_from_origin() {
    let grid = Grid::new(5, 5);
    assert_eq!(grid.start(), Cell::new(0, 0));
    assert_eq!(grid.end(), Cell::new(4, 4));
    assert_eq!(grid.to_string(), "[(0, 0):(4, 4)]");
    assert_eq!(Grid::new(10, 10).to_string(), "[(0, 0):(9, 9)]");
}

#[test]
fn grid_indented() {
    let grid = Grid::indented(5, 5, (1, 2));
    assert_eq!((grid.start(), grid.end()), (Cell::new(1, 2), Cell::new(5, 6)));
    let grid = Grid::indented(8, 8, (3, 3));
    assert_eq!((grid.start(), grid.end()), (Cell::new(3, 3), Cell::new(10, 10)));
    assert_eq!((grid.width(), grid.depth()), (8, 8));
    assert_eq!(grid.size(), 64);
    let last = Grid::indented(56, 1, (200, 255));
    assert_eq!(last.end(), Cell::new(255, 255));
}

#[test]
fn grid_spanning_and_conversions() {
    let grid = Grid::spanning(Cell::new(1, 2), Cell::new(5, 6));
    assert_eq!(grid, Grid::indented(5, 5, (1, 2)));
    let (start, end): (Cell, Cell) = grid.into();
    assert_eq!((start, end), (Cell::new(1, 2), Cell::new(5, 6)));
    let ((w1, d1), (w2, d2)): ((u8, u8), (u8, u8)) = grid.into();
    assert_eq!(((w1, d1), (w2, d2)), ((1, 2), (5, 6)));
    let single = Grid::spanning(Cell::new(7, 7), Cell::new(7, 7));
    assert_eq!((single.width(), single.depth(), single.size()), (1, 1, 1));
}

#[test]
fn grid_size_of_large_grids() {
    let wide = Grid::spanning(Cell::new(0, 0), Cell::new(254, 255));
    assert_eq!(wide.width(), 255);
    assert_eq!(wide.size(), 65280);
    assert_eq!(Grid::new(255, 255).size(), 65025);
}

#[test]
fn grid_within_grid() {
    let grid = Grid::new(10, 10);
    assert!(Grid::indented(5, 5, (2, 2)).within(grid));
    assert!(grid.within(grid));
    assert!(!Grid::indented(5, 5, (6, 6)).within(grid));
    assert!(!grid.within(Grid::indented(5, 5, (2, 2))));
    Grid::indented(5, 5, (2, 2)).within_panic(grid);
}

#[test]
fn grid_member() {
    let grid = Grid::indented(5, 5, (2, 2));
    assert_eq!(grid.member(2, 2), Cell::new(4, 4));
    assert_eq!(grid.member(4, 0), Cell::new(6, 2));
}

#[test]
fn member_corners_are_start_and_end() {
    for grid in [
        Grid::new(1, 1),
        Grid::new(5, 3),
        Grid::indented(7, 2, (10, 20)),
        Grid::spanning(Cell::new(0, 0), Cell::new(254, 254)),
    ] {
        assert_eq!(grid.member(0, 0), grid.start());
        assert_eq!(grid.member(grid.width() - 1, grid.depth() - 1), grid.end());
    }
}

#[test]
fn grid_area_and_slice() {
    let grid = Grid::indented(5, 5, (2, 2));
    assert_eq!(grid.to_string(), "[(2, 2):(6, 6)]");
    assert_eq!(grid.area(3, 3).to_string(), "[(2, 2):(4, 4)]");
    assert_eq!(grid.slice(3, 3, (1, 1)).to_string(), "[(3, 3):(5, 5)]");
    assert_eq!(grid.area(5, 5), grid);
    assert_eq!(grid.slice(1, 1, (4, 4)), Grid::spanning(Cell::new(6, 6), Cell::new(6, 6)));
    let full = Grid::spanning(Cell::new(0, 0), Cell::new(255, 255));
    assert_eq!(full.slice(56, 1, (200, 0)), Grid::spanning(Cell::new(200, 0), Cell::new(255, 0)));
}

#[test]
fn five_by_five_scenario() {
    let grid = Grid::new(5, 5);
    assert_eq!(grid.member(2, 2), Cell::new(2, 2));
    assert_eq!(grid.area(3, 3), Grid::spanning(Cell::new(0, 0), Cell::new(2, 2)));
    let mut cells = grid.cells();
    let mut seen = Vec::new();
    while let Some(c) = cells.next() {
        seen.push(c);
    }
    assert_eq!(seen.len(), 25);
    assert_eq!(seen[0], Cell::new(0, 0));
    assert_eq!(seen[24], Cell::new(4, 4));
}
