use grid_math::{Cell, Grid};

fn all_cells(grid: Grid) -> Vec<Cell> {
    let mut cells = grid.cells();
    let mut out = Vec::new();
    while let Some(c) = cells.next() {
        out.push(c);
    }
    out
}

fn all_rows(grid: Grid) -> Vec<Grid> {
    let mut rows = grid.rows();
    let mut out = Vec::new();
    while let Some(r) = rows.next() {
        out.push(r);
    }
    out
}

fn all_columns(grid: Grid) -> Vec<Grid> {
    let mut columns = grid.columns();
    let mut out = Vec::new();
    while let Some(c) = columns.next() {
        out.push(c);
    }
    out
}

#[test]
fn cells_on_axes() {
    let grid = Grid::new(3, 3);
    let axis_cells: Vec<Cell> = all_cells(grid)
        .into_iter()
        .filter(|cell| {
            cell.global_width() == grid.start().global_width()
                || cell.global_depth() == grid.start().global_depth()
        })
        .collect();
    assert_eq!(
        axis_cells,
        vec![Cell::new(0, 0), Cell::new(1, 0), Cell::new(2, 0), Cell::new(0, 1), Cell::new(0, 2)]
    );
}

#[test]
fn cells_count_order_and_ends() {
    for grid in [Grid::new(1, 1), Grid::new(4, 3), Grid::indented(3, 5, (250, 7)), Grid::new(1, 6)] {
        let cells = all_cells(grid);
        assert_eq!(cells.len(), grid.size() as usize);
        assert_eq!(cells[0], grid.start());
        assert_eq!(*cells.last().unwrap(), grid.end());
        for pair in cells.windows(2) {
            let (a, b) = (pair[0], pair[1]);
            assert!(
                a.global_depth() < b.global_depth()
                    || (a.global_depth() == b.global_depth() && a.global_width() < b.global_width())
            );
        }
        for c in &cells {
            assert!(c.within(grid));
        }
    }
}

#[test]
fn cells_stay_exhausted() {
    let mut cells = Grid::new(2, 1).cells();
    assert_eq!(cells.next(), Some(Cell::new(0, 0)));
    assert_eq!(cells.next(), Some(Cell::new(1, 0)));
    assert_eq!(cells.next(), None);
    assert_eq!(cells.next(), None);
}

#[test]
fn cells_on_full_grid() {
    let full = Grid::spanning(Cell::new(0, 0), Cell::new(255, 255));
    let mut cells = full.cells();
    let mut count: u32 = 0;
    let mut last = None;
    while let Some(c) = cells.next() {
        count += 1;
        last = Some(c);
    }
    assert_eq!(count, 65536);
    assert_eq!(last, Some(Cell::new(255, 255)));
}

#[test]
fn rows_cover_grid_top_to_bottom() {
    let grid = Grid::indented(4, 3, (1, 5));
    let rows = all_rows(grid);
    assert_eq!(rows.len(), grid.depth() as usize);
    for (k, row) in rows.iter().enumerate() {
        assert_eq!(row.width(), grid.width());
        assert_eq!(row.depth(), 1);
        assert_eq!(row.start(), Cell::new(1, 5 + k as u8));
        assert_eq!(row.end(), Cell::new(4, 5 + k as u8));
        assert!(row.within(grid));
    }
}

#[test]
fn rows_render_grid() {
    let grid = Grid::new(3, 3);
    let mut text = String::new();
    for row in all_rows(grid) {
        for _ in all_cells(row) {
            text.push_str(" [#]");
        }
        text.push_str("\n\n");
    }
    assert_eq!(text, " [#] [#] [#]\n\n [#] [#] [#]\n\n [#] [#] [#]\n\n");
}

#[test]
fn rows_stay_exhausted() {
    let mut rows = Grid::new(3, 1).rows();
    assert_eq!(rows.next(), Some(Grid::new(3, 1)));
    assert_eq!(rows.next(), None);
    assert_eq!(rows.next(), None);
}

#[test]
fn columns_cover_grid_left_to_right() {
    let grid = Grid::indented(3, 4, (2, 0));
    let columns = all_columns(grid);
    assert_eq!(columns.len(), 3);
    for (k, column) in columns.iter().enumerate() {
        assert_eq!(column.depth(), grid.depth());
        assert_eq!(column.width(), 1);
        assert_eq!(column.start(), Cell::new(2 + k as u8, 0));
        assert_eq!(column.end(), Cell::new(2 + k as u8, 3));
    }
}

#[test]
fn first_column_cells() {
    let grid = Grid::new(3, 3);
    let first = grid.columns().next().unwrap();
    assert_eq!(all_cells(first), vec![Cell::new(0, 0), Cell::new(0, 1), Cell::new(0, 2)]);
}
