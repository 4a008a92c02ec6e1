use grid_math::{Cell, Grid, GridMap};

#[test]
fn map_insert_and_lookup() {
    let grid = Grid::new(5, 5);
    let mut map: GridMap<char> = GridMap::from(grid);
    assert_eq!(map.len(), 0);
    assert_eq!(map.insert(map.grid().start(), '#'), None);
    assert_eq!(map.insert(map.grid().end(), '@'), None);
    assert_eq!(map.len(), 2);
    assert_eq!(map.get(Cell::new(0, 0)), Some(&'#'));
    assert_eq!(map.get(Cell::new(4, 4)), Some(&'@'));
    assert_eq!(map.get(Cell::new(4, 0)), None);
    assert!(map.occupied(Cell::new(0, 0)));
    assert!(!map.occupied(Cell::new(0, 4)));
}

#[test]
fn map_insert_replaces() {
    let mut map: GridMap<u32> = GridMap::new(3, 2);
    assert_eq!(map.grid(), Grid::new(3, 2));
    assert_eq!(map.insert(Cell::new(2, 1), 7), None);
    assert_eq!(map.insert(Cell::new(2, 1), 9), Some(7));
    assert_eq!(map.len(), 1);
    assert_eq!(map.get(Cell::new(2, 1)), Some(&9));
    // cells that differ only by swapping coordinates are kept apart
    assert_eq!(map.insert(Cell::new(1, 0), 4), None);
    assert_eq!(map.insert(Cell::new(0, 1), 5), None);
    assert_eq!(map.get(Cell::new(1, 0)), Some(&4));
    assert_eq!(map.get(Cell::new(0, 1)), Some(&5));
    assert_eq!(map.len(), 3);
}

#[test]
fn map_bounds() {
    let map: GridMap<char> = GridMap::from(Grid::new(5, 5));
    assert!(!Cell::new(6, 6).within(map.grid()));
    assert!(Cell::new(4, 4).within(map.grid()));
}
