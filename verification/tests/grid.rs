use raycaster::grid::{GridError, TileGrid};

fn room() -> Vec<Vec<u8>> {
    vec![
        vec![1, 1, 1, 1, 1, 1, 1, 1, 1, 1],
        vec![1, 0, 0, 0, 0, 0, 0, 0, 0, 1],
        vec![1, 0, 0, 0, 0, 0, 0, 0, 0, 1],
        vec![1, 0, 0, 1, 1, 0, 1, 0, 0, 1],
        vec![1, 0, 0, 1, 0, 0, 1, 0, 0, 1],
        vec![1, 0, 0, 1, 0, 0, 1, 0, 0, 1],
        vec![1, 0, 0, 1, 0, 1, 1, 0, 0, 1],
        vec![1, 0, 0, 0, 0, 0, 0, 0, 0, 1],
        vec![1, 0, 0, 0, 0, 0, 0, 0, 0, 1],
        vec![1, 1, 1, 1, 1, 1, 1, 1, 1, 1],
    ]
}

#[test]
fn room_is_a_grid() {
    let grid = TileGrid::new(room()).unwrap();
    assert_eq!(grid.width(), 10);
    assert_eq!(grid.height(), 10);
    assert_eq!(grid.tile_at(0, 0), 1);
    assert_eq!(grid.tile_at(1, 1), 0);
    assert_eq!(grid.tile_at(3, 3), 1);
    assert_eq!(grid.tile_at(4, 4), 0);
}

#[test]
fn cells_outside_read_as_empty_and_are_not_walkable() {
    let grid = TileGrid::new(room()).unwrap();
    assert_eq!(grid.tile_at(-1, 3), 0);
    assert_eq!(grid.tile_at(3, 10), 0);
    assert_eq!(grid.tile_at(40000, 40000), 0);
    assert!(!grid.is_walkable(-1, 3));
    assert!(!grid.is_walkable(3, 10));
    assert!(grid.is_walkable(1, 1));
    assert!(!grid.is_walkable(3, 3));
}

#[test]
fn no_rows_are_refused() {
    assert_eq!(TileGrid::new(vec![]).unwrap_err(), GridError::Empty);
    assert_eq!(TileGrid::new(vec![vec![]]).unwrap_err(), GridError::Empty);
}

#[test]
fn ragged_rows_are_refused() {
    let rows = vec![vec![1, 1, 1], vec![1, 1], vec![1, 1, 1]];
    assert_eq!(TileGrid::new(rows).unwrap_err(), GridError::Ragged);
}

#[test]
fn open_border_is_refused() {
    let mut rows = room();
    rows[9][4] = 0;
    assert_eq!(TileGrid::new(rows).unwrap_err(), GridError::OpenBorder);
    let mut rows = room();
    rows[5][0] = 0;
    assert_eq!(TileGrid::new(rows).unwrap_err(), GridError::OpenBorder);
}

#[test]
fn too_many_rows_are_refused() {
    let rows: Vec<Vec<u8>> = (0..32768).map(|_| vec![1u8]).collect();
    assert_eq!(TileGrid::new(rows).unwrap_err(), GridError::TooLarge);
}
