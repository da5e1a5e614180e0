use raycaster::fixed::{MAX_EXTENT, ONE};
use raycaster::grid::{CellKind, Grid, GridError};

fn rows(lines: &[&str]) -> Vec<Vec<char>> {
    lines.iter().map(|l| l.chars().collect()).collect()
}

#[test]
fn wall_like_kinds() {
    assert!(CellKind::WallA.is_wall_like());
    assert!(CellKind::Door.is_wall_like());
    assert!(CellKind::Goal.is_wall_like());
    assert!(!CellKind::Empty.is_wall_like());
    assert!(!CellKind::Collectible.is_wall_like());
    assert!(!CellKind::SpawnMarker.is_wall_like());
}

#[test]
fn characters_stand_for_kinds() {
    assert_eq!(CellKind::from_char(' '), Some(CellKind::Empty));
    assert_eq!(CellKind::from_char('+'), Some(CellKind::WallA));
    assert_eq!(CellKind::from_char('-'), Some(CellKind::WallA));
    assert_eq!(CellKind::from_char('|'), Some(CellKind::WallA));
    assert_eq!(CellKind::from_char('d'), Some(CellKind::Door));
    assert_eq!(CellKind::from_char('g'), Some(CellKind::Goal));
    assert_eq!(CellKind::from_char('z'), Some(CellKind::Collectible));
    assert_eq!(CellKind::from_char('p'), Some(CellKind::SpawnMarker));
    assert_eq!(CellKind::from_char('x'), None);
}

#[test]
fn grid_from_a_maze_description() {
    let grid = Grid::from_chars(&rows(&["+-+", "|zg", "+p+"]), 10).unwrap();
    assert_eq!(grid.num_rows(), 3);
    assert_eq!(grid.num_cols(), 3);
    assert_eq!(grid.cell_size, 10);
    assert_eq!(grid.kind_at(0, 0), Some(CellKind::WallA));
    assert_eq!(grid.kind_at(1, 1), Some(CellKind::Collectible));
    assert_eq!(grid.kind_at(1, 2), Some(CellKind::Goal));
    assert_eq!(grid.kind_at(2, 1), Some(CellKind::SpawnMarker));
    assert_eq!(grid.kind_at(3, 0), None);
    assert_eq!(grid.kind_at(0, 3), None);
}

#[test]
fn grid_errors() {
    assert_eq!(Grid::new(vec![], 10).err(), Some(GridError::Empty));
    assert_eq!(Grid::new(vec![vec![], vec![CellKind::Empty]], 10).err(), Some(GridError::Empty));
    assert_eq!(
        Grid::new(vec![vec![CellKind::Empty; 2], vec![CellKind::Empty; 3]], 10).err(),
        Some(GridError::Ragged)
    );
    assert_eq!(
        Grid::new(vec![vec![CellKind::Empty; 2], vec![CellKind::Empty; 2]], 0).err(),
        Some(GridError::ZeroCellSize)
    );
    assert_eq!(
        Grid::new(vec![vec![CellKind::Empty; 2]], (MAX_EXTENT / 2 + 1) as usize).err(),
        Some(GridError::TooLarge)
    );
    assert_eq!(
        Grid::new(vec![vec![CellKind::Empty]; 3], (MAX_EXTENT / 3 + 1) as usize).err(),
        Some(GridError::TooLarge)
    );
    assert!(Grid::new(vec![vec![CellKind::Empty; 2]], (MAX_EXTENT / 2) as usize).is_ok());
    // A ragged layout with a zero cell size is reported as ragged.
    assert_eq!(
        Grid::new(vec![vec![CellKind::Empty; 2], vec![CellKind::Empty; 1]], 0).err(),
        Some(GridError::Ragged)
    );
}

#[test]
fn maze_description_errors() {
    assert_eq!(Grid::from_chars(&rows(&["+x+"]), 10).err(), Some(GridError::UnknownSymbol));
    assert_eq!(Grid::from_chars(&rows(&["+x+", "+"]), 0).err(), Some(GridError::UnknownSymbol));
    assert_eq!(Grid::from_chars(&rows(&[]), 10).err(), Some(GridError::Empty));
    assert_eq!(Grid::from_chars(&rows(&["", "+"]), 10).err(), Some(GridError::Empty));
    assert_eq!(Grid::from_chars(&rows(&["++", "+"]), 10).err(), Some(GridError::Ragged));
    assert_eq!(Grid::from_chars(&rows(&["++"]), 0).err(), Some(GridError::ZeroCellSize));
}

#[test]
fn world_points_fall_in_cells() {
    let grid = Grid::from_chars(&rows(&["+ ", "zg"]), 10).unwrap();
    assert_eq!(grid.locate(0, 0), Some((0, 0)));
    assert_eq!(grid.locate(10 * ONE - 1, 0), Some((0, 0)));
    assert_eq!(grid.locate(10 * ONE, 0), Some((0, 1)));
    assert_eq!(grid.locate(0, 10 * ONE), Some((1, 0)));
    assert_eq!(grid.locate(20 * ONE - 1, 20 * ONE - 1), Some((1, 1)));
    assert_eq!(grid.locate(20 * ONE, 0), None);
    assert_eq!(grid.locate(0, 20 * ONE), None);
    assert_eq!(grid.locate(-1, 0), None);
    assert_eq!(grid.locate(0, -1), None);
    assert_eq!(grid.locate(i64::MIN, i64::MAX), None);
    assert_eq!(grid.kind_at_world(15 * ONE, 5 * ONE), Some(CellKind::Empty));
    assert_eq!(grid.kind_at_world(5 * ONE, 15 * ONE), Some(CellKind::Collectible));
    assert_eq!(grid.kind_at_world(15 * ONE, 15 * ONE), Some(CellKind::Goal));
    assert_eq!(grid.kind_at_world(-ONE, 15 * ONE), None);
}

#[test]
fn clearing_a_cell_empties_it_alone() {
    let mut grid = Grid::from_chars(&rows(&["+z", "zg"]), 10).unwrap();
    grid.clear_cell(0, 1);
    assert_eq!(grid.kind_at(0, 0), Some(CellKind::WallA));
    assert_eq!(grid.kind_at(0, 1), Some(CellKind::Empty));
    assert_eq!(grid.kind_at(1, 0), Some(CellKind::Collectible));
    assert_eq!(grid.kind_at(1, 1), Some(CellKind::Goal));
    assert_eq!(grid.num_rows(), 2);
    assert_eq!(grid.num_cols(), 2);
}

#[test]
fn well_formed_grids_are_told_apart() {
    let mut grid = Grid::from_chars(&rows(&["+ ", "zg"]), 10).unwrap();
    assert!(grid.is_wf());
    grid.cell_size = 0;
    assert!(!grid.is_wf());
    grid.cell_size = 10;
    grid.cells[1].pop();
    assert!(!grid.is_wf());
    grid.cells.clear();
    assert!(!grid.is_wf());
}
