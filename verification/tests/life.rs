use game_of_life::universe::{Cell, GridError, Universe};

/// Builds a grid in which exactly the listed `(row, column)` positions are
/// alive.
fn grid_from(width: u32, height: u32, alive: &[(u32, u32)]) -> Universe {
    let mut cells: Vec<Cell> = Vec::new();
    for row in 0..height {
        for col in 0..width {
            if alive.contains(&(row, col)) {
                cells.push(Cell::Alive);
            } else {
                cells.push(Cell::Dead);
            }
        }
    }
    Universe::from_cells(width, height, cells).unwrap()
}

/// Reads the whole grid back in row-major order.
fn snapshot(universe: &Universe) -> Vec<Cell> {
    let mut cells: Vec<Cell> = Vec::new();
    for row in 0..universe.height() {
        for col in 0..universe.width() {
            cells.push(universe.get_cell_state(row, col));
        }
    }
    cells
}

#[test]
fn construction_keeps_dimensions() {
    for &(width, height) in &[(1u32, 1u32), (1, 5), (5, 1), (10, 10)] {
        let universe = Universe::new(width, height).unwrap();
        assert_eq!(universe.width(), width);
        assert_eq!(universe.height(), height);
        // every in-bounds cell is present ...
        assert!(universe.try_cell_state(0, 0).is_ok());
        assert!(universe.try_cell_state(height - 1, width - 1).is_ok());
        assert_eq!(snapshot(&universe).len(), (width * height) as usize);
        // ... and nothing beyond the extent is
        assert_eq!(
            universe.try_cell_state(height, 0),
            Err(GridError::IndexOutOfBounds)
        );
        assert_eq!(
            universe.try_cell_state(0, width),
            Err(GridError::IndexOutOfBounds)
        );
        assert_eq!(
            universe.try_cell_state(height, width),
            Err(GridError::IndexOutOfBounds)
        );
    }
}

#[test]
fn construction_rejects_zero_dimensions() {
    assert!(matches!(Universe::new(0, 5), Err(GridError::InvalidDimensions)));
    assert!(matches!(Universe::new(5, 0), Err(GridError::InvalidDimensions)));
    assert!(matches!(Universe::new(0, 0), Err(GridError::InvalidDimensions)));
}

#[test]
fn explicit_construction_rejects_mismatched_cells() {
    let cells = vec![Cell::Dead, Cell::Dead, Cell::Dead];
    assert!(matches!(
        Universe::from_cells(2, 2, cells),
        Err(GridError::InvalidDimensions)
    ));
    assert!(matches!(
        Universe::from_cells(0, 3, vec![]),
        Err(GridError::InvalidDimensions)
    ));
}

#[test]
fn fresh_grid_reports_changed() {
    assert!(Universe::new(4, 4).unwrap().changed());
    assert!(grid_from(3, 3, &[]).changed());
}

#[test]
fn coin_parity_decides_cell() {
    assert_eq!(Universe::cell_from_coin(0), Cell::Dead);
    assert_eq!(Universe::cell_from_coin(1), Cell::Alive);
    assert_eq!(Universe::cell_from_coin(2), Cell::Dead);
    assert_eq!(Universe::cell_from_coin(7), Cell::Alive);
    assert_eq!(Universe::cell_from_coin(254), Cell::Dead);
    assert_eq!(Universe::cell_from_coin(255), Cell::Alive);
}

#[test]
fn random_construction_fills_grid() {
    let universe = Universe::new(10, 10).unwrap();
    for row in 0..10 {
        for col in 0..10 {
            let cell = universe.try_cell_state(row, col).unwrap();
            assert!(matches!(cell, Cell::Alive | Cell::Dead));
        }
    }
}

#[test]
fn neighbor_counts_on_all_alive_grid() {
    let alive: Vec<(u32, u32)> = (0..3).flat_map(|r| (0..3).map(move |c| (r, c))).collect();
    let universe = grid_from(3, 3, &alive);
    // interior
    assert_eq!(universe.live_neighbors(1, 1), 8);
    // edges away from the corners
    assert_eq!(universe.live_neighbors(0, 1), 5);
    assert_eq!(universe.live_neighbors(1, 0), 5);
    assert_eq!(universe.live_neighbors(1, 2), 5);
    assert_eq!(universe.live_neighbors(2, 1), 5);
    // corners
    assert_eq!(universe.live_neighbors(0, 0), 3);
    assert_eq!(universe.live_neighbors(0, 2), 3);
    assert_eq!(universe.live_neighbors(2, 0), 3);
    assert_eq!(universe.live_neighbors(2, 2), 3);
}

#[test]
fn neighbor_counts_on_all_dead_grid() {
    let universe = grid_from(4, 3, &[]);
    for row in 0..3 {
        for col in 0..4 {
            assert_eq!(universe.live_neighbors(row, col), 0);
        }
    }
}

#[test]
fn block_is_still_life() {
    let block = [(1, 1), (1, 2), (2, 1), (2, 2)];
    let mut universe = grid_from(4, 4, &block);
    let before = snapshot(&universe);
    universe.tick();
    assert_eq!(snapshot(&universe), before);
    assert!(!universe.changed());
}

#[test]
fn blinker_oscillates() {
    let mut universe = grid_from(5, 5, &[(2, 1), (2, 2), (2, 3)]);
    let horizontal = snapshot(&universe);
    universe.tick();
    assert!(universe.changed());
    assert_eq!(
        snapshot(&universe),
        snapshot(&grid_from(5, 5, &[(1, 2), (2, 2), (3, 2)]))
    );
    universe.tick();
    assert!(universe.changed());
    assert_eq!(snapshot(&universe), horizontal);
}

#[test]
fn lone_live_cell_dies() {
    let mut universe = grid_from(3, 3, &[(1, 1)]);
    universe.tick();
    assert_eq!(universe.get_cell_state(1, 1), Cell::Dead);
}

#[test]
fn crowded_cell_dies() {
    let alive: Vec<(u32, u32)> = (0..3).flat_map(|r| (0..3).map(move |c| (r, c))).collect();
    let mut universe = grid_from(3, 3, &alive);
    universe.tick();
    assert_eq!(universe.get_cell_state(1, 1), Cell::Dead);
}

#[test]
fn dead_cell_with_three_neighbors_comes_alive() {
    let mut universe = grid_from(3, 3, &[(0, 1), (1, 0), (1, 1)]);
    assert_eq!(universe.get_cell_state(0, 0), Cell::Dead);
    assert_eq!(universe.live_neighbors(0, 0), 3);
    universe.tick();
    assert_eq!(universe.get_cell_state(0, 0), Cell::Alive);
}

#[test]
fn all_dead_grid_is_fixed_point() {
    let mut universe = grid_from(4, 5, &[]);
    universe.tick();
    assert_eq!(snapshot(&universe), vec![Cell::Dead; 20]);
    assert!(!universe.changed());
}
