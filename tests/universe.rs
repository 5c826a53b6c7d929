use game_of_life::rules::next_cell;
use game_of_life::{Cell, Universe, UniverseError, DEFAULT_HEIGHT, DEFAULT_WIDTH};

fn grid(width: u32, height: u32, alive: &[(u32, u32)]) -> Universe {
    let mut cells = vec![Cell::Dead; (width * height) as usize];
    for &(r, c) in alive {
        cells[(r * width + c) as usize] = Cell::Alive;
    }
    Universe::from_cells(width, height, cells).unwrap()
}

fn alive_cells(u: &Universe) -> Vec<(u32, u32)> {
    let mut out = Vec::new();
    for (i, cell) in u.cells().iter().enumerate() {
        if *cell == Cell::Alive {
            out.push((i as u32 / u.width(), i as u32 % u.width()));
        }
    }
    out
}

const GLIDER: [(u32, u32); 5] = [(1, 2), (2, 3), (3, 1), (3, 2), (3, 3)];

#[test]
fn cell_codes_are_stable() {
    assert_eq!(Cell::Dead.code(), 0);
    assert_eq!(Cell::Alive.code(), 1);
}

#[test]
fn new_lays_glider_over_dead_state() {
    let n = (DEFAULT_WIDTH * DEFAULT_HEIGHT) as usize;
    let u = Universe::new(vec![Cell::Dead; n]).unwrap();
    assert_eq!(u.width(), 64);
    assert_eq!(u.height(), 64);
    assert_eq!(u.cells().len(), 64 * 64);
    assert_eq!(alive_cells(&u), GLIDER.to_vec());
}

#[test]
fn new_lays_glider_over_any_state() {
    let n = (DEFAULT_WIDTH * DEFAULT_HEIGHT) as usize;
    let initial: Vec<Cell> = (0..n)
        .map(|i| if (i * 7 + i / 3) % 2 == 0 { Cell::Dead } else { Cell::Alive })
        .collect();
    let u = Universe::new(initial.clone()).unwrap();
    for (r, c) in GLIDER {
        assert_eq!(u.cells()[(r * 64 + c) as usize], Cell::Alive);
    }
    for (i, cell) in u.cells().iter().enumerate() {
        let pos = (i as u32 / 64, i as u32 % 64);
        if !GLIDER.contains(&pos) {
            assert_eq!(*cell, initial[i]);
        }
    }
}

#[test]
fn new_rejects_wrong_length() {
    assert_eq!(
        Universe::new(vec![Cell::Dead; 10]).err(),
        Some(UniverseError::SizeMismatch)
    );
}

#[test]
fn from_cells_rejects_empty_dimensions() {
    assert_eq!(Universe::from_cells(0, 3, vec![]).err(), Some(UniverseError::EmptyGrid));
    assert_eq!(Universe::from_cells(3, 0, vec![]).err(), Some(UniverseError::EmptyGrid));
}

#[test]
fn from_cells_rejects_size_mismatch() {
    assert_eq!(
        Universe::from_cells(3, 2, vec![Cell::Dead; 5]).err(),
        Some(UniverseError::SizeMismatch)
    );
}

#[test]
fn from_cells_keeps_the_cells() {
    let cells = vec![Cell::Alive, Cell::Dead, Cell::Dead, Cell::Alive, Cell::Alive, Cell::Dead];
    let u = Universe::from_cells(3, 2, cells.clone()).unwrap();
    assert_eq!(u.width(), 3);
    assert_eq!(u.height(), 2);
    assert_eq!(u.cells(), &cells[..]);
}

#[test]
fn one_by_one_grid_is_allowed() {
    let mut u = grid(1, 1, &[(0, 0)]);
    assert_eq!(u.cells().len(), 1);
    u.tick();
    assert_eq!(u.cells().len(), 1);
}

#[test]
fn set_alive_twice_changes_one_cell() {
    let mut u = grid(4, 3, &[(0, 1)]);
    assert_eq!(u.set_alive(2, 3), Ok(()));
    let once = u.cells().to_vec();
    assert_eq!(u.set_alive(2, 3), Ok(()));
    assert_eq!(u.cells(), &once[..]);
    assert_eq!(alive_cells(&u), vec![(0, 1), (2, 3)]);
}

#[test]
fn set_alive_rejects_row_at_height() {
    let mut u = grid(4, 3, &[(1, 1)]);
    let before = u.cells().to_vec();
    assert_eq!(u.set_alive(3, 0), Err(UniverseError::OutOfRange));
    assert_eq!(u.cells(), &before[..]);
}

#[test]
fn set_alive_rejects_column_at_width() {
    let mut u = grid(4, 3, &[(1, 1)]);
    let before = u.cells().to_vec();
    assert_eq!(u.set_alive(0, 4), Err(UniverseError::OutOfRange));
    assert_eq!(u.cells(), &before[..]);
}

#[test]
fn neighbor_count_of_full_grid_is_eight() {
    let all: Vec<(u32, u32)> = (0..3).flat_map(|r| (0..3).map(move |c| (r, c))).collect();
    let u = grid(3, 3, &all);
    for r in 0..3 {
        for c in 0..3 {
            assert_eq!(u.get_live_neighbor_count(r, c), 8);
        }
    }
}

#[test]
fn neighbor_count_stays_within_bounds() {
    let u = grid(5, 4, &[(0, 0), (1, 1), (3, 4), (2, 2), (0, 4)]);
    for r in 0..4 {
        for c in 0..5 {
            assert!(u.get_live_neighbor_count(r, c) <= 8);
        }
    }
    assert_eq!(u.get_live_neighbor_count(1, 1), 2);
}

#[test]
fn corner_wraps_to_opposite_corner() {
    let u = grid(5, 4, &[(3, 4)]);
    assert_eq!(u.get_live_neighbor_count(0, 0), 1);
    let empty = grid(5, 4, &[]);
    assert_eq!(empty.get_live_neighbor_count(0, 0), 0);
}

#[test]
fn neighbors_use_height_for_rows_and_width_for_columns() {
    // A 6 wide, 3 high grid: the row above row 0 is row 2, the column left of
    // column 0 is column 5.
    let u = grid(6, 3, &[(2, 0), (0, 5), (2, 5)]);
    assert_eq!(u.get_live_neighbor_count(0, 0), 3);
}

#[test]
fn block_is_still_life() {
    let block = [(1, 1), (1, 2), (2, 1), (2, 2)];
    let mut u = grid(6, 6, &block);
    u.tick();
    assert_eq!(alive_cells(&u), block.to_vec());
    u.tick();
    assert_eq!(alive_cells(&u), block.to_vec());
}

#[test]
fn wrapped_block_is_still_life() {
    let block = [(0, 0), (0, 4), (3, 0), (3, 4)];
    let mut u = grid(5, 4, &block);
    u.tick();
    assert_eq!(alive_cells(&u), block.to_vec());
}

#[test]
fn isolated_cell_dies() {
    let mut u = grid(5, 5, &[(2, 2)]);
    assert_eq!(u.get_live_neighbor_count(2, 2), 0);
    u.tick();
    assert!(alive_cells(&u).is_empty());
}

#[test]
fn dead_cell_with_three_neighbors_is_born() {
    let mut u = grid(5, 5, &[(1, 1), (1, 2), (1, 3)]);
    assert_eq!(u.get_live_neighbor_count(2, 2), 3);
    u.tick();
    assert_eq!(u.cells()[(2 * 5 + 2) as usize], Cell::Alive);
    assert_eq!(alive_cells(&u), vec![(0, 2), (1, 2), (2, 2)]);
}

#[test]
fn overcrowded_cell_dies() {
    let mut u = grid(5, 5, &[(2, 2), (1, 1), (1, 3), (3, 1), (3, 3)]);
    assert_eq!(u.get_live_neighbor_count(2, 2), 4);
    u.tick();
    assert_eq!(u.cells()[(2 * 5 + 2) as usize], Cell::Dead);
}

#[test]
fn rule_table() {
    assert_eq!(next_cell(Cell::Alive, 0), Cell::Dead);
    assert_eq!(next_cell(Cell::Alive, 1), Cell::Dead);
    assert_eq!(next_cell(Cell::Alive, 2), Cell::Alive);
    assert_eq!(next_cell(Cell::Alive, 3), Cell::Alive);
    assert_eq!(next_cell(Cell::Alive, 4), Cell::Dead);
    assert_eq!(next_cell(Cell::Alive, 8), Cell::Dead);
    assert_eq!(next_cell(Cell::Dead, 2), Cell::Dead);
    assert_eq!(next_cell(Cell::Dead, 3), Cell::Alive);
    assert_eq!(next_cell(Cell::Dead, 4), Cell::Dead);
}

#[test]
fn grid_size_kept_across_ticks() {
    let mut u = grid(7, 5, &[(0, 0), (0, 1), (1, 0), (4, 6), (2, 3)]);
    for _ in 0..20 {
        u.tick();
        assert_eq!(u.cells().len(), (u.width() * u.height()) as usize);
        assert_eq!(u.width(), 7);
        assert_eq!(u.height(), 5);
    }
}

#[test]
fn glider_moves_one_diagonal_step_in_four_ticks() {
    let mut u = grid(8, 8, &[]);
    u.generate_glider();
    assert_eq!(alive_cells(&u), GLIDER.to_vec());
    for _ in 0..4 {
        u.tick();
    }
    let moved: Vec<(u32, u32)> = GLIDER.iter().map(|&(r, c)| (r + 1, c + 1)).collect();
    assert_eq!(alive_cells(&u), moved);
}

#[test]
fn glider_skips_cells_off_a_small_grid() {
    let mut u = grid(3, 3, &[]);
    u.generate_glider();
    assert_eq!(alive_cells(&u), vec![(1, 2)]);
}

#[test]
fn render_draws_one_line_per_row() {
    let u = grid(3, 2, &[(0, 1), (1, 0), (1, 2)]);
    assert_eq!(u.render(), "\u{25FB}\u{25FC}\u{25FB}\n\u{25FC}\u{25FB}\u{25FC}\n");
}

#[test]
fn render_of_glider_grid() {
    let mut u = grid(4, 4, &[]);
    u.generate_glider();
    let text = u.render();
    let lines: Vec<&str> = text.lines().collect();
    assert_eq!(lines.len(), 4);
    assert_eq!(lines[1], "\u{25FB}\u{25FB}\u{25FC}\u{25FB}");
    assert_eq!(lines[3], "\u{25FB}\u{25FC}\u{25FC}\u{25FC}");
    assert!(text.ends_with('\n'));
}
