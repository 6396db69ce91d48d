use wasm_game_of_life::cell::evolve;
use wasm_game_of_life::pattern::{lightship_cell, LIGHTSHIP_COLS, LIGHTSHIP_ROWS};
use wasm_game_of_life::{greet, Cell, UniverseError};

#[test]
fn toggle_flips_dead_to_alive() {
    let mut cell = Cell::Dead;
    cell.toggle();
    assert_eq!(cell, Cell::Alive);
}

#[test]
fn toggle_flips_alive_to_dead() {
    let mut cell = Cell::Alive;
    cell.toggle();
    assert_eq!(cell, Cell::Dead);
}

#[test]
fn toggle_twice_is_identity() {
    for start in [Cell::Dead, Cell::Alive] {
        let mut cell = start;
        cell.toggle();
        assert_ne!(cell, start);
        cell.toggle();
        assert_eq!(cell, start);
    }
}

#[test]
fn as_u8_is_zero_for_dead_and_one_for_alive() {
    assert_eq!(Cell::Dead.as_u8(), 0);
    assert_eq!(Cell::Alive.as_u8(), 1);
}

#[test]
fn symbol_is_hollow_for_dead_and_filled_for_alive() {
    assert_eq!(Cell::Dead.symbol(), "\u{25FB}");
    assert_eq!(Cell::Alive.symbol(), "\u{25FC}");
    assert_eq!(Cell::Dead.symbol().chars().count(), 1);
    assert_eq!(Cell::Alive.symbol().chars().count(), 1);
}

#[test]
fn live_cell_dies_of_underpopulation() {
    assert_eq!(evolve(Cell::Alive, 0), Cell::Dead);
    assert_eq!(evolve(Cell::Alive, 1), Cell::Dead);
}

#[test]
fn live_cell_survives_with_two_or_three() {
    assert_eq!(evolve(Cell::Alive, 2), Cell::Alive);
    assert_eq!(evolve(Cell::Alive, 3), Cell::Alive);
}

#[test]
fn live_cell_dies_of_overpopulation() {
    for n in 4u8..=8 {
        assert_eq!(evolve(Cell::Alive, n), Cell::Dead, "{} neighbors", n);
    }
}

#[test]
fn dead_cell_is_born_with_exactly_three() {
    assert_eq!(evolve(Cell::Dead, 3), Cell::Alive);
}

#[test]
fn dead_cell_stays_dead_otherwise() {
    for n in [0u8, 1, 2, 4, 5, 6, 7, 8] {
        assert_eq!(evolve(Cell::Dead, n), Cell::Dead, "{} neighbors", n);
    }
}

#[test]
fn rule_table_is_exact_for_every_count() {
    let alive_next: [Cell; 9] = [
        Cell::Dead,
        Cell::Dead,
        Cell::Alive,
        Cell::Alive,
        Cell::Dead,
        Cell::Dead,
        Cell::Dead,
        Cell::Dead,
        Cell::Dead,
    ];
    let dead_next: [Cell; 9] = [
        Cell::Dead,
        Cell::Dead,
        Cell::Dead,
        Cell::Alive,
        Cell::Dead,
        Cell::Dead,
        Cell::Dead,
        Cell::Dead,
        Cell::Dead,
    ];
    for n in 0u8..=8 {
        assert_eq!(evolve(Cell::Alive, n), alive_next[n as usize]);
        assert_eq!(evolve(Cell::Dead, n), dead_next[n as usize]);
    }
}

#[test]
fn lightship_has_four_rows_of_five() {
    assert_eq!(LIGHTSHIP_ROWS, 4);
    assert_eq!(LIGHTSHIP_COLS, 5);
}

#[test]
fn lightship_cells_match_the_pattern() {
    let rows: [&str; 4] = [".#..#", "#....", "#...#", "####."];
    for i in 0u32..4 {
        for j in 0u32..5 {
            let expected: Cell = if rows[i as usize].as_bytes()[j as usize] == b'#' {
                Cell::Alive
            } else {
                Cell::Dead
            };
            assert_eq!(lightship_cell(i, j), expected, "row {} column {}", i, j);
        }
    }
}

#[test]
fn lightship_has_nine_live_cells() {
    let mut live: u32 = 0;
    for i in 0u32..4 {
        for j in 0u32..5 {
            live += lightship_cell(i, j).as_u8() as u32;
        }
    }
    assert_eq!(live, 9);
}

#[test]
fn greet_puts_the_name_after_the_salutation() {
    assert_eq!(greet("Ada"), "Hello, wasm-game-of-life, Ada");
}

#[test]
fn greet_with_empty_name_is_the_salutation_alone() {
    assert_eq!(greet(""), "Hello, wasm-game-of-life, ");
}

#[test]
fn greet_keeps_the_name_as_given() {
    assert_eq!(greet("  \u{25FC} x\n"), "Hello, wasm-game-of-life,   \u{25FC} x\n");
}

#[test]
fn errors_are_distinct() {
    assert_ne!(UniverseError::OutOfBounds, UniverseError::InvalidDimensions);
    assert_eq!(UniverseError::OutOfBounds, UniverseError::OutOfBounds);
}
