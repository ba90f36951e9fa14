#![allow(unused_imports, unused_variables, unused_mut, dead_code)]

use zmax_term::nonogram::{Cell, Game, N, line_clues, puzzle};



/// `line_clues` run-length-encodes the filled runs of a line.
#[test]
fn line_clues_encodes_runs() {
    let line = [true, true, false, true, true, true, false];
    assert_eq!(line_clues(&line), vec![2, 3]);
}

/// An all-empty line still yields a single `0` clue.
#[test]
fn line_clues_of_empty_is_zero() {
    let line = [false; N];
    assert_eq!(line_clues(&line), vec![0]);
}

/// A fully filled line yields one clue equal to its length.
#[test]
fn line_clues_of_full_is_length() {
    let line = [true; N];
    assert_eq!(line_clues(&line), vec![N as u32]);
}

/// A fresh board (nothing filled) is not solved as long as the puzzle has
/// filled cells.
#[test]
fn fresh_board_is_not_solved() {
    let g = Game::new(1);
    assert!(!g.is_solved());
}

/// Filling exactly the solution's cells — and nothing else — solves it.
#[test]
fn filling_the_solution_solves() {
    let mut g = Game::new(1);
    for i in 0..g.solution.len() {
        if g.solution[i] {
            g.cells[i] = Cell::Filled;
        }
    }
    assert!(g.is_solved());
}

/// One extra wrong fill breaks the solved check.
#[test]
fn an_extra_fill_breaks_the_solution() {
    let mut g = Game::new(1);
    for i in 0..g.solution.len() {
        if g.solution[i] {
            g.cells[i] = Cell::Filled;
        }
    }
    // Find an empty solution cell and wrongly fill it.
    let wrong = (0..g.solution.len()).find(|&i| !g.solution[i]).unwrap();
    g.cells[wrong] = Cell::Filled;
    assert!(!g.is_solved());
}

