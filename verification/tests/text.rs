use sudoku_avr::grid::empty_grid;
use sudoku_avr::{Difficulty, SudokuAvr};

const PUZZLE: &str =
    "003020600900305001001806400008102900700000008006708200002609500800203009005010300";

#[test]
fn printed_board() {
    let p = SudokuAvr::new_from_str(PUZZLE, Difficulty::Easy).unwrap();
    let expected = "\n\t---------------------------\n\
\t1 | _ _ 3 | _ 2 _ | 6 _ _ |\n\
\t2 | 9 _ _ | 3 _ 5 | _ _ 1 |\n\
\t3 | _ _ 1 | 8 _ 6 | 4 _ _ |\n\t===========================\n\
\t4 | _ _ 8 | 1 _ 2 | 9 _ _ |\n\
\t5 | 7 _ _ | _ _ _ | _ _ 8 |\n\
\t6 | _ _ 6 | 7 _ 8 | 2 _ _ |\n\t===========================\n\
\t7 | _ _ 2 | 6 _ 9 | 5 _ _ |\n\
\t8 | 8 _ _ | 2 _ 3 | _ _ 9 |\n\
\t9 | _ _ 5 | _ 1 _ | 3 _ _ |\n\
\t---------------------------\n\
\t\u{1f918}| 1 2 3 | 4 5 6 | 7 8 9 |\n\n";
    assert_eq!(p.print_unsolved(), expected);
    assert_eq!(SudokuAvr::print_board(&p.board_grid()), expected);
}

#[test]
fn printed_solution() {
    let p = SudokuAvr::new_from_str(PUZZLE, Difficulty::Easy).unwrap();
    let text = p.print_solved();
    assert!(text.contains("\t1 | 4 8 3 | 9 2 1 | 6 5 7 |\n"));
    assert!(text.contains("\t9 | 6 9 5 | 4 1 7 | 3 8 2 |\n"));
    assert!(!text.contains('_'));
}

#[test]
fn printed_board_writes_large_values_in_full() {
    let mut g = empty_grid();
    g[0][0].value = 10;
    g[8][8].value = 255;
    let text = SudokuAvr::print_board(&g);
    assert!(text.contains("\t1 | 10 _ _ | _ _ _ | _ _ _ |\n"));
    assert!(text.contains("\t9 | _ _ _ | _ _ _ | _ _ 255 |\n"));
}
