//! The calls into the `sudoku` and `rand` crates. Nothing here is proved:
//! each contract restates what the crate documents of the function called.

use crate::rules::{has_unique_solution, is_unique_solution};
use sudoku::Sudoku;
use vstd::string::StringSliceAdditionalSpecFns;
use vstd::prelude::*;

verus! {

/// The bytes that stand for a square in the line format: a digit, or one of
/// the two marks for an empty square.
pub open spec fn is_cell_byte(b: u8) -> bool {
    b == 0x5f || b == 0x2e || 0x30 <= b <= 0x39
}

/// The number a square's byte stands for: `'1'` to `'9'` are the digits,
/// `'0'`, `'_'` and `'.'` an empty square.
pub open spec fn cell_of_byte(b: u8) -> u8 {
    if 0x30 <= b <= 0x39 {
        (b - 0x30) as u8
    } else {
        0
    }
}

/// The bytes that may follow the 81 squares of a line: tab, space, carriage
/// return, line feed, semicolon, comma.
pub open spec fn is_delimiter(b: u8) -> bool {
    b == 0x09 || b == 0x20 || b == 0x0d || b == 0x0a || b == 0x3b || b == 0x2c
}

/// The grid that a line of text holds, if it holds one: 81 square bytes,
/// then the end of the text or a delimiter.
pub open spec fn line_cells(bytes: Seq<u8>) -> Option<Seq<u8>> {
    if bytes.len() >= 81 && (forall|k: int| 0 <= k < 81 ==> is_cell_byte(#[trigger] bytes[k])) && (
    bytes.len() > 81 ==> is_delimiter(bytes[81])) {
        Some(Seq::new(81, |k: int| cell_of_byte(bytes[k])))
    } else {
        None
    }
}

/// `Sudoku::generate_unique`, read out with `to_bytes`. The crate documents
/// the puzzle as uniquely solvable. Which puzzle comes back is random, so
/// nothing more is said of it.
#[verifier::external_body]
pub(crate) fn generate_unique() -> (grid: [u8; 81])
    ensures
        has_unique_solution(grid@),
{
    Sudoku::generate_unique().to_bytes()
}

/// `Sudoku::solve_unique` on the grid made by `Sudoku::from_bytes`, read
/// out with `to_bytes`. The crate returns the solution if the puzzle has
/// exactly one, and nothing otherwise. It gives up at once on a puzzle
/// with fewer than 17 numbers or fewer than 8 different digits, of which
/// none has exactly one solution. A grid with a number above 9, which
/// `from_bytes` refuses, has no solution either.
#[verifier::external_body]
pub(crate) fn solve_unique(grid: &[u8; 81]) -> (solution: Option<[u8; 81]>)
    ensures
        match solution {
            Some(s) => is_unique_solution(s@, grid@),
            None => !has_unique_solution(grid@),
        },
{
    match Sudoku::from_bytes(*grid) {
        Ok(puzzle) => match puzzle.solve_unique() {
            Some(solved) => Some(solved.to_bytes()),
            None => None,
        },
        Err(_) => None,
    }
}

/// `Sudoku::from_str_line`, read out with `to_bytes`. The crate reads the
/// first 81 bytes as squares and accepts the line if they all are squares
/// and the text ends there or goes on with a delimiter.
#[verifier::external_body]
pub(crate) fn from_str_line(line: &str) -> (cells: Option<[u8; 81]>)
    ensures
        match cells {
            Some(c) => line_cells(line.spec_bytes()) == Some(c@),
            None => line_cells(line.spec_bytes()) is None,
        },
{
    match Sudoku::from_str_line(line) {
        Ok(puzzle) => Some(puzzle.to_bytes()),
        Err(_) => None,
    }
}

/// `Rng::gen_range` of `rand::thread_rng()` over `0..n`: some number below
/// `n`. The crate panics on an empty range, so `n` is not 0.
#[verifier::external_body]
pub(crate) fn random_below(n: u8) -> (r: u8)
    requires
        n > 0,
    ensures
        r < n,
{
    rand::Rng::gen_range(&mut rand::thread_rng(), 0..n)
}

} // verus!
