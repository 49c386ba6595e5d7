//! A puzzle: the board shown to the player, its solution, and the level it
//! was made for.

use crate::difficulty::Difficulty;
use crate::errors::ContentError;
use crate::grid::{
    cell_at, clues_of, count_filled, count_true, filled_mask, lemma_count_all_false, min_count,
    parse_board, remove_cells, removable_mask, solve_board, values_of, Grid,
};
use crate::rules::{
    has_unique_solution, is_solved_grid, is_unique_solution, lemma_solved_grid_solves_itself,
    occurs_once,
};
use crate::solver::{cell_of_byte, from_str_line, generate_unique, line_cells, solve_unique};
use crate::text::{digit_char, digit_text};
use vstd::prelude::*;
use vstd::string::{StringExecFns, StringSliceAdditionalSpecFns};
use vstd::utf8::{encode_utf8, is_ascii_chars, is_ascii_chars_encode_utf8};

verus! {

/// The numbers of the clue squares of a board, with 0 everywhere else: the
/// puzzle as it was first given.
pub open spec fn clue_values(g: Grid) -> Seq<u8> {
    Seq::new(
        81,
        |k: int|
            if cell_at(g, k).orig {
                cell_at(g, k).value
            } else {
                0u8
            },
    )
}

/// What holds of the boards of every puzzle.
pub open spec fn boards_agree(board: Grid, solution: Grid, filled: int) -> bool {
    // The solution is a solved grid, and the only one that the clues allow.
    &&& is_unique_solution(values_of(solution), clue_values(board))
    &&& forall|k: int| 0 <= k < 81 ==> #[trigger] clues_of(solution)[k]
    // A clue shows the number that the solution has.
    &&& forall|k: int|
        0 <= k < 81 && #[trigger] clues_of(board)[k] ==> values_of(board)[k] == values_of(
            solution,
        )[k]
    // Any other square is empty or shows the number that the solution has.
    &&& forall|k: int|
        0 <= k < 81 ==> #[trigger] values_of(board)[k] == 0 || values_of(board)[k] == values_of(
            solution,
        )[k]
    &&& filled == count_true(filled_mask(board))
}

/// The 81 numbers of a board as a line of digits.
pub open spec fn line_text(values: Seq<u8>) -> Seq<char> {
    Seq::new(81, |k: int| digit_char(values[k]))
}

/// Every square of the board holds a number.
pub open spec fn is_full(values: Seq<u8>) -> bool {
    forall|k: int| 0 <= k < 81 ==> #[trigger] values[k] != 0
}

/// The line holds a board that has exactly one solution.
pub open spec fn is_readable(bytes: Seq<u8>) -> bool {
    line_cells(bytes) is Some && has_unique_solution(line_cells(bytes)->0)
}

/// The boards of a puzzle, kept together so that they always agree.
#[derive(Clone, Copy, Debug, PartialEq, Eq, PartialOrd, Ord)]
pub struct Boards {
    board: Grid,
    solution: Grid,
    filled: u8,
}

impl Boards {
    #[verifier::type_invariant]
    closed spec fn agree(self) -> bool {
        boards_agree(self.board, self.solution, self.filled as int)
    }
}

/// A puzzle with its solution.
#[derive(Clone, Copy, Debug, PartialEq, Eq, PartialOrd, Ord)]
pub struct SudokuAvr {
    /// The level the puzzle was made for.
    pub dif: Difficulty,
    /// The board, its solution and the count of filled squares.
    pub grids: Boards,
    /// Seconds that the player took to solve it; 0 while it is unsolved.
    pub tts: u64,
}

/// When every square is filled, the squares that may be blanked are those
/// that are no clues.
proof fn lemma_full_board_counts(g: Grid)
    requires
        is_full(values_of(g)),
    ensures
        count_true(filled_mask(g)) == 81,
        count_true(removable_mask(g)) == 81 - count_true(clues_of(g)),
{
    assert forall|k: int| 0 <= k < 81 implies #[trigger] filled_mask(g)[k] by {
        assert(values_of(g)[k] != 0);
    }
    lemma_count_complement(filled_mask(g), Seq::new(81, |k: int| false));
    lemma_count_all_false(81);
    assert forall|k: int| 0 <= k < 81 implies #[trigger] removable_mask(g)[k] != clues_of(g)[k] by {
        assert(values_of(g)[k] != 0);
    }
    lemma_count_complement(removable_mask(g), clues_of(g));
}

/// A board laid out from 81 numbers has those numbers as its clues.
proof fn lemma_parsed_clues(g: Grid, given: Seq<u8>)
    requires
        given.len() == 81,
        values_of(g) == given,
        forall|k: int| 0 <= k < 81 ==> #[trigger] clues_of(g)[k] == (given[k] != 0),
    ensures
        clue_values(g) == given,
{
    assert forall|k: int| 0 <= k < 81 implies clue_values(g)[k] == given[k] by {
        assert(values_of(g)[k] == given[k]);
        assert(clues_of(g)[k] == (given[k] != 0));
    }
    assert(clue_values(g) =~= given);
}

/// Two masks that disagree everywhere count, together, every square.
proof fn lemma_count_complement(s: Seq<bool>, t: Seq<bool>)
    requires
        s.len() == t.len(),
        forall|k: int| 0 <= k < s.len() ==> #[trigger] s[k] != t[k],
    ensures
        count_true(s) + count_true(t) == s.len(),
    decreases s.len(),
{
    if s.len() > 0 {
        lemma_count_complement(s.drop_last(), t.drop_last());
    }
}

impl SudokuAvr {
    /// The board that the player sees.
    pub closed spec fn board(self) -> Grid {
        self.grids.board
    }

    /// The solved board.
    pub closed spec fn solution(self) -> Grid {
        self.grids.solution
    }

    /// The recorded number of squares that hold a number.
    pub closed spec fn filled(self) -> int {
        self.grids.filled as int
    }

    /// What holds of every puzzle, whichever way it was made.
    pub open spec fn wf(self) -> bool {
        boards_agree(self.board(), self.solution(), self.filled())
    }

    /// The candidate holds, square by square, the numbers of the solution.
    pub open spec fn accepts(self, candidate: Grid) -> bool {
        values_of(candidate) == values_of(self.solution())
    }

    /// The puzzle is what reading the line `bytes` gives.
    pub open spec fn holds_line(self, bytes: Seq<u8>) -> bool {
        &&& self.wf()
        &&& line_cells(bytes) == Some(values_of(self.board()))
        &&& forall|k: int| 0 <= k < 81 ==> #[trigger] clues_of(self.board())[k] == (values_of(self.board())[k] != 0)
    }

    /// Makes a new puzzle: a random grid with one solution, whose given
    /// squares are the clues. All other squares are filled in from the
    /// solution, and then as many of them are emptied again as the level
    /// asks for, or all of them where there are fewer.
    pub fn new(diff: &Difficulty) -> (puzzle: Self)
        ensures
            puzzle.wf(),
            puzzle.dif == *diff,
            puzzle.tts == 0,
            81 - puzzle.filled() == min_count(
                diff.spec_removal_target(),
                81 - count_true(clues_of(puzzle.board())),
            ),
    {
        let given = generate_unique();
        let solved = match solve_unique(&given) {
            Some(solved) => solved,
            None => vstd::pervasive::unreached(),
        };
        let mut board = parse_board(&given);
        let solution = parse_board(&solved);
        let ghost parsed = board;
        proof {
            lemma_parsed_clues(parsed, given@);
        }
        solve_board(&mut board, &solution);
        let ghost full = board;
        proof {
            assert forall|k: int| 0 <= k < 81 implies #[trigger] values_of(full)[k] == solved@[k] by {
                if clues_of(parsed)[k] {
                    assert(given@[k] != 0);
                }
            }
            assert(is_full(values_of(full)));
            lemma_full_board_counts(full);
        }
        remove_cells(&mut board, diff.removal_target());
        let filled = count_filled(&board);
        proof {
            assert forall|k: int| 0 <= k < 81 implies cell_at(board, k).orig == cell_at(parsed, k).orig by {
                assert(clues_of(board)[k] == clues_of(full)[k]);
                assert(clues_of(full)[k] == clues_of(parsed)[k]);
            }
            assert forall|k: int| 0 <= k < 81 && cell_at(parsed, k).orig implies cell_at(
                board,
                k,
            ).value == given@[k] by {
                assert(clues_of(parsed)[k]);
                assert(!removable_mask(full)[k]);
                assert(values_of(board)[k] == values_of(full)[k]);
            }
            assert(clue_values(board) =~= given@);
            assert forall|k: int| 0 <= k < 81 implies #[trigger] values_of(board)[k] == 0
                || values_of(board)[k] == values_of(solution)[k] by {
                assert(values_of(full)[k] == solved@[k]);
            }
            assert forall|k: int| 0 <= k < 81 implies #[trigger] clues_of(solution)[k] by {
                assert(solved@[k] != 0);
            }
        }
        SudokuAvr { dif: *diff, grids: Boards { board, solution, filled }, tts: 0 }
    }

    /// Reads a puzzle from a line of 81 squares. Every number on the line
    /// is a clue. Fails where the line holds no board, or a board that has
    /// no solution or more than one.
    pub fn new_from_str(line: &str, diff: Difficulty) -> (read: Result<Self, ContentError>)
        ensures
            read is Ok <==> is_readable(line.spec_bytes()),
            read matches Ok(puzzle) ==> puzzle.holds_line(line.spec_bytes()) && puzzle.dif == diff
                && puzzle.tts == 0,
            read matches Err(e) ==> e == if line_cells(line.spec_bytes()) is None {
                ContentError::MalformedBoard
            } else {
                ContentError::NoUniqueSolution
            },
    {
        let given = match from_str_line(line) {
            Some(given) => given,
            None => {
                return Err(ContentError::MalformedBoard);
            },
        };
        let solved = match solve_unique(&given) {
            Some(solved) => solved,
            None => {
                return Err(ContentError::NoUniqueSolution);
            },
        };
        let board = parse_board(&given);
        let solution = parse_board(&solved);
        let filled = count_filled(&board);
        proof {
            lemma_parsed_clues(board, given@);
            assert forall|k: int| 0 <= k < 81 implies #[trigger] clues_of(solution)[k] by {
                assert(solved@[k] != 0);
            }
            assert forall|k: int| 0 <= k < 81 && #[trigger] clues_of(board)[k] implies values_of(
                board,
            )[k] == values_of(solution)[k] by {
                assert(given@[k] != 0);
            }
        }
        Ok(SudokuAvr { dif: diff, grids: Boards { board, solution, filled }, tts: 0 })
    }

    /// Whether a board that came back from the player is the solution:
    /// every square must hold the solution's number.
    pub fn check(&self, board: &Grid) -> (valid: bool)
        ensures
            valid == self.accepts(*board),
    {
        let mut k: usize = 0;
        while k < 81
            invariant
                k <= 81,
                forall|n: int| 0 <= n < k ==> #[trigger] values_of(*board)[n] == values_of(self.solution())[n],
            decreases 81 - k,
        {
            if self.grids.solution[k / 9][k % 9].value != board[k / 9][k % 9].value {
                assert(values_of(*board)[k as int] != values_of(self.solution())[k as int]);
                return false;
            }
            k = k + 1;
        }
        assert(values_of(*board) =~= values_of(self.solution()));
        true
    }

    /// The board as a line of 81 digits, row by row, `0` for an empty
    /// square.
    pub fn to_string(&self) -> (text: String)
        ensures
            text@ == line_text(values_of(self.board())),
            self.wf(),
    {
        proof {
            use_type_invariant(&self.grids);
        }
        let mut text = String::new();
        let mut k: usize = 0;
        while k < 81
            invariant
                k <= 81,
                self.wf(),
                text@ == line_text(values_of(self.board())).take(k as int),
            decreases 81 - k,
        {
            let value = self.grids.board[k / 9][k % 9].value;
            proof {
                assert(value == values_of(self.board())[k as int]);
                assert(1 <= values_of(self.solution())[k as int] <= 9);
            }
            text.append(digit_text(value));
            assert(text@ =~= line_text(values_of(self.board())).take(k + 1));
            k = k + 1;
        }
        assert(text@ =~= line_text(values_of(self.board())));
        text
    }

    /// A copy of the board that the player sees.
    pub fn board_grid(&self) -> (g: Grid)
        ensures
            g == self.board(),
            self.wf(),
    {
        proof {
            use_type_invariant(&self.grids);
        }
        self.grids.board
    }

    /// A copy of the solved board.
    pub fn solution_grid(&self) -> (g: Grid)
        ensures
            g == self.solution(),
            self.wf(),
    {
        proof {
            use_type_invariant(&self.grids);
        }
        self.grids.solution
    }

    /// How many squares of the board hold a number.
    pub fn filled_count(&self) -> (n: u8)
        ensures
            n == self.filled(),
            n == count_true(filled_mask(self.board())),
            n <= 81,
    {
        proof {
            use_type_invariant(&self.grids);
            crate::grid::lemma_count_bounds(filled_mask(self.board()));
        }
        self.grids.filled
    }
}

/// The solution of a puzzle passes the check.
pub proof fn lemma_solution_is_accepted(puzzle: SudokuAvr)
    ensures
        puzzle.accepts(puzzle.solution()),
{
}

/// A board that differs from the solution in the number of one square
/// fails the check.
pub proof fn lemma_altered_solution_is_rejected(puzzle: SudokuAvr, candidate: Grid, k: int)
    requires
        0 <= k < 81,
        cell_at(candidate, k).value != cell_at(puzzle.solution(), k).value,
    ensures
        !puzzle.accepts(candidate),
{
    assert(values_of(candidate)[k] != values_of(puzzle.solution())[k]);
}

/// In every puzzle a clue shows the number that the solution has in that
/// square.
pub proof fn lemma_clues_match_solution(puzzle: SudokuAvr, k: int)
    requires
        puzzle.wf(),
        0 <= k < 81,
        cell_at(puzzle.board(), k).orig,
    ensures
        cell_at(puzzle.board(), k).value == cell_at(puzzle.solution(), k).value,
{
    assert(clues_of(puzzle.board())[k]);
    assert(values_of(puzzle.board())[k] == values_of(puzzle.solution())[k]);
}

/// In every puzzle the solution is full and holds each digit from 1 to 9
/// exactly once in every row, every column and every box.
pub proof fn lemma_solution_is_solved(puzzle: SudokuAvr, house: int, digit: int)
    requires
        puzzle.wf(),
        0 <= house < 27,
        1 <= digit <= 9,
    ensures
        is_solved_grid(values_of(puzzle.solution())),
        occurs_once(values_of(puzzle.solution()), house, digit),
{
}

/// A full board written as a line can be read back, and reading it gives
/// the same numbers, hence the same line.
pub proof fn lemma_line_round_trip(puzzle: SudokuAvr, read: SudokuAvr)
    requires
        puzzle.wf(),
        is_full(values_of(puzzle.board())),
        read.holds_line(encode_utf8(line_text(values_of(puzzle.board())))),
    ensures
        is_readable(encode_utf8(line_text(values_of(puzzle.board())))),
        values_of(read.board()) == values_of(puzzle.board()),
        line_text(values_of(read.board())) == line_text(values_of(puzzle.board())),
{
    lemma_full_line_is_readable(puzzle);
}

/// The line of a full board holds that board, and the board has one
/// solution: itself.
pub proof fn lemma_full_line_is_readable(puzzle: SudokuAvr)
    requires
        puzzle.wf(),
        is_full(values_of(puzzle.board())),
    ensures
        line_cells(encode_utf8(line_text(values_of(puzzle.board())))) == Some(
            values_of(puzzle.board()),
        ),
        is_readable(encode_utf8(line_text(values_of(puzzle.board())))),
{
    let values = values_of(puzzle.board());
    let text = line_text(values);
    let bytes = encode_utf8(text);
    assert forall|k: int| 0 <= k < 81 implies values[k] == #[trigger] values_of(puzzle.solution())[k] by {
        assert(values[k] != 0);
    }
    assert(values =~= values_of(puzzle.solution()));
    assert forall|k: int| 0 <= k < 81 implies '\0' <= #[trigger] text[k] <= '\u{7f}' by {
        assert(1 <= values[k] <= 9);
    }
    assert(is_ascii_chars(text));
    is_ascii_chars_encode_utf8(text);
    assert forall|k: int| 0 <= k < 81 implies crate::solver::is_cell_byte(#[trigger] bytes[k])
        && cell_of_byte(bytes[k]) == values[k] by {
        assert(1 <= values[k] <= 9);
        assert(text[k] as u8 == bytes[k]);
    }
    assert(line_cells(bytes)->0 =~= values);
    lemma_solved_grid_solves_itself(values);
}

} // verus!
