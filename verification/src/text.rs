//! Numbers and boards as text.

use crate::grid::{values_of, Grid};
use crate::puzzle::SudokuAvr;
use vstd::prelude::*;
use vstd::string::StringExecFns;

verus! {

/// The character for a number from 0 to 9.
pub open spec fn digit_char(v: u8) -> char {
    ((v + 0x30) as u8) as char
}

/// A number in decimal, without leading zeros.
pub open spec fn decimal_text(n: nat) -> Seq<char>
    decreases n,
{
    if n < 10 {
        seq![digit_char(n as u8)]
    } else {
        decimal_text(n / 10).push(digit_char((n % 10) as u8))
    }
}

/// One square of a printed board: its number, or `_` where it is empty,
/// and a space.
pub open spec fn cell_text(v: u8) -> Seq<char> {
    if v == 0 {
        "_ "@
    } else {
        decimal_text(v as nat) + " "@
    }
}

/// The first `n` squares of row `i` of a printed board, with a bar behind
/// the third and the sixth.
pub open spec fn cells_text(values: Seq<u8>, i: int, n: int) -> Seq<char>
    decreases n,
{
    if n <= 0 {
        Seq::empty()
    } else {
        cells_text(values, i, n - 1) + cell_text(values[9 * i + n - 1]) + if n % 3 == 0 && n != 9 {
            "| "@
        } else {
            Seq::empty()
        }
    }
}

/// Row `i` of a printed board: a tab, the row's number from 1, its
/// squares, and a rule below the third and the sixth row.
pub open spec fn row_text(values: Seq<u8>, i: int) -> Seq<char> {
    "\t"@ + decimal_text((i + 1) as nat) + " | "@ + cells_text(values, i, 9) + "|"@ + (if (i + 1)
        % 3 == 0 && i + 1 != 9 {
        "\n\t==========================="@
    } else {
        Seq::empty()
    }) + "\n"@
}

/// The first `n` rows of a printed board.
pub open spec fn rows_text(values: Seq<u8>, n: int) -> Seq<char>
    decreases n,
{
    if n <= 0 {
        Seq::empty()
    } else {
        rows_text(values, n - 1) + row_text(values, n - 1)
    }
}

/// A printed board: a rule, the nine rows, a rule, and the numbers of the
/// columns.
pub open spec fn board_text(values: Seq<u8>) -> Seq<char> {
    "\n\t---------------------------\n"@ + rows_text(values, 9)
        + "\t---------------------------\n"@ + "\t\u{1f918}| 1 2 3 | 4 5 6 | 7 8 9 |\n\n"@
}

/// The text of one decimal digit.
pub fn digit_text(d: u8) -> (text: &'static str)
    requires
        d <= 9,
    ensures
        text@ == seq![digit_char(d)],
{
    proof {
        reveal_strlit("0");
        reveal_strlit("1");
        reveal_strlit("2");
        reveal_strlit("3");
        reveal_strlit("4");
        reveal_strlit("5");
        reveal_strlit("6");
        reveal_strlit("7");
        reveal_strlit("8");
        reveal_strlit("9");
    }
    let text = match d {
        0 => "0",
        1 => "1",
        2 => "2",
        3 => "3",
        4 => "4",
        5 => "5",
        6 => "6",
        7 => "7",
        8 => "8",
        _ => "9",
    };
    assert(text@ =~= seq![digit_char(d)]);
    text
}

/// Writes a number in decimal at the end of a text.
pub fn push_decimal(text: &mut String, n: u64)
    ensures
        final(text)@ == old(text)@ + decimal_text(n as nat),
    decreases n,
{
    if n >= 10 {
        push_decimal(text, n / 10);
    }
    text.append(digit_text((n % 10) as u8));
    assert(text@ =~= old(text)@ + decimal_text(n as nat));
}

fn push_cells(text: &mut String, board: &Grid, row: usize)
    requires
        row < 9,
    ensures
        final(text)@ == old(text)@ + cells_text(values_of(*board), row as int, 9),
{
    let ghost values = values_of(*board);
    let mut col: usize = 0;
    assert(text@ =~= old(text)@ + cells_text(values, row as int, 0));
    while col < 9
        invariant
            col <= 9,
            row < 9,
            values == values_of(*board),
            text@ == old(text)@ + cells_text(values, row as int, col as int),
        decreases 9 - col,
    {
        let ghost before = text@;
        let value = board[row][col].value;
        assert(value == values[9 * row + col]);
        if value == 0 {
            text.append("_ ");
        } else {
            push_decimal(text, value as u64);
            text.append(" ");
        }
        assert(text@ =~= before + cell_text(value));
        if (col + 1) % 3 == 0 && col + 1 != 9 {
            text.append("| ");
        }
        col = col + 1;
        assert(text@ =~= old(text)@ + cells_text(values, row as int, col as int));
    }
}

fn push_row(text: &mut String, board: &Grid, row: usize)
    requires
        row < 9,
    ensures
        final(text)@ == old(text)@ + row_text(values_of(*board), row as int),
{
    text.append("\t");
    push_decimal(text, (row + 1) as u64);
    text.append(" | ");
    push_cells(text, board, row);
    text.append("|");
    if (row + 1) % 3 == 0 && row + 1 != 9 {
        text.append("\n\t===========================");
    }
    text.append("\n");
    assert(text@ =~= old(text)@ + row_text(values_of(*board), row as int));
}

impl SudokuAvr {
    /// A board as it is shown on the terminal.
    pub fn print_board(board: &Grid) -> (text: String)
        ensures
            text@ == board_text(values_of(*board)),
    {
        let ghost values = values_of(*board);
        let mut text = String::new();
        text.append("\n\t---------------------------\n");
        let mut row: usize = 0;
        assert(text@ =~= "\n\t---------------------------\n"@ + rows_text(values, 0));
        while row < 9
            invariant
                row <= 9,
                values == values_of(*board),
                text@ == "\n\t---------------------------\n"@ + rows_text(values, row as int),
            decreases 9 - row,
        {
            push_row(&mut text, board, row);
            row = row + 1;
            assert(text@ =~= "\n\t---------------------------\n"@ + rows_text(values, row as int));
        }
        text.append("\t---------------------------\n");
        text.append("\t\u{1f918}| 1 2 3 | 4 5 6 | 7 8 9 |\n\n");
        text
    }

    /// The player's board as it is shown on the terminal.
    pub fn print_unsolved(&self) -> (text: String)
        ensures
            text@ == board_text(values_of(self.board())),
    {
        SudokuAvr::print_board(&self.board_grid())
    }

    /// The solution as it is shown on the terminal.
    pub fn print_solved(&self) -> (text: String)
        ensures
            text@ == board_text(values_of(self.solution())),
    {
        SudokuAvr::print_board(&self.solution_grid())
    }
}

} // verus!
