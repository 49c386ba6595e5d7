//! The 9x9 board of cells and the plain operations on it.

use vstd::prelude::*;

verus! {

/// One square of a board. `value` is 0 for an empty square, else the digit.
/// `orig` marks a clue: a square that was given when the puzzle was made.
#[derive(Clone, Copy, Debug, PartialEq, Eq, Structural, PartialOrd, Ord, Hash)]
pub struct Cell {
    pub value: u8,
    pub orig: bool,
}

impl Default for Cell {
    fn default() -> (c: Cell)
        ensures
            c == (Cell { value: 0, orig: false }),
    {
        Cell { value: 0, orig: false }
    }
}

/// Nine rows of nine cells.
pub type Grid = [[Cell; 9]; 9];

/// The cell at row-major position `k`.
pub open spec fn cell_at(g: Grid, k: int) -> Cell {
    g[k / 9][k % 9]
}

/// The 81 numbers of a board in row-major order.
pub open spec fn values_of(g: Grid) -> Seq<u8> {
    Seq::new(81, |k: int| cell_at(g, k).value)
}

/// The 81 clue marks of a board in row-major order.
pub open spec fn clues_of(g: Grid) -> Seq<bool> {
    Seq::new(81, |k: int| cell_at(g, k).orig)
}

/// Which squares hold a number.
pub open spec fn filled_mask(g: Grid) -> Seq<bool> {
    Seq::new(81, |k: int| cell_at(g, k).value != 0)
}

/// Which squares hold a number that is no clue: those that may be blanked.
pub open spec fn removable_mask(g: Grid) -> Seq<bool> {
    Seq::new(81, |k: int| !cell_at(g, k).orig && cell_at(g, k).value != 0)
}

/// How many entries of `s` are true.
pub open spec fn count_true(s: Seq<bool>) -> nat
    decreases s.len(),
{
    if s.len() == 0 {
        0
    } else {
        count_true(s.drop_last()) + if s.last() {
            1nat
        } else {
            0nat
        }
    }
}

pub proof fn lemma_count_bounds(s: Seq<bool>)
    ensures
        count_true(s) <= s.len(),
    decreases s.len(),
{
    if s.len() > 0 {
        lemma_count_bounds(s.drop_last());
    }
}

/// Counting one more square of a prefix.
pub proof fn lemma_count_take_next(s: Seq<bool>, k: int)
    requires
        0 <= k < s.len(),
    ensures
        count_true(s.take(k + 1)) == count_true(s.take(k)) + if s[k] {
            1nat
        } else {
            0nat
        },
{
    assert(s.take(k + 1).drop_last() =~= s.take(k));
}

/// Changing one entry changes the count by that entry alone.
pub proof fn lemma_count_update(s: Seq<bool>, k: int, b: bool)
    requires
        0 <= k < s.len(),
    ensures
        count_true(s.update(k, b)) + (if s[k] { 1int } else { 0int })
            == count_true(s) + (if b { 1int } else { 0int }),
    decreases s.len(),
{
    let u = s.update(k, b);
    if k == s.len() - 1 {
        assert(u.drop_last() =~= s.drop_last());
    } else {
        assert(u.drop_last() =~= s.drop_last().update(k, b));
        lemma_count_update(s.drop_last(), k, b);
    }
}

/// A board with every square empty and no clue.
pub fn empty_grid() -> (g: Grid)
    ensures
        forall|k: int| 0 <= k < 81 ==> #[trigger] cell_at(g, k) == (Cell { value: 0, orig: false }),
{
    let g = [[Cell { value: 0, orig: false }; 9]; 9];
    assert forall|k: int| 0 <= k < 81 implies #[trigger] cell_at(g, k) == (Cell {
        value: 0,
        orig: false,
    }) by {
        assert(0 <= k / 9 < 9 && 0 <= k % 9 < 9);
    }
    g
}

/// Lays 81 numbers out as a board, row by row, and marks every number that
/// is not 0 as a clue.
pub fn parse_board(bytes: &[u8; 81]) -> (g: Grid)
    ensures
        values_of(g) == bytes@,
        forall|k: int| 0 <= k < 81 ==> #[trigger] clues_of(g)[k] == (bytes[k] != 0),
{
    let mut g = empty_grid();
    let mut k: usize = 0;
    while k < 81
        invariant
            k <= 81,
            forall|n: int| 0 <= n < k ==> #[trigger] cell_at(g, n) == (Cell {
                value: bytes[n],
                orig: bytes[n] != 0,
            }),
        decreases 81 - k,
    {
        let ghost before = g;
        let row = k / 9;
        let col = k % 9;
        g[row][col] = Cell { value: bytes[k], orig: bytes[k] != 0 };
        proof {
            assert forall|n: int| 0 <= n < k + 1 implies #[trigger] cell_at(g, n) == (Cell {
                value: bytes[n],
                orig: bytes[n] != 0,
            }) by {
                if n < k {
                    assert(cell_at(before, n) == (Cell { value: bytes[n], orig: bytes[n] != 0 }));
                    assert(n / 9 != row || n % 9 != col);
                }
            }
        }
        k = k + 1;
    }
    assert(values_of(g) =~= bytes@);
    g
}

/// Counts the squares that hold a number.
pub fn count_filled(board: &Grid) -> (count: u8)
    ensures
        count == count_true(filled_mask(*board)),
        count <= 81,
{
    let mut count: u8 = 0;
    let mut k: usize = 0;
    let ghost mask = filled_mask(*board);
    while k < 81
        invariant
            k <= 81,
            mask == filled_mask(*board),
            count == count_true(mask.take(k as int)),
            count <= k,
        decreases 81 - k,
    {
        proof {
            lemma_count_take_next(mask, k as int);
        }
        if board[k / 9][k % 9].value != 0 {
            count = count + 1;
        }
        k = k + 1;
    }
    assert(mask.take(81) =~= mask);
    count
}

/// Counts the clue squares.
pub fn count_clues(board: &Grid) -> (count: u8)
    ensures
        count == count_true(clues_of(*board)),
        count <= 81,
{
    let mut count: u8 = 0;
    let mut k: usize = 0;
    let ghost mask = clues_of(*board);
    while k < 81
        invariant
            k <= 81,
            mask == clues_of(*board),
            count == count_true(mask.take(k as int)),
            count <= k,
        decreases 81 - k,
    {
        proof {
            lemma_count_take_next(mask, k as int);
        }
        if board[k / 9][k % 9].orig {
            count = count + 1;
        }
        k = k + 1;
    }
    assert(mask.take(81) =~= mask);
    count
}

/// Fills every square that is no clue with the number the solution has
/// there. Clues are left as they are.
pub fn solve_board(board: &mut Grid, solution: &Grid)
    ensures
        clues_of(*final(board)) == clues_of(*old(board)),
        forall|k: int|
            0 <= k < 81 ==> #[trigger] values_of(*final(board))[k] == if clues_of(*old(board))[k] {
                values_of(*old(board))[k]
            } else {
                values_of(*solution)[k]
            },
{
    let mut k: usize = 0;
    while k < 81
        invariant
            k <= 81,
            forall|n: int| 0 <= n < 81 ==> (#[trigger] cell_at(*board, n)).orig == cell_at(*old(board), n).orig,
            forall|n: int| k <= n < 81 ==> #[trigger] cell_at(*board, n) == cell_at(*old(board), n),
            forall|n: int|
                0 <= n < k ==> (#[trigger] cell_at(*board, n)).value == if cell_at(*old(board), n).orig {
                    cell_at(*old(board), n).value
                } else {
                    cell_at(*solution, n).value
                },
        decreases 81 - k,
    {
        let ghost before = *board;
        let row = k / 9;
        let col = k % 9;
        let cell = board[row][col];
        let value = if cell.orig {
            cell.value
        } else {
            solution[row][col].value
        };
        board[row][col] = Cell { value, orig: cell.orig };
        proof {
            assert forall|n: int| 0 <= n < 81 && n != k implies #[trigger] cell_at(*board, n)
                == cell_at(before, n) by {
                assert(n / 9 != row || n % 9 != col);
            }
            assert(cell_at(*board, k as int).orig == cell_at(before, k as int).orig);
        }
        k = k + 1;
    }
    assert(clues_of(*board) =~= clues_of(*old(board)));
}

/// The row-major position of the square that has exactly `n` removable
/// squares before it and is removable itself.
pub fn nth_removable(board: &Grid, n: u8) -> (k: usize)
    requires
        n < count_true(removable_mask(*board)),
    ensures
        k < 81,
        removable_mask(*board)[k as int],
        count_true(removable_mask(*board).take(k as int)) == n,
{
    let ghost mask = removable_mask(*board);
    let mut seen: u8 = 0;
    let mut k: usize = 0;
    loop
        invariant
            k <= 81,
            mask == removable_mask(*board),
            seen == count_true(mask.take(k as int)),
            seen <= n,
            seen <= k,
            n < count_true(mask),
        decreases 81 - k,
    {
        proof {
            if k == 81 {
                assert(mask.take(81) =~= mask);
            } else {
                lemma_count_take_next(mask, k as int);
            }
        }
        let cell = board[k / 9][k % 9];
        if !cell.orig && cell.value != 0 {
            if seen == n {
                return k;
            }
            seen = seen + 1;
        }
        k = k + 1;
    }
}

/// Which squares held a number in `before` and are empty in `after`.
pub open spec fn blanked_mask(before: Grid, after: Grid) -> Seq<bool> {
    Seq::new(81, |k: int| cell_at(before, k).value != 0 && cell_at(after, k).value == 0)
}

/// Tries to empty the square at `row` and `col`. A clue is skipped, and so
/// is a square that is empty already; any other square is emptied.
pub fn remove_at(board: &mut Grid, row: usize, col: usize) -> (removed: bool)
    requires
        row < 9,
        col < 9,
    ensures
        removed == removable_mask(*old(board))[9 * row + col],
        forall|n: int|
            0 <= n < 81 ==> #[trigger] cell_at(*final(board), n) == if removed && n == 9 * row + col {
                Cell { value: 0, orig: false }
            } else {
                cell_at(*old(board), n)
            },
        removed ==> removable_mask(*final(board)) == removable_mask(*old(board)).update(
            9 * row + col,
            false,
        ) && filled_mask(*final(board)) == filled_mask(*old(board)).update(9 * row + col, false),
        clues_of(*final(board)) == clues_of(*old(board)),
{
    let cell = board[row][col];
    assert(cell == cell_at(*board, 9 * row + col));
    if cell.orig || cell.value == 0 {
        return false;
    }
    board[row][col].value = 0;
    proof {
        let k = 9 * row + col;
        assert forall|n: int| 0 <= n < 81 && n != k implies #[trigger] cell_at(*board, n) == cell_at(
            *old(board),
            n,
        ) by {
            assert(n / 9 != row || n % 9 != col);
        }
        assert(removable_mask(*board) =~= removable_mask(*old(board)).update(k, false));
        assert(filled_mask(*board) =~= filled_mask(*old(board)).update(k, false));
        assert(clues_of(*board) =~= clues_of(*old(board)));
    }
    true
}

/// Counts the squares that may be blanked.
pub fn count_removable(board: &Grid) -> (count: u8)
    ensures
        count == count_true(removable_mask(*board)),
        count <= 81,
{
    let mut count: u8 = 0;
    let mut k: usize = 0;
    let ghost mask = removable_mask(*board);
    while k < 81
        invariant
            k <= 81,
            mask == removable_mask(*board),
            count == count_true(mask.take(k as int)),
            count <= k,
        decreases 81 - k,
    {
        proof {
            lemma_count_take_next(mask, k as int);
        }
        let cell = board[k / 9][k % 9];
        if !cell.orig && cell.value != 0 {
            count = count + 1;
        }
        k = k + 1;
    }
    assert(mask.take(81) =~= mask);
    count
}

/// The smaller of two counts.
pub open spec fn min_count(a: int, b: int) -> int {
    if a < b {
        a
    } else {
        b
    }
}

/// Empties squares picked at random until `no_cells` are gone or none is
/// left that may be emptied. Clues and empty squares are never picked:
/// each pick falls, with equal chance, on one of the squares that may still
/// be emptied, as a pick among all 81 squares does that is repeated until
/// it hits such a square.
pub fn remove_cells(board: &mut Grid, no_cells: u8)
    ensures
        clues_of(*final(board)) == clues_of(*old(board)),
        forall|k: int|
            0 <= k < 81 ==> #[trigger] values_of(*final(board))[k] == values_of(*old(board))[k] || (
            removable_mask(*old(board))[k] && values_of(*final(board))[k] == 0),
        count_true(blanked_mask(*old(board), *final(board))) == min_count(
            no_cells as int,
            count_true(removable_mask(*old(board))) as int,
        ),
        count_true(filled_mask(*final(board))) == count_true(filled_mask(*old(board))) - min_count(
            no_cells as int,
            count_true(removable_mask(*old(board))) as int,
        ),
{
    let total = count_removable(board);
    let goal = if no_cells < total {
        no_cells
    } else {
        total
    };
    let mut removed: u8 = 0;
    proof {
        assert(blanked_mask(*board, *board) =~= Seq::new(81, |k: int| false));
        lemma_count_all_false(81);
    }
    while removed < goal
        invariant
            removed <= goal <= total,
            total == count_true(removable_mask(*old(board))),
            count_true(removable_mask(*board)) == total - removed,
            count_true(filled_mask(*board)) == count_true(filled_mask(*old(board))) - removed,
            count_true(blanked_mask(*old(board), *board)) == removed,
            clues_of(*board) == clues_of(*old(board)),
            forall|k: int|
                0 <= k < 81 ==> #[trigger] cell_at(*board, k) == cell_at(*old(board), k) || (
                removable_mask(*old(board))[k] && cell_at(*board, k) == (Cell {
                    value: 0,
                    orig: false,
                })),
        decreases goal - removed,
    {
        let ghost before = *board;
        let pick = crate::solver::random_below(total - removed);
        let k = nth_removable(board, pick);
        let hit = remove_at(board, k / 9, k % 9);
        proof {
            assert(hit);
            lemma_count_update(removable_mask(before), k as int, false);
            lemma_count_update(filled_mask(before), k as int, false);
            assert(cell_at(before, k as int) == cell_at(*old(board), k as int));
            assert(blanked_mask(*old(board), *board) =~= blanked_mask(*old(board), before).update(
                k as int,
                true,
            ));
            lemma_count_update(blanked_mask(*old(board), before), k as int, true);
        }
        removed = removed + 1;
    }
}

/// A mask without a mark counts nothing.
pub proof fn lemma_count_all_false(n: nat)
    ensures
        count_true(Seq::new(n, |k: int| false)) == 0,
    decreases n,
{
    if n > 0 {
        assert(Seq::new(n, |k: int| false).drop_last() =~= Seq::new((n - 1) as nat, |k: int| false));
        lemma_count_all_false((n - 1) as nat);
    }
}

} // verus!
