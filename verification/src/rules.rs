//! What it means for 81 numbers to be a solved Sudoku, and for a solved grid
//! to be the one solution of a puzzle. Grids are sequences of 81 numbers in
//! row-major order, `0` standing for an empty square.

use vstd::prelude::*;

verus! {

/// The `i`-th square of house `h`. Houses 0..9 are the rows, 9..18 the
/// columns and 18..27 the 3x3 boxes.
pub open spec fn house_cell(h: int, i: int) -> int {
    if h < 9 {
        9 * h + i
    } else if h < 18 {
        9 * i + (h - 9)
    } else {
        27 * ((h - 18) / 3) + 3 * ((h - 18) % 3) + 9 * (i / 3) + i % 3
    }
}

/// Digit `d` stands in exactly one square of house `h`.
pub open spec fn occurs_once(s: Seq<u8>, h: int, d: int) -> bool {
    exists|i: int|
        0 <= i < 9 && #[trigger] s[house_cell(h, i)] == d && forall|j: int|
            0 <= j < 9 && j != i ==> #[trigger] s[house_cell(h, j)] != d
}

/// A full grid in which every row, column and box holds each digit once.
pub open spec fn is_solved_grid(s: Seq<u8>) -> bool {
    &&& s.len() == 81
    &&& forall|k: int| 0 <= k < 81 ==> 1 <= #[trigger] s[k] <= 9
    &&& forall|h: int, d: int| 0 <= h < 27 && 1 <= d <= 9 ==> #[trigger] occurs_once(s, h, d)
}

/// `s` is a solved grid that keeps every given number of `g`.
pub open spec fn is_solution_of(s: Seq<u8>, g: Seq<u8>) -> bool {
    &&& is_solved_grid(s)
    &&& g.len() == 81
    &&& forall|k: int| 0 <= k < 81 && g[k] != 0 ==> s[k] == #[trigger] g[k]
}

/// `s` solves `g`, and nothing else does.
pub open spec fn is_unique_solution(s: Seq<u8>, g: Seq<u8>) -> bool {
    &&& is_solution_of(s, g)
    &&& forall|t: Seq<u8>| #[trigger] is_solution_of(t, g) ==> t == s
}

pub open spec fn has_unique_solution(g: Seq<u8>) -> bool {
    exists|s: Seq<u8>| #[trigger] is_unique_solution(s, g)
}

/// A solved grid, read as a puzzle with every square given, has itself as
/// its one solution.
pub proof fn lemma_solved_grid_solves_itself(s: Seq<u8>)
    requires
        is_solved_grid(s),
    ensures
        is_unique_solution(s, s),
        has_unique_solution(s),
{
    assert forall|t: Seq<u8>| #[trigger] is_solution_of(t, s) implies t == s by {
        assert forall|k: int| 0 <= k < 81 implies t[k] == s[k] by {
            assert(s[k] != 0);
        }
        assert(t =~= s);
    }
    assert(is_unique_solution(s, s));
}

} // verus!
