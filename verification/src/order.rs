//! The order in which puzzles are played: by level first, easiest first,
//! and within a level by board, solution, count of filled squares and
//! solving time, so that the order never depends on how the puzzles came in.

use crate::grid::{cell_at, Cell, Grid};
use crate::puzzle::SudokuAvr;
use vstd::prelude::*;

verus! {

/// A cell as one number: cells compare by value first, then by clue mark,
/// an unmarked cell before a marked one.
pub open spec fn cell_code(c: Cell) -> u64 {
    (2 * c.value + if c.orig {
        1int
    } else {
        0int
    }) as u64
}

/// The cells of a board as numbers, row by row.
pub open spec fn grid_codes(g: Grid) -> Seq<u64> {
    Seq::new(81, |k: int| cell_code(cell_at(g, k)))
}

/// Everything a puzzle holds, as a row of numbers: the level's rank, the
/// board, the solution, the count of filled squares, the solving time.
pub open spec fn sort_key(p: SudokuAvr) -> Seq<u64> {
    seq![p.dif.spec_rank() as u64] + grid_codes(p.board()) + grid_codes(p.solution()) + seq![
        p.filled() as u64,
        p.tts,
    ]
}

/// Compares two rows of numbers of one length by the first place in which
/// they differ: negative if `a` is smaller there, positive if `b` is, 0 if
/// they differ nowhere.
pub open spec fn lex_sign(a: Seq<u64>, b: Seq<u64>) -> int
    decreases a.len(),
{
    if a.len() == 0 || b.len() == 0 {
        0
    } else if a[0] < b[0] {
        -1
    } else if a[0] > b[0] {
        1
    } else {
        lex_sign(a.drop_first(), b.drop_first())
    }
}

/// `a` is played no later than `b`.
pub open spec fn precedes(a: SudokuAvr, b: SudokuAvr) -> bool {
    lex_sign(sort_key(a), sort_key(b)) <= 0
}

/// Every puzzle of the list is played no later than those behind it.
pub open spec fn is_ordered(s: Seq<SudokuAvr>) -> bool {
    forall|i: int, j: int| 0 <= i < j < s.len() ==> precedes(#[trigger] s[i], #[trigger] s[j])
}

/// Turning a comparison round turns its result round.
pub proof fn lemma_lex_sign_flips(a: Seq<u64>, b: Seq<u64>)
    requires
        a.len() == b.len(),
    ensures
        lex_sign(b, a) == -lex_sign(a, b),
    decreases a.len(),
{
    if a.len() > 0 && a[0] == b[0] {
        lemma_lex_sign_flips(a.drop_first(), b.drop_first());
    }
}

/// What comes no later than something that comes no later than a third
/// comes no later than the third.
pub proof fn lemma_lex_sign_chains(a: Seq<u64>, b: Seq<u64>, c: Seq<u64>)
    requires
        a.len() == b.len(),
        b.len() == c.len(),
        lex_sign(a, b) <= 0,
        lex_sign(b, c) <= 0,
    ensures
        lex_sign(a, c) <= 0,
    decreases a.len(),
{
    if a.len() > 0 && a[0] == b[0] && b[0] == c[0] {
        lemma_lex_sign_chains(a.drop_first(), b.drop_first(), c.drop_first());
    }
}

/// Rows that agree up to a place compare as what is left of them does.
pub proof fn lemma_lex_sign_skips(a: Seq<u64>, b: Seq<u64>, n: int)
    requires
        a.len() == b.len(),
        0 <= n <= a.len(),
        forall|j: int| 0 <= j < n ==> a[j] == b[j],
    ensures
        lex_sign(a, b) == lex_sign(a.skip(n), b.skip(n)),
    decreases n,
{
    if n > 0 {
        lemma_lex_sign_skips(a.drop_first(), b.drop_first(), n - 1);
        assert(a.drop_first().skip(n - 1) =~= a.skip(n));
        assert(b.drop_first().skip(n - 1) =~= b.skip(n));
    } else {
        assert(a.skip(0) =~= a);
        assert(b.skip(0) =~= b);
    }
}

/// Of two puzzles one is played no later than the other.
pub proof fn lemma_precedes_is_total(a: SudokuAvr, b: SudokuAvr)
    ensures
        precedes(a, b) || precedes(b, a),
{
    lemma_lex_sign_flips(sort_key(a), sort_key(b));
}

pub proof fn lemma_precedes_chains(a: SudokuAvr, b: SudokuAvr, c: SudokuAvr)
    requires
        precedes(a, b),
        precedes(b, c),
    ensures
        precedes(a, c),
{
    lemma_lex_sign_chains(sort_key(a), sort_key(b), sort_key(c));
}

/// A puzzle that is played no later than another is of no higher level.
pub proof fn lemma_precedes_by_level(a: SudokuAvr, b: SudokuAvr)
    requires
        precedes(a, b),
    ensures
        a.dif.spec_rank() <= b.dif.spec_rank(),
{
    let ka = sort_key(a);
    let kb = sort_key(b);
    assert(ka[0] == a.dif.spec_rank() as u64);
    assert(kb[0] == b.dif.spec_rank() as u64);
    if ka[0] == kb[0] {
    } else {
        assert(ka[0] < kb[0]);
    }
}

/// A puzzle of a lower level is played before one of a higher level.
pub proof fn lemma_lower_level_precedes(a: SudokuAvr, b: SudokuAvr)
    requires
        a.dif.spec_rank() < b.dif.spec_rank(),
    ensures
        precedes(a, b),
        !precedes(b, a),
{
    let ka = sort_key(a);
    let kb = sort_key(b);
    assert(ka[0] == a.dif.spec_rank() as u64);
    assert(kb[0] == b.dif.spec_rank() as u64);
}

fn cell_number(c: Cell) -> (code: u64)
    ensures
        code == cell_code(c),
{
    let mark: u64 = if c.orig {
        1
    } else {
        0
    };
    2 * (c.value as u64) + mark
}

fn push_grid(key: &mut Vec<u64>, g: &Grid)
    ensures
        final(key)@ == old(key)@ + grid_codes(*g),
{
    let mut k: usize = 0;
    while k < 81
        invariant
            k <= 81,
            key@ == old(key)@ + grid_codes(*g).take(k as int),
        decreases 81 - k,
    {
        key.push(cell_number(g[k / 9][k % 9]));
        assert(key@ =~= old(key)@ + grid_codes(*g).take(k + 1));
        k = k + 1;
    }
    assert(grid_codes(*g).take(81) =~= grid_codes(*g));
}

/// Writes out the numbers by which a puzzle is ordered.
pub fn key_of(p: &SudokuAvr) -> (key: Vec<u64>)
    ensures
        key@ == sort_key(*p),
        key@.len() == 165,
{
    let mut key: Vec<u64> = Vec::new();
    key.push(p.dif.rank() as u64);
    push_grid(&mut key, &p.board_grid());
    push_grid(&mut key, &p.solution_grid());
    key.push(p.filled_count() as u64);
    key.push(p.tts);
    assert(key@ =~= sort_key(*p));
    key
}

/// Whether `a` is played no later than `b`.
pub fn comes_first(a: &SudokuAvr, b: &SudokuAvr) -> (first: bool)
    ensures
        first == precedes(*a, *b),
{
    let ka = key_of(a);
    let kb = key_of(b);
    let mut i: usize = 0;
    while i < 165
        invariant
            i <= 165,
            ka@.len() == 165,
            kb@.len() == 165,
            ka@ == sort_key(*a),
            kb@ == sort_key(*b),
            forall|j: int| 0 <= j < i ==> ka@[j] == kb@[j],
        decreases 165 - i,
    {
        if ka[i] != kb[i] {
            proof {
                lemma_lex_sign_skips(ka@, kb@, i as int);
                assert(ka@.skip(i as int)[0] == ka@[i as int]);
                assert(kb@.skip(i as int)[0] == kb@[i as int]);
            }
            return ka[i] < kb[i];
        }
        i = i + 1;
    }
    proof {
        lemma_lex_sign_skips(ka@, kb@, 165);
    }
    true
}

/// Puts the puzzles into the order in which they are played.
pub fn sort_boards(boards: &Vec<SudokuAvr>) -> (sorted: Vec<SudokuAvr>)
    ensures
        is_ordered(sorted@),
        sorted@.to_multiset() == boards@.to_multiset(),
        sorted@.len() == boards@.len(),
        forall|i: int, j: int|
            0 <= i < j < sorted@.len() ==> (#[trigger] sorted@[i]).dif.spec_rank() <= (
            #[trigger] sorted@[j]).dif.spec_rank(),
{
    let mut sorted: Vec<SudokuAvr> = Vec::new();
    let mut n: usize = 0;
    assert(sorted@ =~= boards@.take(0));
    while n < boards.len()
        invariant
            n <= boards.len(),
            is_ordered(sorted@),
            sorted@.to_multiset() == boards@.take(n as int).to_multiset(),
            sorted@.len() == n,
        decreases boards.len() - n,
    {
        let next = boards[n];
        let mut at: usize = 0;
        while at < sorted.len() && comes_first(&sorted[at], &next)
            invariant
                at <= sorted.len(),
                forall|j: int| 0 <= j < at ==> precedes(#[trigger] sorted@[j], next),
            decreases sorted.len() - at,
        {
            at = at + 1;
        }
        let ghost before = sorted@;
        sorted.insert(at, next);
        proof {
            vstd::seq_lib::to_multiset_insert(before, at as int, next);
            assert(boards@.take(n + 1) =~= boards@.take(n as int).push(next));
            vstd::seq_lib::to_multiset_build(boards@.take(n as int), next);
            assert forall|i: int, j: int| 0 <= i < j < sorted@.len() implies precedes(
                #[trigger] sorted@[i],
                #[trigger] sorted@[j],
            ) by {
                if j < at {
                    assert(sorted@[i] == before[i] && sorted@[j] == before[j]);
                } else if j == at {
                    assert(sorted@[i] == before[i]);
                } else if i == at {
                    assert(sorted@[j] == before[j - 1]);
                    lemma_precedes_is_total(before[at as int], next);
                    if j - 1 > at {
                        assert(precedes(before[at as int], before[j - 1]));
                        lemma_precedes_chains(next, before[at as int], before[j - 1]);
                    }
                } else if i < at {
                    assert(sorted@[i] == before[i] && sorted@[j] == before[j - 1]);
                } else {
                    assert(sorted@[i] == before[i - 1] && sorted@[j] == before[j - 1]);
                }
            }
        }
        n = n + 1;
    }
    proof {
        assert(boards@.take(boards@.len() as int) =~= boards@);
        assert forall|i: int, j: int| 0 <= i < j < sorted@.len() implies (#[trigger] sorted@[i]).dif.spec_rank()
            <= (#[trigger] sorted@[j]).dif.spec_rank() by {
            lemma_precedes_by_level(sorted@[i], sorted@[j]);
        }
    }
    sorted
}

} // verus!
