//! A tournament: every board of a team's set is played once, the easiest
//! first, and the time and the outcome of each round are kept.

use crate::difficulty::Difficulty;
use crate::order::{is_ordered, sort_boards};
use crate::puzzle::SudokuAvr;
use crate::round::{Round, Stage, Step, Verdict};
use vstd::prelude::*;
use vstd::string::StringExecFns;

verus! {

/// How one round of a tournament went.
#[derive(Clone, Copy, Debug, PartialEq, Eq, Structural, Hash)]
pub struct RoundResult {
    /// The board's place in the order of play, from 0.
    pub index: usize,
    /// The board's level.
    pub dif: Difficulty,
    /// The time it took the player to solve the board.
    pub elapsed: u64,
    /// Whether the board that came back was the solution.
    pub valid: bool,
}

/// The boards of a tournament in the order of play, and the results of
/// the rounds played so far.
#[derive(Clone, Debug)]
pub struct Tournament {
    pub boards: Vec<SudokuAvr>,
    pub results: Vec<RoundResult>,
    /// The time of all rounds played so far together.
    pub total: u64,
}

/// The sum of two times, held at the largest time there is.
pub open spec fn capped_sum(a: u64, b: u64) -> u64 {
    if a + b > u64::MAX {
        u64::MAX
    } else {
        (a + b) as u64
    }
}

/// What a round that has ended counts for in a tournament: the time it
/// took and whether the board was solved. A round that finished counts
/// with its verdict. A round that failed while the board was read back
/// counts as not solved. A round that failed before that counts for
/// nothing: the tournament cannot go on.
pub open spec fn outcome_of(round: Round) -> Option<(u64, bool)> {
    if round.step == Step::Finished {
        Some((round.elapsed, round.verdict == Verdict::Verified))
    } else if round.step == Step::Failed && round.stage == Stage::Readback {
        Some((round.elapsed, false))
    } else {
        None
    }
}

/// The head of a team's report.
pub open spec fn header_text(team: Seq<char>) -> Seq<char> {
    "Team: "@ + team + "\n"@ + "-------------------\n"@
}

/// The lines of a team's report for one round. How the time is written
/// is the caller's choice.
pub open spec fn block_text(result: RoundResult, time: Seq<char>) -> Seq<char> {
    "Board: "@ + crate::text::decimal_text(result.index as nat) + "\nDifficulty: "@
        + result.dif.label_text() + "\nTime to solve: "@ + time + "\nValid Solution: "@ + (
    if result.valid {
        "true"@
    } else {
        "false"@
    }) + "\n"@ + "-------------------\n"@
}

/// The foot of a team's report.
pub open spec fn footer_text(total: Seq<char>) -> Seq<char> {
    "Total Time: "@ + total + " seconds\n"@ + "Finished Playing!\n"@
}

/// What a round that has ended counts for in a tournament.
pub fn round_outcome(round: &Round) -> (outcome: Option<(u64, bool)>)
    ensures
        outcome == outcome_of(*round),
{
    if round.step == Step::Finished {
        Some((round.elapsed, round.verdict == Verdict::Verified))
    } else if round.step == Step::Failed && round.stage == Stage::Readback {
        Some((round.elapsed, false))
    } else {
        None
    }
}

/// The head of a team's report.
pub fn report_header(team: &str) -> (text: String)
    ensures
        text@ == header_text(team@),
{
    let mut text = String::new();
    text.append("Team: ");
    text.append(team);
    text.append("\n");
    text.append("-------------------\n");
    assert(text@ =~= header_text(team@));
    text
}

/// The lines of a team's report for one round.
pub fn report_block(result: &RoundResult, time: &str) -> (text: String)
    ensures
        text@ == block_text(*result, time@),
{
    let mut text = String::new();
    text.append("Board: ");
    crate::text::push_decimal(&mut text, result.index as u64);
    text.append("\nDifficulty: ");
    text.append(result.dif.label());
    text.append("\nTime to solve: ");
    text.append(time);
    text.append("\nValid Solution: ");
    if result.valid {
        text.append("true");
    } else {
        text.append("false");
    }
    text.append("\n");
    text.append("-------------------\n");
    assert(text@ =~= block_text(*result, time@));
    text
}

/// The foot of a team's report.
pub fn report_footer(total: &str) -> (text: String)
    ensures
        text@ == footer_text(total@),
{
    let mut text = String::new();
    text.append("Total Time: ");
    text.append(total);
    text.append(" seconds\n");
    text.append("Finished Playing!\n");
    assert(text@ =~= footer_text(total@));
    text
}

impl Tournament {
    /// A tournament over these boards. They are played in order of level,
    /// the easiest first.
    pub fn new(boards: &Vec<SudokuAvr>) -> (tournament: Tournament)
        ensures
            is_ordered(tournament.boards@),
            tournament.boards@.to_multiset() == boards@.to_multiset(),
            forall|i: int, j: int|
                0 <= i < j < tournament.boards@.len() ==> (
                #[trigger] tournament.boards@[i]).dif.spec_rank() <= (
                #[trigger] tournament.boards@[j]).dif.spec_rank(),
            tournament.results@.len() == 0,
            tournament.total == 0,
    {
        Tournament { boards: sort_boards(boards), results: Vec::new(), total: 0 }
    }

    /// The board to play next; none when every board has been played.
    pub fn next_board(&self) -> (board: Option<SudokuAvr>)
        ensures
            board == if self.results@.len() < self.boards@.len() {
                Some(self.boards@[self.results@.len() as int])
            } else {
                None
            },
    {
        if self.results.len() < self.boards.len() {
            Some(self.boards[self.results.len()])
        } else {
            None
        }
    }

    /// Writes down how the round on the next board went, and adds its time
    /// to the total. Where no board is left to play, nothing is written
    /// down.
    pub fn record(&mut self, elapsed: u64, valid: bool) -> (written: Option<RoundResult>)
        ensures
            final(self).boards == old(self).boards,
            written is Some <==> old(self).results@.len() < old(self).boards@.len(),
            written matches Some(result) ==> {
                &&& result == (RoundResult {
                    index: old(self).results@.len() as usize,
                    dif: old(self).boards@[old(self).results@.len() as int].dif,
                    elapsed,
                    valid,
                })
                &&& final(self).results@ == old(self).results@.push(result)
                &&& final(self).total == capped_sum(old(self).total, elapsed)
            },
            written is None ==> *final(self) == *old(self),
    {
        let index = self.results.len();
        if index >= self.boards.len() {
            return None;
        }
        let result = RoundResult { index, dif: self.boards[index].dif, elapsed, valid };
        self.results.push(result);
        self.total = if self.total > u64::MAX - elapsed {
            u64::MAX
        } else {
            self.total + elapsed
        };
        Some(result)
    }
}

} // verus!
