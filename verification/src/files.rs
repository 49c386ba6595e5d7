//! Board files: a level's name on the first line, the 81 squares of the
//! board on the second. What is written to disk and read from it is text;
//! the reading and writing itself is left to the caller.

use crate::difficulty::{level_named, without_line_end, Difficulty};
use crate::errors::ContentError;
use crate::grid::{clues_of, count_true, min_count, values_of};
use crate::puzzle::{is_readable, line_text, SudokuAvr};
use crate::solver::line_cells;
use crate::text::{decimal_text, push_decimal};
use vstd::prelude::*;
use vstd::string::{StringExecFns, StringSliceAdditionalSpecFns};

verus! {

/// A file to be written: its name and the puzzle that goes into it.
#[derive(Clone, Debug)]
pub struct BoardFile {
    pub name: String,
    pub puzzle: SudokuAvr,
}

/// The name of the `index`-th generated board of a level.
pub open spec fn board_file_name(dif: Difficulty, index: nat) -> Seq<char> {
    dif.label_text() + "_"@ + decimal_text(index) + ".txt"@
}

/// The name under which a solved puzzle is exported: its level and the
/// seconds it took.
pub open spec fn export_file_name(dif: Difficulty, seconds: nat) -> Seq<char> {
    dif.label_text() + "_"@ + decimal_text(seconds) + "s.txt"@
}

/// What a board file holds: the level's name, a line feed, the board's
/// line.
pub open spec fn board_file_text(puzzle: SudokuAvr) -> Seq<char> {
    puzzle.dif.label_text() + "\n"@ + line_text(values_of(puzzle.board()))
}

/// The position of a generated board in the list: level by level, and
/// within a level by number.
pub open spec fn file_position(level: int, number: int, per_level: int) -> int {
    level * per_level + number - 1
}

/// A freshly generated puzzle of the level `dif`.
pub open spec fn is_generated(puzzle: SudokuAvr, dif: Difficulty) -> bool {
    &&& puzzle.wf()
    &&& puzzle.dif == dif
    &&& puzzle.tts == 0
    &&& 81 - puzzle.filled() == min_count(
        dif.spec_removal_target(),
        81 - count_true(clues_of(puzzle.board())),
    )
}

impl SudokuAvr {
    /// The text of the puzzle's board file.
    pub fn file_text(&self) -> (text: String)
        ensures
            text@ == board_file_text(*self),
    {
        let mut text = String::new();
        text.append(self.dif.label());
        text.append("\n");
        let line = self.to_string();
        text.append(line.as_str());
        assert(text@ =~= board_file_text(*self));
        text
    }

    /// The file to which a solved puzzle is exported, as its name and its
    /// text. A puzzle without a solving time is not exported.
    pub fn export_board(&self) -> (file: Option<(String, String)>)
        ensures
            file is Some <==> self.tts != 0,
            file matches Some((name, text)) ==> name@ == export_file_name(self.dif, self.tts as nat)
                && text@ == board_file_text(*self),
    {
        if self.tts == 0 {
            return None;
        }
        let mut name = String::new();
        name.append(self.dif.label());
        name.append("_");
        push_decimal(&mut name, self.tts);
        name.append("s.txt");
        assert(name@ =~= export_file_name(self.dif, self.tts as nat));
        Some((name, self.file_text()))
    }
}

/// Reads a puzzle from the two lines of a board file. The level's name
/// may be written in any case and may end in a line feed.
pub fn read_board_file(label: &str, line: &str) -> (read: Result<SudokuAvr, ContentError>)
    ensures
        read is Ok <==> level_named(without_line_end(label.spec_bytes())) is Some && is_readable(
            line.spec_bytes(),
        ),
        read matches Ok(puzzle) ==> puzzle.holds_line(line.spec_bytes()) && Some(puzzle.dif)
            == level_named(without_line_end(label.spec_bytes())) && puzzle.tts == 0,
        read matches Err(e) ==> e == if level_named(without_line_end(label.spec_bytes())) is None {
            ContentError::UnknownDifficulty
        } else if line_cells(line.spec_bytes()) is None {
            ContentError::MalformedBoard
        } else {
            ContentError::NoUniqueSolution
        },
{
    match Difficulty::from_label(label) {
        Some(dif) => SudokuAvr::new_from_str(line, dif),
        None => Err(ContentError::UnknownDifficulty),
    }
}

fn board_file(dif: Difficulty, index: u32) -> (file: BoardFile)
    ensures
        file.name@ == board_file_name(dif, index as nat),
        is_generated(file.puzzle, dif),
{
    let mut name = String::new();
    name.append(dif.label());
    name.append("_");
    push_decimal(&mut name, index as u64);
    name.append(".txt");
    assert(name@ =~= board_file_name(dif, index as nat));
    BoardFile { name, puzzle: SudokuAvr::new(&dif) }
}

/// Generates `num` boards of each level, the easiest level first, and
/// names the file for each: the level, an underscore, the board's number
/// within its level from 1, and `.txt`.
pub fn generate_boards(num: u32) -> (files: Vec<BoardFile>)
    ensures
        files@.len() == 4 * num,
        forall|level: int, number: int|
            0 <= level < 4 && 1 <= number <= num ==> {
                let file = #[trigger] files@[file_position(level, number, num as int)];
                &&& file.name@ == board_file_name(Difficulty::all_levels()[level], number as nat)
                &&& is_generated(file.puzzle, Difficulty::all_levels()[level])
            },
{
    let levels = Difficulty::all();
    let mut files: Vec<BoardFile> = Vec::new();
    let mut level: usize = 0;
    while level < 4
        invariant
            level <= 4,
            levels@ == Difficulty::all_levels(),
            files@.len() == level * num,
            forall|l: int, n: int|
                0 <= l < level && 1 <= n <= num ==> {
                    let file = #[trigger] files@[file_position(l, n, num as int)];
                    &&& file.name@ == board_file_name(Difficulty::all_levels()[l], n as nat)
                    &&& is_generated(file.puzzle, Difficulty::all_levels()[l])
                },
        decreases 4 - level,
    {
        let dif = levels[level];
        let mut done: u32 = 0;
        while done < num
            invariant
                done <= num,
                level < 4,
                dif == Difficulty::all_levels()[level as int],
                files@.len() == level * num + done,
                forall|l: int, n: int|
                    (0 <= l < level && 1 <= n <= num) || (l == level && 1 <= n <= done) ==> {
                        let file = #[trigger] files@[file_position(l, n, num as int)];
                        &&& file.name@ == board_file_name(Difficulty::all_levels()[l], n as nat)
                        &&& is_generated(file.puzzle, Difficulty::all_levels()[l])
                    },
            decreases num - done,
        {
            done = done + 1;
            let ghost before = files@;
            files.push(board_file(dif, done));
            proof {
                assert(level * num + (done - 1) == file_position(level as int, done as int, num as int));
                assert forall|l: int, n: int|
                    (0 <= l < level && 1 <= n <= num) || (l == level && 1 <= n <= done) implies {
                    let file = #[trigger] files@[file_position(l, n, num as int)];
                    &&& file.name@ == board_file_name(Difficulty::all_levels()[l], n as nat)
                    &&& is_generated(file.puzzle, Difficulty::all_levels()[l])
                } by {
                    if l == level && n == done {
                    } else {
                        lemma_position_bound(l, n, num as int, level as int, done as int - 1);
                        assert(files@[file_position(l, n, num as int)] == before[file_position(
                            l,
                            n,
                            num as int,
                        )]);
                    }
                }
            }
        }
        proof {
            assert((level + 1) * num == level * num + num) by (nonlinear_arith);
        }
        level = level + 1;
    }
    files
}

/// A board that was generated earlier stands earlier in the list.
proof fn lemma_position_bound(l: int, n: int, per_level: int, level: int, done: int)
    requires
        0 <= l,
        1 <= n <= per_level,
        0 <= done,
        l < level || (l == level && n <= done),
    ensures
        0 <= file_position(l, n, per_level) < level * per_level + done,
{
    assert(l * per_level >= 0) by (nonlinear_arith)
        requires
            l >= 0,
            per_level >= 0,
    ;
    if l < level {
        assert((l + 1) * per_level <= level * per_level) by (nonlinear_arith)
            requires
                l + 1 <= level,
                per_level >= 0,
        ;
        assert((l + 1) * per_level == l * per_level + per_level) by (nonlinear_arith);
    }
}

} // verus!
