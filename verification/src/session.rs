//! The interactive shell: how a line that the operator typed is read as a
//! command, and which commands the state of the session allows.

use crate::errors::ContentError;
use crate::wire::same_bytes;
use vstd::prelude::*;
use vstd::string::StringSliceAdditionalSpecFns;

verus! {

/// `at`
pub const WORD_AT: [u8; 2] = [0x61, 0x74];

/// `clear`
pub const WORD_CLEAR: [u8; 5] = [0x63, 0x6c, 0x65, 0x61, 0x72];

/// `break`
pub const WORD_BREAK: [u8; 5] = [0x62, 0x72, 0x65, 0x61, 0x6b];

/// `play`
pub const WORD_PLAY: [u8; 4] = [0x70, 0x6c, 0x61, 0x79];

/// `exit`
pub const WORD_EXIT: [u8; 4] = [0x65, 0x78, 0x69, 0x74];

/// `download`
pub const WORD_DOWNLOAD: [u8; 8] = [0x64, 0x6f, 0x77, 0x6e, 0x6c, 0x6f, 0x61, 0x64];

/// `fill`
pub const WORD_FILL: [u8; 4] = [0x66, 0x69, 0x6c, 0x6c];

/// `debug`
pub const WORD_DEBUG: [u8; 5] = [0x64, 0x65, 0x62, 0x75, 0x67];

/// `solution`
pub const WORD_SOLUTION: [u8; 8] = [0x73, 0x6f, 0x6c, 0x75, 0x74, 0x69, 0x6f, 0x6e];

/// `unsolved`
pub const WORD_UNSOLVED: [u8; 8] = [0x75, 0x6e, 0x73, 0x6f, 0x6c, 0x76, 0x65, 0x64];

/// `help`
pub const WORD_HELP: [u8; 4] = [0x68, 0x65, 0x6c, 0x70];

/// `?`
pub const WORD_QUERY: [u8; 1] = [0x3f];

/// `export`
pub const WORD_EXPORT: [u8; 6] = [0x65, 0x78, 0x70, 0x6f, 0x72, 0x74];

/// What the operator asked for.
#[derive(Clone, Copy, Debug, PartialEq, Eq, Structural, Hash)]
pub enum Command {
    /// An empty line: nothing to do.
    Nothing,
    At,
    Clear,
    Break,
    Play,
    Exit,
    Download,
    Solution,
    Unsolved,
    Help,
    Export,
    /// Set the square in column `x` and row `y` to `value`.
    Fill { x: u8, y: u8, value: u8 },
    /// Ask for the square in column `x` and row `y`.
    Debug { x: u8, y: u8 },
}

/// What a session remembers between commands.
#[derive(Clone, Copy, Debug, PartialEq, Eq, Structural, Hash)]
pub struct Session {
    /// A board has been downloaded and not been cleared since.
    pub downloaded: bool,
}

/// The bytes that part the words of a line: space, tab, line feed, form
/// feed, carriage return.
pub open spec fn is_space(b: u8) -> bool {
    b == 0x20 || b == 0x09 || b == 0x0a || b == 0x0c || b == 0x0d
}

/// The words of a line: its longest runs of bytes that are no spaces, from
/// left to right.
pub open spec fn words_of(line: Seq<u8>) -> Seq<Seq<u8>>
    decreases line.len(),
{
    if line.len() == 0 {
        Seq::empty()
    } else {
        let before = words_of(line.drop_last());
        if is_space(line.last()) {
            before
        } else if line.len() >= 2 && !is_space(line[line.len() - 2]) {
            before.drop_last().push(before.last().push(line.last()))
        } else {
            before.push(seq![line.last()])
        }
    }
}

/// The number that a run of decimal digits stands for.
pub open spec fn decimal_value(digits: Seq<u8>) -> nat
    decreases digits.len(),
{
    if digits.len() == 0 {
        0
    } else {
        10 * decimal_value(digits.drop_last()) + (digits.last() - 0x30) as nat
    }
}

pub open spec fn all_digits(text: Seq<u8>) -> bool {
    forall|i: int| 0 <= i < text.len() ==> 0x30 <= #[trigger] text[i] <= 0x39
}

/// A word without the plus sign in front of it, if it has one.
pub open spec fn unsigned_part(word: Seq<u8>) -> Seq<u8> {
    if word.len() > 0 && word[0] == 0x2b {
        word.drop_first()
    } else {
        word
    }
}

/// The number from 1 to 9 that a word stands for: digits, with or without
/// a plus sign before them, whose value lies in that range.
pub open spec fn argument_of(word: Seq<u8>) -> Option<u8> {
    let digits = unsigned_part(word);
    if digits.len() > 0 && all_digits(digits) && 1 <= decimal_value(digits) <= 9 {
        Some(decimal_value(digits) as u8)
    } else {
        None
    }
}

/// The command that the words of a line give, in a session that has or
/// has not downloaded a board.
pub open spec fn command_of(words: Seq<Seq<u8>>, downloaded: bool) -> Result<
    Command,
    ContentError,
> {
    if words.len() == 0 {
        Ok(Command::Nothing)
    } else if words[0] == WORD_AT@ {
        Ok(Command::At)
    } else if words[0] == WORD_CLEAR@ {
        Ok(Command::Clear)
    } else if words[0] == WORD_BREAK@ {
        Ok(Command::Break)
    } else if words[0] == WORD_PLAY@ {
        if downloaded {
            Ok(Command::Play)
        } else {
            Err(ContentError::NoBoardDownloaded)
        }
    } else if words[0] == WORD_EXIT@ {
        Ok(Command::Exit)
    } else if words[0] == WORD_DOWNLOAD@ {
        if downloaded {
            Err(ContentError::GameRunning)
        } else {
            Ok(Command::Download)
        }
    } else if words[0] == WORD_FILL@ {
        if words.len() > 4 {
            Err(ContentError::UnknownCommand)
        } else if words.len() < 4 {
            Err(ContentError::BadArguments)
        } else {
            match (argument_of(words[1]), argument_of(words[2]), argument_of(words[3])) {
                (Some(x), Some(y), Some(value)) => Ok(Command::Fill { x, y, value }),
                _ => Err(ContentError::OutOfRange),
            }
        }
    } else if words[0] == WORD_DEBUG@ {
        if words.len() > 3 {
            Err(ContentError::UnknownCommand)
        } else if words.len() < 3 {
            Err(ContentError::BadArguments)
        } else {
            match (argument_of(words[1]), argument_of(words[2])) {
                (Some(x), Some(y)) => Ok(Command::Debug { x, y }),
                _ => Err(ContentError::OutOfRange),
            }
        }
    } else if words[0] == WORD_SOLUTION@ {
        Ok(Command::Solution)
    } else if words[0] == WORD_UNSOLVED@ {
        Ok(Command::Unsolved)
    } else if words[0] == WORD_HELP@ || words[0] == WORD_QUERY@ {
        Ok(Command::Help)
    } else if words[0] == WORD_EXPORT@ {
        Ok(Command::Export)
    } else {
        Err(ContentError::UnknownCommand)
    }
}

/// The views of a list of words.
pub open spec fn views_of(words: Seq<Vec<u8>>) -> Seq<Seq<u8>> {
    words.map_values(|w: Vec<u8>| w@)
}

/// Cuts a line into its words.
pub fn split_words(line: &[u8]) -> (words: Vec<Vec<u8>>)
    ensures
        views_of(words@) == words_of(line@),
{
    let mut words: Vec<Vec<u8>> = Vec::new();
    let mut current: Vec<u8> = Vec::new();
    let mut i: usize = 0;
    while i < line.len()
        invariant
            i <= line.len(),
            current@.len() > 0 <==> (i > 0 && !is_space(line@[i - 1])),
            words_of(line@.take(i as int)) == if current@.len() > 0 {
                views_of(words@).push(current@)
            } else {
                views_of(words@)
            },
        decreases line.len() - i,
    {
        let b = line[i];
        let ghost prefix = line@.take(i as int);
        let ghost next = line@.take(i + 1);
        proof {
            assert(next.drop_last() =~= prefix);
            assert(next.last() == b);
            if i > 0 {
                assert(next[next.len() - 2] == line@[i - 1]);
            }
        }
        if b == 0x20 || b == 0x09 || b == 0x0a || b == 0x0c || b == 0x0d {
            if current.len() > 0 {
                let ghost before = views_of(words@);
                words.push(current);
                current = Vec::new();
                assert(views_of(words@) =~= before.push(words@.last()@));
            }
        } else {
            let ghost word = current@;
            current.push(b);
            proof {
                if word.len() > 0 {
                    let before = views_of(words@).push(word);
                    assert(before.drop_last() =~= views_of(words@));
                    assert(before.last() == word);
                } else {
                    assert(current@ =~= seq![b]);
                }
            }
        }
        i = i + 1;
    }
    assert(line@.take(line@.len() as int) =~= line@);
    if current.len() > 0 {
        let ghost before = views_of(words@);
        words.push(current);
        assert(views_of(words@) =~= before.push(words@.last()@));
    }
    words
}

proof fn lemma_decimal_next(digits: Seq<u8>, i: int)
    requires
        0 <= i < digits.len(),
    ensures
        decimal_value(digits.take(i + 1)) == 10 * decimal_value(digits.take(i)) + (digits[i]
            - 0x30) as nat,
{
    assert(digits.take(i + 1).drop_last() =~= digits.take(i));
}

/// Reads a word as a number from 1 to 9.
pub fn parse_argument(word: &[u8]) -> (number: Option<u8>)
    ensures
        number == argument_of(word@),
{
    let start: usize = if word.len() > 0 && word[0] == 0x2b {
        1
    } else {
        0
    };
    let ghost digits = unsigned_part(word@);
    assert(digits =~= word@.skip(start as int));
    if start == word.len() {
        return None;
    }
    // The value read so far, held at 10 once it has passed 9.
    let mut value: u8 = 0;
    let mut i: usize = start;
    while i < word.len()
        invariant
            start <= i <= word.len(),
            digits == word@.skip(start as int),
            digits == unsigned_part(word@),
            all_digits(digits.take(i - start)),
            value <= 10,
            value == if decimal_value(digits.take(i - start)) < 10 {
                decimal_value(digits.take(i - start))
            } else {
                10
            },
        decreases word.len() - i,
    {
        let b = word[i];
        assert(digits[i - start] == b);
        if b < 0x30 || b > 0x39 {
            return None;
        }
        proof {
            lemma_decimal_next(digits, i - start);
            assert forall|j: int| 0 <= j < i + 1 - start implies 0x30 <= #[trigger] digits.take(
                i + 1 - start,
            )[j] <= 0x39 by {
                if j < i - start {
                    assert(digits.take(i - start)[j] == digits[j]);
                }
            }
        }
        let next = value * 10 + (b - 0x30);
        value = if next < 10 {
            next
        } else {
            10
        };
        i = i + 1;
    }
    assert(digits.take(digits.len() as int) =~= digits);
    if 1 <= value && value <= 9 {
        Some(value)
    } else {
        None
    }
}

impl Session {
    /// A session with or without a board on the device.
    pub fn new(downloaded: bool) -> (session: Session)
        ensures
            session.downloaded == downloaded,
    {
        Session { downloaded }
    }

    /// Reads the line that the operator typed. A command that the session
    /// does not allow now, or that is not well made, is refused before
    /// anything is sent.
    pub fn interpret(&self, line: &str) -> (command: Result<Command, ContentError>)
        ensures
            command == command_of(words_of(line.spec_bytes()), self.downloaded),
    {
        let words = split_words(line.as_bytes());
        let ghost views = views_of(words@);
        if words.len() == 0 {
            return Ok(Command::Nothing);
        }
        assert(views[0] == words@[0]@);
        let name = words[0].as_slice();
        if same_bytes(name, &WORD_AT) {
            Ok(Command::At)
        } else if same_bytes(name, &WORD_CLEAR) {
            Ok(Command::Clear)
        } else if same_bytes(name, &WORD_BREAK) {
            Ok(Command::Break)
        } else if same_bytes(name, &WORD_PLAY) {
            if self.downloaded {
                Ok(Command::Play)
            } else {
                Err(ContentError::NoBoardDownloaded)
            }
        } else if same_bytes(name, &WORD_EXIT) {
            Ok(Command::Exit)
        } else if same_bytes(name, &WORD_DOWNLOAD) {
            if self.downloaded {
                Err(ContentError::GameRunning)
            } else {
                Ok(Command::Download)
            }
        } else if same_bytes(name, &WORD_FILL) {
            if words.len() > 4 {
                Err(ContentError::UnknownCommand)
            } else if words.len() < 4 {
                Err(ContentError::BadArguments)
            } else {
                assert(views[1] == words@[1]@ && views[2] == words@[2]@ && views[3] == words@[3]@);
                let x = parse_argument(words[1].as_slice());
                let y = parse_argument(words[2].as_slice());
                let value = parse_argument(words[3].as_slice());
                match (x, y, value) {
                    (Some(x), Some(y), Some(value)) => Ok(Command::Fill { x, y, value }),
                    _ => Err(ContentError::OutOfRange),
                }
            }
        } else if same_bytes(name, &WORD_DEBUG) {
            if words.len() > 3 {
                Err(ContentError::UnknownCommand)
            } else if words.len() < 3 {
                Err(ContentError::BadArguments)
            } else {
                assert(views[1] == words@[1]@ && views[2] == words@[2]@);
                let x = parse_argument(words[1].as_slice());
                let y = parse_argument(words[2].as_slice());
                match (x, y) {
                    (Some(x), Some(y)) => Ok(Command::Debug { x, y }),
                    _ => Err(ContentError::OutOfRange),
                }
            }
        } else if same_bytes(name, &WORD_SOLUTION) {
            Ok(Command::Solution)
        } else if same_bytes(name, &WORD_UNSOLVED) {
            Ok(Command::Unsolved)
        } else if same_bytes(name, &WORD_HELP) || same_bytes(name, &WORD_QUERY) {
            Ok(Command::Help)
        } else if same_bytes(name, &WORD_EXPORT) {
            Ok(Command::Export)
        } else {
            Err(ContentError::UnknownCommand)
        }
    }

    /// Takes note that a command has been carried out: after `clear` no
    /// board is on the device, after `download` one is.
    pub fn completed(&mut self, command: &Command)
        ensures
            final(self).downloaded == match *command {
                Command::Clear => false,
                Command::Download => true,
                _ => old(self).downloaded,
            },
    {
        match command {
            Command::Clear => {
                self.downloaded = false;
            },
            Command::Download => {
                self.downloaded = true;
            },
            _ => {},
        }
    }
}

} // verus!
