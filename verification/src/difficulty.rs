//! The four difficulty levels, their order, their names, and how many
//! squares each asks to be emptied.

use vstd::prelude::*;
use vstd::string::StringSliceAdditionalSpecFns;

verus! {

/// Squares to empty for an easy puzzle.
pub const EASY: u8 = 35;

/// Squares to empty for a medium puzzle.
pub const MEDIUM: u8 = 40;

/// Squares to empty for a hard puzzle.
pub const HARD: u8 = 45;

/// Squares to empty for the hardest puzzle: as many as there are.
pub const ULTRA: u8 = 81;

/// How hard a puzzle is meant to be. The variants stand in rising order.
#[derive(Clone, Copy, Debug, PartialEq, Eq, Structural, PartialOrd, Ord, Hash)]
pub enum Difficulty {
    Easy,
    Medium,
    Hard,
    Ultra,
}

/// An ASCII letter in lower case; any other byte as it is.
pub open spec fn lower(b: u8) -> u8 {
    if 0x41 <= b <= 0x5a {
        (b + 0x20) as u8
    } else {
        b
    }
}

/// Two texts are the same but for the case of their ASCII letters.
pub open spec fn same_ignoring_case(a: Seq<u8>, b: Seq<u8>) -> bool {
    a.len() == b.len() && forall|i: int| 0 <= i < a.len() ==> lower(#[trigger] a[i]) == lower(b[i])
}

/// A text without the line feed at its end, if it has one there.
pub open spec fn without_line_end(text: Seq<u8>) -> Seq<u8> {
    if text.len() > 0 && text.last() == 0x0a {
        text.drop_last()
    } else {
        text
    }
}

/// The level that a label names, whatever the case of its letters.
pub open spec fn level_named(label: Seq<u8>) -> Option<Difficulty> {
    if same_ignoring_case(label, Difficulty::Easy.label_bytes()) {
        Some(Difficulty::Easy)
    } else if same_ignoring_case(label, Difficulty::Medium.label_bytes()) {
        Some(Difficulty::Medium)
    } else if same_ignoring_case(label, Difficulty::Hard.label_bytes()) {
        Some(Difficulty::Hard)
    } else if same_ignoring_case(label, Difficulty::Ultra.label_bytes()) {
        Some(Difficulty::Ultra)
    } else {
        None
    }
}

fn lower_byte(b: u8) -> (r: u8)
    ensures
        r == lower(b),
{
    if 0x41 <= b && b <= 0x5a {
        b + 0x20
    } else {
        b
    }
}

fn matches_name(label: &[u8], end: usize, name: &str) -> (r: bool)
    requires
        end <= label@.len(),
    ensures
        r == same_ignoring_case(label@.take(end as int), name.spec_bytes()),
{
    let name_bytes = name.as_bytes();
    if end != name_bytes.len() {
        return false;
    }
    let mut i: usize = 0;
    while i < end
        invariant
            i <= end <= label@.len(),
            end == name_bytes@.len(),
            name_bytes@ == name.spec_bytes(),
            forall|j: int| 0 <= j < i ==> lower(#[trigger] label@[j]) == lower(name_bytes@[j]),
        decreases end - i,
    {
        if lower_byte(label[i]) != lower_byte(name_bytes[i]) {
            assert(label@.take(end as int)[i as int] == label@[i as int]);
            return false;
        }
        i = i + 1;
    }
    assert forall|j: int| 0 <= j < end implies lower(#[trigger] label@.take(end as int)[j]) == lower(
        name_bytes@[j],
    ) by {
        assert(label@.take(end as int)[j] == label@[j]);
    }
    true
}

impl Difficulty {
    /// The place of the level in the order, from 0.
    pub open spec fn spec_rank(self) -> int {
        match self {
            Difficulty::Easy => 0,
            Difficulty::Medium => 1,
            Difficulty::Hard => 2,
            Difficulty::Ultra => 3,
        }
    }

    /// How many squares the level asks to be emptied.
    pub open spec fn spec_removal_target(self) -> int {
        match self {
            Difficulty::Easy => 35,
            Difficulty::Medium => 40,
            Difficulty::Hard => 45,
            Difficulty::Ultra => 81,
        }
    }

    /// The level's name as text.
    pub open spec fn label_text(self) -> Seq<char> {
        match self {
            Difficulty::Easy => seq!['E', 'a', 's', 'y'],
            Difficulty::Medium => seq!['M', 'e', 'd', 'i', 'u', 'm'],
            Difficulty::Hard => seq!['H', 'a', 'r', 'd'],
            Difficulty::Ultra => seq!['U', 'l', 't', 'r', 'a'],
        }
    }

    /// The level's name as bytes.
    pub open spec fn label_bytes(self) -> Seq<u8> {
        match self {
            Difficulty::Easy => seq![0x45u8, 0x61, 0x73, 0x79],
            Difficulty::Medium => seq![0x4du8, 0x65, 0x64, 0x69, 0x75, 0x6d],
            Difficulty::Hard => seq![0x48u8, 0x61, 0x72, 0x64],
            Difficulty::Ultra => seq![0x55u8, 0x6c, 0x74, 0x72, 0x61],
        }
    }

    #[verifier::when_used_as_spec(spec_rank_u8)]
    pub fn rank(&self) -> (r: u8)
        ensures
            r == self.spec_rank(),
    {
        match self {
            Difficulty::Easy => 0,
            Difficulty::Medium => 1,
            Difficulty::Hard => 2,
            Difficulty::Ultra => 3,
        }
    }

    pub open spec fn spec_rank_u8(&self) -> u8 {
        self.spec_rank() as u8
    }

    pub fn removal_target(&self) -> (n: u8)
        ensures
            n == self.spec_removal_target(),
    {
        match self {
            Difficulty::Easy => EASY,
            Difficulty::Medium => MEDIUM,
            Difficulty::Hard => HARD,
            Difficulty::Ultra => ULTRA,
        }
    }

    /// The four levels, easiest first.
    pub open spec fn all_levels() -> Seq<Difficulty> {
        seq![Difficulty::Easy, Difficulty::Medium, Difficulty::Hard, Difficulty::Ultra]
    }

    /// The four levels, easiest first.
    pub fn all() -> (levels: [Difficulty; 4])
        ensures
            levels@ == Difficulty::all_levels(),
    {
        let levels = [Difficulty::Easy, Difficulty::Medium, Difficulty::Hard, Difficulty::Ultra];
        assert(levels@ =~= Difficulty::all_levels());
        levels
    }

    /// The level's name, as it is written in a board file.
    pub fn label(&self) -> (name: &'static str)
        ensures
            name@ == self.label_text(),
            name.spec_bytes() == self.label_bytes(),
    {
        proof {
            reveal_strlit("Easy");
            reveal_strlit("Medium");
            reveal_strlit("Hard");
            reveal_strlit("Ultra");
        }
        let name = match self {
            Difficulty::Easy => "Easy",
            Difficulty::Medium => "Medium",
            Difficulty::Hard => "Hard",
            Difficulty::Ultra => "Ultra",
        };
        proof {
            assert(name@ =~= self.label_text());
            assert(vstd::string::is_ascii(name));
            vstd::string::is_ascii_spec_bytes(name);
            assert(name.spec_bytes() =~= self.label_bytes());
        }
        name
    }

    /// Reads a level's name. The case of the letters does not count, and a
    /// line feed at the end is left out.
    pub fn from_label(label: &str) -> (level: Option<Difficulty>)
        ensures
            level == level_named(without_line_end(label.spec_bytes())),
    {
        let bytes = label.as_bytes();
        let mut end = bytes.len();
        if end > 0 && bytes[end - 1] == 0x0a {
            end = end - 1;
        }
        assert(bytes@.take(end as int) =~= without_line_end(label.spec_bytes()));
        if matches_name(bytes, end, Difficulty::Easy.label()) {
            Some(Difficulty::Easy)
        } else if matches_name(bytes, end, Difficulty::Medium.label()) {
            Some(Difficulty::Medium)
        } else if matches_name(bytes, end, Difficulty::Hard.label()) {
            Some(Difficulty::Hard)
        } else if matches_name(bytes, end, Difficulty::Ultra.label()) {
            Some(Difficulty::Ultra)
        } else {
            None
        }
    }
}

} // verus!
