//! The difficulty scale that gates annotation.

use vstd::prelude::*;

verus! {

/// JLPT difficulty level, ordered from "no annotation needed" to "annotate
/// everything": Ungraded < Master < N1 < N2 < N3 < N4 < N5 < Beginner.
///
/// `Ungraded` marks a word for which no grading data exists (a raw dictionary
/// hit). A word is annotated only when its level is at or below the configured
/// threshold, so a larger rank means the reader needs more help.
#[derive(Clone, Copy, Debug, PartialEq, Eq, Structural)]
pub enum JlptLevel {
    /// No grading information.
    Ungraded,
    /// Mastered everything, including JLPT N1 words.
    Master,
    /// N1 JLPT level.
    N1,
    /// N2 JLPT level.
    N2,
    /// N3 JLPT level.
    N3,
    /// N4 JLPT level.
    N4,
    /// N5 JLPT level.
    N5,
    /// Needs everything annotated.
    Beginner,
}

impl JlptLevel {
    /// Position on the scale; a larger rank needs more reading help.
    pub open spec fn rank(self) -> int {
        match self {
            JlptLevel::Ungraded => 0,
            JlptLevel::Master => 1,
            JlptLevel::N1 => 2,
            JlptLevel::N2 => 3,
            JlptLevel::N3 => 4,
            JlptLevel::N4 => 5,
            JlptLevel::N5 => 6,
            JlptLevel::Beginner => 7,
        }
    }

    /// Spec-level "at or below": `self` needs no more help than `other` allows.
    pub open spec fn spec_le(self, other: JlptLevel) -> bool {
        self.rank() <= other.rank()
    }

    fn rank_u8(&self) -> (r: u8)
        ensures
            r as int == self.rank(),
    {
        match self {
            JlptLevel::Ungraded => 0,
            JlptLevel::Master => 1,
            JlptLevel::N1 => 2,
            JlptLevel::N2 => 3,
            JlptLevel::N3 => 4,
            JlptLevel::N4 => 5,
            JlptLevel::N5 => 6,
            JlptLevel::Beginner => 7,
        }
    }

    /// Whether `self` is at or below `other` on the scale.
    pub fn le(&self, other: &JlptLevel) -> (r: bool)
        ensures
            r == self.spec_le(*other),
    {
        self.rank_u8() <= other.rank_u8()
    }

    /// The looser (more help needed) of two levels.
    pub fn max(self, other: JlptLevel) -> (r: JlptLevel)
        ensures
            r == if self.spec_le(other) {
                other
            } else {
                self
            },
    {
        if self.rank_u8() <= other.rank_u8() {
            other
        } else {
            self
        }
    }

    /// What `label` returns for each level.
    pub open spec fn spec_label(self) -> Seq<char> {
        match self {
            JlptLevel::Ungraded => "None"@,
            JlptLevel::Master => "Master"@,
            JlptLevel::N1 => "N1"@,
            JlptLevel::N2 => "N2"@,
            JlptLevel::N3 => "N3"@,
            JlptLevel::N4 => "N4"@,
            JlptLevel::N5 => "N5"@,
            JlptLevel::Beginner => "N+"@,
        }
    }

    /// Short display name of the level, as it appears inside tooltips.
    pub fn label(&self) -> (r: &'static str)
        ensures
            r@ == self.spec_label(),
    {
        match self {
            JlptLevel::Ungraded => "None",
            JlptLevel::Master => "Master",
            JlptLevel::N1 => "N1",
            JlptLevel::N2 => "N2",
            JlptLevel::N3 => "N3",
            JlptLevel::N4 => "N4",
            JlptLevel::N5 => "N5",
            JlptLevel::Beginner => "N+",
        }
    }
}

impl Default for JlptLevel {
    /// The default threshold level.
    fn default() -> (r: Self)
        ensures
            r == JlptLevel::N3,
    {
        JlptLevel::N3
    }
}

/// What `JlptLevel::from` returns for each numeric grade.
pub open spec fn spec_level_of_u8(value: u8) -> JlptLevel {
    match value {
        0u8 => JlptLevel::Master,
        1u8 => JlptLevel::N1,
        2u8 => JlptLevel::N2,
        3u8 => JlptLevel::N3,
        4u8 => JlptLevel::N4,
        5u8 => JlptLevel::N5,
        _ => JlptLevel::Beginner,
    }
}

impl From<u8> for JlptLevel {
    /// Numeric grade used by the tabular source lists: 0 is Master, 1 through
    /// 5 are N1 through N5, anything else needs everything annotated.
    fn from(value: u8) -> (r: Self) {
        match value {
            0u8 => JlptLevel::Master,
            1u8 => JlptLevel::N1,
            2u8 => JlptLevel::N2,
            3u8 => JlptLevel::N3,
            4u8 => JlptLevel::N4,
            5u8 => JlptLevel::N5,
            _ => JlptLevel::Beginner,
        }
    }
}

impl vstd::std_specs::convert::FromSpecImpl<u8> for JlptLevel {
    open spec fn obeys_from_spec() -> bool {
        true
    }

    open spec fn from_spec(value: u8) -> Self {
        spec_level_of_u8(value)
    }
}

/// A difficulty level as it is written in a configuration file: either by
/// name or as a bare numeric grade.
#[derive(Clone, Copy, Debug, PartialEq, Eq, Structural)]
pub enum SerializedJlptLevel {
    /// The level by name.
    Level(JlptLevel),
    /// The level as a numeric grade.
    Number(u8),
}

impl SerializedJlptLevel {
    /// What `level` returns.
    pub open spec fn spec_level(self) -> JlptLevel {
        match self {
            SerializedJlptLevel::Level(l) => l,
            SerializedJlptLevel::Number(n) => spec_level_of_u8(n),
        }
    }

    /// The difficulty level this setting denotes.
    pub fn level(&self) -> (r: JlptLevel)
        ensures
            r == self.spec_level(),
    {
        match self {
            SerializedJlptLevel::Level(l) => *l,
            SerializedJlptLevel::Number(n) => JlptLevel::from(*n),
        }
    }
}

impl Default for SerializedJlptLevel {
    /// The default threshold setting.
    fn default() -> (r: Self)
        ensures
            r == SerializedJlptLevel::Level(JlptLevel::N3),
    {
        SerializedJlptLevel::Level(JlptLevel::N3)
    }
}

} // verus!
