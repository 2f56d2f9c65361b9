//! Difficulty setting.

use vstd::prelude::*;
use vstd::string::StringExecFns;

verus! {

/// Difficulty of a game.  Currently cosmetic: it is reported in the
/// end-of-game summary but alters no rule; the pace of the game comes
/// from the score alone.
#[derive(Clone, Copy, Debug, PartialEq, Eq, Structural)]
pub enum GameHardness {
    Easy,
    /// The default.
    Normal,
    Hard,
}

impl GameHardness {
    /// The human-readable name of the difficulty, for end-of-game summaries.
    pub fn label(&self) -> (s: String)
        ensures
            s@ == match *self {
                GameHardness::Easy => "Easy"@,
                GameHardness::Normal => "Normal"@,
                GameHardness::Hard => "Hard"@,
            },
    {
        match *self {
            GameHardness::Easy => String::from_str("Easy"),
            GameHardness::Normal => String::from_str("Normal"),
            GameHardness::Hard => String::from_str("Hard"),
        }
    }
}

} // verus!
