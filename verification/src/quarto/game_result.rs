//! How a match ended.

use vstd::prelude::*;

verus! {

/// The outcome of a match: a win, a draw, or a player who kept offering
/// moves that cannot be played.
#[derive(Clone, Copy, Debug, PartialEq, Eq, Structural)]
pub enum GameResult {
    PlayerOneWon,
    PlayerTwoWon,
    Draw,
    PlayerOneInvalid,
    PlayerTwoInvalid,
}

impl GameResult {
    /// The number under which a result is recorded: the winner's number, 0
    /// for a draw, the negated number of a player whose moves were invalid.
    pub open spec fn code(self) -> int {
        match self {
            GameResult::PlayerOneWon => 1,
            GameResult::PlayerTwoWon => 2,
            GameResult::Draw => 0,
            GameResult::PlayerOneInvalid => -1,
            GameResult::PlayerTwoInvalid => -2,
        }
    }

    /// Whether the match ended because a player offered no move that can be
    /// played.
    pub open spec fn is_invalid(self) -> bool {
        self == GameResult::PlayerOneInvalid || self == GameResult::PlayerTwoInvalid
    }

    /// The text of a result's number.
    pub open spec fn text(self) -> Seq<char> {
        match self {
            GameResult::PlayerOneWon => seq!['1'],
            GameResult::PlayerTwoWon => seq!['2'],
            GameResult::Draw => seq!['0'],
            GameResult::PlayerOneInvalid => seq!['-', '1'],
            GameResult::PlayerTwoInvalid => seq!['-', '2'],
        }
    }

    /// The number under which a result is recorded.
    pub fn to_code(&self) -> (code: i8)
        ensures
            code == self.code(),
    {
        match self {
            GameResult::PlayerOneWon => 1,
            GameResult::PlayerTwoWon => 2,
            GameResult::Draw => 0,
            GameResult::PlayerOneInvalid => -1,
            GameResult::PlayerTwoInvalid => -2,
        }
    }

    /// The result as it is written to a record.
    pub fn to_string(&self) -> (text: String)
        ensures
            text@ == self.text(),
    {
        proof {
            reveal_strlit("1");
            reveal_strlit("2");
            reveal_strlit("0");
            reveal_strlit("-1");
            reveal_strlit("-2");
        }
        let text = match self {
            GameResult::PlayerOneWon => String::from_str("1"),
            GameResult::PlayerTwoWon => String::from_str("2"),
            GameResult::Draw => String::from_str("0"),
            GameResult::PlayerOneInvalid => String::from_str("-1"),
            GameResult::PlayerTwoInvalid => String::from_str("-2"),
        };
        assert(text@ =~= self.text());
        text
    }
}

} // verus!
