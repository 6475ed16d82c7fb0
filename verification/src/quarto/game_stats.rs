//! Time and move counts of the two players over a match.

use crate::quarto::game_result::GameResult;
use crate::utils::{decimal_digits, decimal_text};
use vstd::prelude::*;

verus! {

/// For each player the time spent on accepted moves, in milliseconds, and
/// the number of those moves.
pub struct GameStats {
    pub p1_cumulative_time: u128,
    pub p2_cumulative_time: u128,
    pub p1_num_moves: u8,
    pub p2_num_moves: u8,
}

impl GameStats {
    /// Statistics with nothing counted: all four numbers are zero.
    pub open spec fn zero() -> GameStats {
        GameStats { p1_cumulative_time: 0, p2_cumulative_time: 0, p1_num_moves: 0, p2_num_moves: 0 }
    }

    /// The statistics as a report of three lines.
    pub open spec fn text(self) -> Seq<char> {
        "Game stats:\nPlayer 1 Time: "@ + decimal_digits(self.p1_cumulative_time as nat)
            + "\nPlayer 2 Time: "@ + decimal_digits(self.p2_cumulative_time as nat) + "\n"@
    }

    /// Whether a move of `elapsed` milliseconds can be added to a player's
    /// numbers without leaving their range.
    pub open spec fn can_log(self, player_one: bool, elapsed: u128) -> bool {
        if player_one {
            self.p1_cumulative_time + elapsed <= u128::MAX && self.p1_num_moves < u8::MAX
        } else {
            self.p2_cumulative_time + elapsed <= u128::MAX && self.p2_num_moves < u8::MAX
        }
    }

    /// The statistics with one more move of a player, which took `elapsed`
    /// milliseconds.
    pub open spec fn logged(self, player_one: bool, elapsed: u128) -> GameStats {
        if player_one {
            GameStats {
                p1_cumulative_time: (self.p1_cumulative_time + elapsed) as u128,
                p1_num_moves: (self.p1_num_moves + 1) as u8,
                ..self
            }
        } else {
            GameStats {
                p2_cumulative_time: (self.p2_cumulative_time + elapsed) as u128,
                p2_num_moves: (self.p2_num_moves + 1) as u8,
                ..self
            }
        }
    }

    /// The statistics after a move of `elapsed` milliseconds: the move is
    /// added where the numbers can take it, and left out where they cannot.
    pub open spec fn counted(self, player_one: bool, elapsed: u128) -> GameStats {
        if self.can_log(player_one, elapsed) {
            self.logged(player_one, elapsed)
        } else {
            self
        }
    }

    /// The line that records a match: the result's number and the four
    /// numbers of the statistics, with commas between them.
    pub open spec fn record_text(self, result: GameResult) -> Seq<char> {
        result.text() + ","@ + decimal_digits(self.p1_cumulative_time as nat) + ","@
            + decimal_digits(self.p2_cumulative_time as nat) + ","@ + decimal_digits(
            self.p1_num_moves as nat,
        ) + ","@ + decimal_digits(self.p2_num_moves as nat) + "\n"@
    }

    /// Statistics with nothing counted.
    pub fn new() -> (stats: Self)
        ensures
            stats == Self::zero(),
    {
        Self { p1_cumulative_time: 0, p2_cumulative_time: 0, p1_num_moves: 0, p2_num_moves: 0 }
    }

    /// Forgets what was counted.
    pub fn reset(&mut self)
        ensures
            *final(self) == Self::zero(),
    {
        self.p1_cumulative_time = 0;
        self.p2_cumulative_time = 0;
        self.p1_num_moves = 0;
        self.p2_num_moves = 0;
    }

    /// The line that records a match with these statistics.
    pub fn record(&self, result: &GameResult) -> (line: String)
        ensures
            line@ == self.record_text(*result),
    {
        let mut line = result.to_string();
        line.append(",");
        line.append(decimal_text(self.p1_cumulative_time).as_str());
        line.append(",");
        line.append(decimal_text(self.p2_cumulative_time).as_str());
        line.append(",");
        line.append(decimal_text(self.p1_num_moves as u128).as_str());
        line.append(",");
        line.append(decimal_text(self.p2_num_moves as u128).as_str());
        line.append("\n");
        line
    }

    /// The statistics as a report of three lines.
    pub fn to_string(&self) -> (text: String)
        ensures
            text@ == self.text(),
    {
        let mut message = String::from_str("Game stats:\nPlayer 1 Time: ");
        message.append(decimal_text(self.p1_cumulative_time).as_str());
        message.append("\nPlayer 2 Time: ");
        message.append(decimal_text(self.p2_cumulative_time).as_str());
        message.append("\n");
        message
    }
}

} // verus!
