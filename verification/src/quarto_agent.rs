//! The players of a match.

pub mod game_tree;
pub mod human_player;
pub mod negamax_agent;
pub mod random_agent;
pub mod search_laws;

use crate::quarto::game_model::GameModel;
use crate::quarto::quarto_game_state::QuartoGameState;
use crate::quarto::QuartoMove;
use crate::utils::{decimal_digits, decimal_text};
use rand::Rng;
use vstd::prelude::*;

verus! {

/// What a player of a match can do: choose the piece that opens the game,
/// choose a move, and say its name.
pub trait Agent {
    /// Whether `piece` is one that this player may open the game with. A
    /// player that says nothing of its openings may open with anything.
    open spec fn may_open_with(&self, piece: u8) -> bool {
        true
    }

    /// Whether `chosen` is a move that this player may make in `state`. A
    /// player that says nothing of its moves may make any.
    open spec fn may_choose(&self, state: GameModel, chosen: QuartoMove) -> bool {
        true
    }

    /// Whether `name` is a name that this player may give. A player that
    /// says nothing of its name may give any.
    open spec fn may_be_named(&self, name: Seq<char>) -> bool {
        true
    }

    /// The piece that the opponent has to place first.
    fn make_first_move(&self) -> (piece: u8)
        ensures
            self.may_open_with(piece),
    ;

    /// The move of this player in `state`, where a piece is pending and both
    /// a cell and a piece are free. It is one that the player may make; beyond
    /// that nothing is promised of it: the one who asks for it decides
    /// whether it can be played.
    fn make_move(&self, state: QuartoGameState) -> (chosen: QuartoMove)
        requires
            state@.in_play(),
            !state@.pieces.is_empty(),
            !state@.positions.is_empty(),
        ensures
            self.may_choose(state@, chosen),
    ;

    /// The player's name.
    fn get_name(&self) -> (name: String)
        ensures
            self.may_be_named(name@),
    ;
}

/// A player behind one type, whatever kind of player it is.
pub struct QuartoAgent {
    agent: Box<dyn Agent>,
}

/// The sentence that reports a move: the player's name, the cell and the
/// piece handed over.
pub open spec fn move_report(name: Seq<char>, player_move: QuartoMove) -> Seq<char> {
    name + " made move ("@ + decimal_digits(player_move.0 as nat) + ","@ + decimal_digits(
        player_move.1 as nat,
    ) + ")\n"@
}

impl QuartoAgent {
    /// Whether `piece` is one that the player inside may open the game with.
    pub closed spec fn may_open_with(&self, piece: u8) -> bool {
        self.agent.may_open_with(piece)
    }

    /// Whether `chosen` is a move that the player inside may make in `state`.
    pub closed spec fn may_choose(&self, state: GameModel, chosen: QuartoMove) -> bool {
        self.agent.may_choose(state, chosen)
    }

    /// Whether `name` is a name that the player inside may give.
    pub closed spec fn may_be_named(&self, name: Seq<char>) -> bool {
        self.agent.may_be_named(name)
    }

    /// Wraps a player.
    pub fn new(agent: Box<dyn Agent>) -> Self {
        Self { agent }
    }

    /// Asks the player for its move in `state`: a move that the player
    /// inside may make there.
    pub fn make_move(&self, state: QuartoGameState) -> (chosen: QuartoMove)
        requires
            state@.in_play(),
            !state@.pieces.is_empty(),
            !state@.positions.is_empty(),
        ensures
            self.may_choose(state@, chosen),
    {
        self.agent.make_move(state)
    }

    /// Asks the player for the piece that opens the game: one that the
    /// player inside may open with.
    pub fn make_first_move(&self) -> (piece: u8)
        ensures
            self.may_open_with(piece),
    {
        self.agent.make_first_move()
    }

    /// The player's name: one that the player inside may give.
    pub fn name(&self) -> (name: String)
        ensures
            self.may_be_named(name@),
    {
        self.agent.get_name()
    }

    /// The sentence that reports a move of this player.
    pub fn report_move(&self, player_move: &QuartoMove) -> (report: String)
        ensures
            exists|name: Seq<char>|
                self.may_be_named(name) && report@ == #[trigger] move_report(name, *player_move),
    {
        let mut report = self.agent.get_name();
        let ghost name = report@;
        report.append(" made move (");
        report.append(decimal_text(player_move.0 as u128).as_str());
        report.append(",");
        report.append(decimal_text(player_move.1 as u128).as_str());
        report.append(")\n");
        assert(report@ == move_report(name, *player_move));
        report
    }
}

/// `Rng::random_range` on the generator that `rand::rng` hands out, for the
/// range from 0 to `bound`, `bound` left out: some value in that range.
/// Which one is not said.
#[verifier::external_body]
pub(crate) fn random_below(bound: u8) -> (value: u8)
    requires
        bound > 0,
    ensures
        value < bound,
{
    rand::rng().random_range(0..bound)
}

} // verus!
