//! The player that takes what comes first.

use super::{random_below, Agent};
use crate::quarto::game_model::{is_least, GameModel};
use crate::quarto::quarto_game_state::{
    least_member, QuartoGameState, NO_PIECE, NO_POSITION, NUM_PIECES,
};
use crate::quarto::QuartoMove;
use vstd::prelude::*;

verus! {

/// A player that opens with a random piece and afterwards takes the lowest
/// free cell and hands over the lowest free piece.
pub struct RandomAgent;

impl Agent for RandomAgent {
    /// Any piece code.
    open spec fn may_open_with(&self, piece: u8) -> bool {
        piece < NUM_PIECES
    }

    /// The lowest free cell with the lowest free piece, and no other move.
    open spec fn may_choose(&self, state: GameModel, chosen: QuartoMove) -> bool {
        is_least(state.positions, chosen.0) && is_least(state.pieces, chosen.1)
    }

    /// The words `Random Agent`.
    open spec fn may_be_named(&self, name: Seq<char>) -> bool {
        name == "Random Agent"@
    }

    /// A piece code drawn at random.
    fn make_first_move(&self) -> (piece: u8)
        ensures
            piece < NUM_PIECES,
    {
        random_below(NUM_PIECES)
    }

    /// The lowest free cell and the lowest free piece.
    fn make_move(&self, state: QuartoGameState) -> (player_move: QuartoMove)
        ensures
            is_least(state@.positions, player_move.0),
            is_least(state@.pieces, player_move.1),
            state@.legal(player_move.0, player_move.1),
    {
        let position = match least_member(&state.available_positions) {
            Some(position) => position,
            None => NO_POSITION,
        };
        let next_piece = match least_member(&state.available_pieces) {
            Some(piece) => piece,
            None => NO_PIECE,
        };
        QuartoMove(position, next_piece)
    }

    fn get_name(&self) -> (name: String)
        ensures
            name@ == "Random Agent"@,
    {
        String::from_str("Random Agent")
    }
}

} // verus!
