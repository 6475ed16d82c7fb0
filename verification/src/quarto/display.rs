//! The game as text.

use crate::quarto::game_model::{ascending, board_cells, GameModel};
use crate::quarto::quarto_game_state::{members_in_order, QuartoGameState, NUM_PIECES};
use crate::utils::{decimal_digits, decimal_text};
use std::collections::HashSet;
use vstd::prelude::*;

verus! {

/// One row of the board as a line of text: its four values in square
/// brackets, with a comma and a blank between them.
pub open spec fn row_text(cells: Seq<u8>, row: int) -> Seq<char> {
    "["@ + decimal_digits(cells[4 * row] as nat) + ", "@ + decimal_digits(
        cells[4 * row + 1] as nat,
    ) + ", "@ + decimal_digits(cells[4 * row + 2] as nat) + ", "@ + decimal_digits(
        cells[4 * row + 3] as nat,
    ) + "]\n"@
}

/// The board as four lines of text, one for each row.
pub open spec fn board_text(cells: Seq<u8>) -> Seq<char> {
    row_text(cells, 0) + row_text(cells, 1) + row_text(cells, 2) + row_text(cells, 3)
}

/// Numbers with a comma and a blank between them.
pub open spec fn list_text(members: Seq<u8>) -> Seq<char>
    decreases members.len(),
{
    if members.len() == 0 {
        Seq::empty()
    } else if members.len() == 1 {
        decimal_digits(members[0] as nat)
    } else {
        list_text(members.drop_last()) + ", "@ + decimal_digits(members.last() as nat)
    }
}

/// The members of a set in increasing order, in braces.
pub open spec fn set_text(set: Set<u8>) -> Seq<char> {
    "{"@ + list_text(ascending(set, NUM_PIECES as nat)) + "}"@
}

/// What is pending and what is free, as text: three lines and an empty one.
pub open spec fn info_text(m: GameModel) -> Seq<char> {
    "current piece to place: "@ + decimal_digits(m.current_piece as nat) + "\navailable pieces: "@
        + set_text(m.pieces) + "\navailable positions: "@ + set_text(m.positions) + "\n\n"@
}

/// One row of the board as a line of text.
pub fn row_string(board: &[[u8; 4]; 4], row: usize) -> (text: String)
    requires
        row < 4,
    ensures
        text@ == row_text(board_cells(*board), row as int),
{
    let mut text = String::from_str("[");
    text.append(decimal_text(board[row][0] as u128).as_str());
    text.append(", ");
    text.append(decimal_text(board[row][1] as u128).as_str());
    text.append(", ");
    text.append(decimal_text(board[row][2] as u128).as_str());
    text.append(", ");
    text.append(decimal_text(board[row][3] as u128).as_str());
    text.append("]\n");
    text
}

/// The members of a set below `NUM_PIECES` in increasing order, in braces.
pub fn set_string(set: &HashSet<u8>) -> (text: String)
    ensures
        text@ == set_text(set@),
{
    let members = members_in_order(set);
    let mut list = String::new();
    let mut i: usize = 0;
    assert(members@.take(0) =~= Seq::<u8>::empty());
    while i < members.len()
        invariant
            i <= members.len(),
            list@ == list_text(members@.take(i as int)),
        decreases members.len() - i,
    {
        proof {
            let next = members@.take(i + 1);
            assert(next.drop_last() =~= members@.take(i as int));
            assert(next.last() == members[i as int]);
            assert(next[0] == members[0]);
        }
        if i > 0 {
            list.append(", ");
        }
        list.append(decimal_text(members[i] as u128).as_str());
        i += 1;
    }
    assert(members@.take(i as int) =~= members@);
    let mut text = String::from_str("{");
    text.append(list.as_str());
    text.append("}");
    text
}

/// The board as text, a line for each row.
pub fn board_string(board: &[[u8; 4]; 4]) -> (text: String)
    ensures
        text@ == board_text(board_cells(*board)),
{
    let mut text = row_string(board, 0);
    text.append(row_string(board, 1).as_str());
    text.append(row_string(board, 2).as_str());
    text.append(row_string(board, 3).as_str());
    text
}

/// The pending piece, the free pieces and the free cells of a state as text.
pub fn info_string(state: &QuartoGameState) -> (text: String)
    ensures
        text@ == info_text(state@),
{
    let mut text = String::from_str("current piece to place: ");
    text.append(decimal_text(state.current_piece as u128).as_str());
    text.append("\navailable pieces: ");
    text.append(set_string(&state.available_pieces).as_str());
    text.append("\navailable positions: ");
    text.append(set_string(&state.available_positions).as_str());
    text.append("\n\n");
    text
}

} // verus!
