//! The state of a game and its mathematical model.

use super::game_model::{ascending, board_cells, is_least, GameModel};
use std::collections::HashSet;
use vstd::prelude::*;

verus! {

/// Number of distinct pieces, which is also the number of cells.
pub const NUM_PIECES: u8 = 16;

/// Value of a cell that holds no piece.
pub const EMPTY_CELL: u8 = 16;

/// Value that stands for "no piece": nothing is pending, or nothing is left
/// to hand over.
pub const NO_PIECE: u8 = 16;

/// Value that stands for "no cell" in a move that places nothing.
pub const NO_POSITION: u8 = 16;

/// A snapshot of a game: the board, the piece that the player to move has to
/// place, and what is still free.
pub struct QuartoGameState {
    pub board: [[u8; 4]; 4],
    pub current_piece: u8,
    pub available_pieces: HashSet<u8>,
    pub available_positions: HashSet<u8>,
}

/// The least member of a set, if it has one.
pub fn least_member(set: &HashSet<u8>) -> (least: Option<u8>)
    ensures
        match least {
            Some(member) => is_least(set@, member),
            None => set@.is_empty(),
        },
{
    broadcast use vstd::std_specs::hash::group_hash_axioms;

    let mut candidate: u8 = 0;
    loop
        invariant
            forall|other: u8| other < candidate ==> !set@.contains(other),
        decreases u8::MAX - candidate,
    {
        if set.contains(&candidate) {
            return Some(candidate);
        }
        if candidate == u8::MAX {
            assert forall|other: u8| !set@.contains(other) by {
                assert(other < candidate || other == candidate);
            }
            return None;
        }
        candidate += 1;
    }
}

/// The members of `set` below `NUM_PIECES`, in increasing order.
pub fn members_in_order(set: &HashSet<u8>) -> (members: Vec<u8>)
    ensures
        members@ == ascending(set@, NUM_PIECES as nat),
        members@.len() <= NUM_PIECES,
{
    broadcast use vstd::std_specs::hash::group_hash_axioms;

    let mut members: Vec<u8> = Vec::new();
    let mut c: u8 = 0;
    while c < NUM_PIECES
        invariant
            c <= NUM_PIECES,
            members@ == ascending(set@, c as nat),
            members@.len() <= c,
        decreases NUM_PIECES - c,
    {
        if set.contains(&c) {
            members.push(c);
        }
        c += 1;
    }
    members
}

/// `Clone::clone` of a `HashSet`: a set with the same members.
#[verifier::external_body]
fn clone_set(set: &HashSet<u8>) -> (copy: HashSet<u8>)
    ensures
        copy@ == set@,
{
    set.clone()
}

impl View for QuartoGameState {
    type V = GameModel;

    open spec fn view(&self) -> GameModel {
        GameModel {
            board: board_cells(self.board),
            current_piece: self.current_piece,
            pieces: self.available_pieces@,
            positions: self.available_positions@,
        }
    }
}

/// The value of a cell given by its linear index.
pub fn cell_at(board: &[[u8; 4]; 4], position: u8) -> (code: u8)
    requires
        position < NUM_PIECES,
    ensures
        code == board_cells(*board)[position as int],
{
    board[(position / 4) as usize][(position % 4) as usize]
}

/// Whether some cell of the board holds `code`.
pub fn board_holds(board: &[[u8; 4]; 4], code: u8) -> (found: bool)
    ensures
        found == board_cells(*board).contains(code),
{
    let mut position: u8 = 0;
    while position < NUM_PIECES
        invariant
            position <= NUM_PIECES,
            forall|p: int| 0 <= p < position ==> board_cells(*board)[p] != code,
        decreases NUM_PIECES - position,
    {
        if cell_at(board, position) == code {
            return true;
        }
        position += 1;
    }
    false
}

impl QuartoGameState {
    /// The opening: `piece` becomes the pending piece and stops being free.
    /// Nothing is placed. On a fresh state a piece code leaves a state in
    /// play.
    pub fn choose_opening_piece(&mut self, piece: u8)
        ensures
            final(self)@ == old(self)@.choose_opening_piece(piece),
            old(self)@ == GameModel::initial() && piece < NUM_PIECES ==> final(self)@.in_play(),
    {
        broadcast use vstd::std_specs::hash::group_hash_axioms;

        self.current_piece = piece;
        self.available_pieces.remove(&piece);
        proof {
            if old(self)@ == GameModel::initial() && piece < NUM_PIECES {
                GameModel::opening_is_in_play(piece);
            }
        }
    }

    /// A state that means the same: the same board, the same pending piece
    /// and sets with the same members.
    pub fn duplicate(&self) -> (copy: Self)
        ensures
            copy@ == self@,
    {
        Self {
            board: self.board,
            current_piece: self.current_piece,
            available_pieces: clone_set(&self.available_pieces),
            available_positions: clone_set(&self.available_positions),
        }
    }

    /// Whether the state is well-formed.
    pub fn is_well_formed(&self) -> (ok: bool)
        ensures
            ok == self@.wf(),
    {
        broadcast use vstd::std_specs::hash::group_hash_axioms;

        let ghost cells = board_cells(self.board);
        if self.current_piece > NO_PIECE {
            return false;
        }
        let mut position: u8 = 0;
        while position < NUM_PIECES
            invariant
                position <= NUM_PIECES,
                cells == board_cells(self.board),
                forall|p: int| 0 <= p < position ==> #[trigger] cells[p] <= EMPTY_CELL,
                forall|p: int, q: int|
                    0 <= p < position && p < q < 16 && cells[p] != EMPTY_CELL ==> #[trigger] cells[p]
                        != #[trigger] cells[q],
            decreases NUM_PIECES - position,
        {
            let code = cell_at(&self.board, position);
            if code > EMPTY_CELL {
                return false;
            }
            if code != EMPTY_CELL {
                let mut other: u8 = position + 1;
                while other < NUM_PIECES
                    invariant
                        position < other <= NUM_PIECES,
                        cells == board_cells(self.board),
                        code == cells[position as int],
                        code != EMPTY_CELL,
                        forall|q: int| position < q < other ==> code != #[trigger] cells[q],
                    decreases NUM_PIECES - other,
                {
                    if cell_at(&self.board, other) == code {
                        assert(self@.board[position as int] == self@.board[other as int]);
                        return false;
                    }
                    other += 1;
                }
            }
            position += 1;
        }
        if self.current_piece != NO_PIECE && board_holds(&self.board, self.current_piece) {
            return false;
        }
        let mut value: u8 = 0;
        loop
            invariant
                cells == board_cells(self.board),
                self.current_piece <= NO_PIECE,
                self.current_piece != NO_PIECE ==> !cells.contains(self.current_piece),
                forall|p: int| 0 <= p < 16 ==> #[trigger] cells[p] <= EMPTY_CELL,
                forall|p: int, q: int|
                    0 <= p < q < 16 && cells[p] != EMPTY_CELL ==> #[trigger] cells[p]
                        != #[trigger] cells[q],
                forall|p: u8|
                    p < value ==> (#[trigger] self@.positions.contains(p) <==> p < 16 && cells[p as int]
                        == EMPTY_CELL),
                forall|c: u8|
                    c < value ==> (#[trigger] self@.pieces.contains(c) <==> c < 16 && c
                        != self.current_piece && !cells.contains(c)),
            decreases u8::MAX - value,
        {
            let free_cell = value < NUM_PIECES && cell_at(&self.board, value) == EMPTY_CELL;
            if self.available_positions.contains(&value) != free_cell {
                assert(self@.positions.contains(value) != (value < 16 && cells[value as int]
                    == EMPTY_CELL));
                return false;
            }
            let free_piece = value < NUM_PIECES && value != self.current_piece && !board_holds(
                &self.board,
                value,
            );
            if self.available_pieces.contains(&value) != free_piece {
                assert(self@.pieces.contains(value) != (value < 16 && value != self.current_piece
                    && !cells.contains(value)));
                return false;
            }
            if value == u8::MAX {
                assert forall|p: u8| #[trigger]
                    self@.positions.contains(p) <==> p < 16 && cells[p as int] == EMPTY_CELL by {
                    assert(p < value || p == value);
                }
                assert forall|c: u8| #[trigger]
                    self@.pieces.contains(c) <==> c < 16 && c != self.current_piece
                        && !cells.contains(c) by {
                    assert(c < value || c == value);
                }
                return true;
            }
            value += 1;
        }
    }

    /// Whether the state is that of a fresh game.
    pub fn is_fresh(&self) -> (fresh: bool)
        ensures
            fresh == (self@ == GameModel::initial()),
    {
        broadcast use vstd::std_specs::hash::group_hash_axioms;

        let ghost start = GameModel::initial();
        if self.current_piece != NO_PIECE {
            return false;
        }
        let mut value: u8 = 0;
        loop
            invariant
                start == GameModel::initial(),
                self.current_piece == NO_PIECE,
                forall|c: u8| c < value ==> (#[trigger] self@.pieces.contains(c) <==> c < 16),
                forall|p: u8| p < value ==> (#[trigger] self@.positions.contains(p) <==> p < 16),
                forall|p: int| 0 <= p < value && p < 16 ==> #[trigger] self@.board[p] == EMPTY_CELL,
            decreases u8::MAX - value,
        {
            if self.available_pieces.contains(&value) != (value < NUM_PIECES) {
                assert(self@.pieces.contains(value) != start.pieces.contains(value));
                return false;
            }
            if self.available_positions.contains(&value) != (value < NUM_PIECES) {
                assert(self@.positions.contains(value) != start.positions.contains(value));
                return false;
            }
            if value < NUM_PIECES && cell_at(&self.board, value) != EMPTY_CELL {
                assert(self@.board[value as int] != start.board[value as int]);
                return false;
            }
            if value == u8::MAX {
                assert forall|c: u8| #[trigger] self@.pieces.contains(c) <==> c < 16 by {
                    assert(c < value || c == value);
                }
                assert forall|p: u8| #[trigger] self@.positions.contains(p) <==> p < 16 by {
                    assert(p < value || p == value);
                }
                assert(self@.pieces =~= start.pieces);
                assert(self@.positions =~= start.positions);
                assert(self@.board =~= start.board);
                return true;
            }
            value += 1;
        }
    }

    /// A fresh game.
    pub fn new() -> (state: Self)
        ensures
            state@ == GameModel::initial(),
            state@.wf(),
    {
        broadcast use vstd::std_specs::hash::group_hash_axioms;

        let mut available_pieces: HashSet<u8> = HashSet::new();
        let mut available_positions: HashSet<u8> = HashSet::new();
        let mut i: u8 = 0;
        while i < NUM_PIECES
            invariant
                i <= NUM_PIECES,
                available_pieces@ =~= Set::new(|c: u8| c < i),
                available_positions@ =~= Set::new(|p: u8| p < i),
            decreases NUM_PIECES - i,
        {
            available_pieces.insert(i);
            available_positions.insert(i);
            i += 1;
        }
        let state = Self {
            board: [[EMPTY_CELL; 4]; 4],
            current_piece: NO_PIECE,
            available_pieces,
            available_positions,
        };
        assert(state@.board =~= GameModel::initial().board);
        state
    }
}

} // verus!
