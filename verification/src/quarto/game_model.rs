//! What a game state means, and what holds of it: the rules of the game on
//! the mathematical model of a state.

use super::quarto_game_state::{EMPTY_CELL, NO_PIECE, NUM_PIECES};
use crate::quarto::QuartoMove;
use vstd::prelude::*;

verus! {

/// The sixteen cells of a board in row-major order: cell `p` lies in row
/// `p / 4` and column `p % 4`.
pub open spec fn board_cells(board: [[u8; 4]; 4]) -> Seq<u8> {
    Seq::new(16, |p: int| board[p / 4][p % 4])
}

/// The members of `set` below `bound`, in increasing order.
pub open spec fn ascending(set: Set<u8>, bound: nat) -> Seq<u8>
    decreases bound,
{
    if bound == 0 {
        Seq::empty()
    } else {
        let below = ascending(set, (bound - 1) as nat);
        if set.contains((bound - 1) as u8) {
            below.push((bound - 1) as u8)
        } else {
            below
        }
    }
}

/// What `ascending` lists: members of the set below the bound, each of
/// them, in strictly increasing order.
pub proof fn lemma_ascending(set: Set<u8>, bound: nat)
    requires
        bound <= 256,
    ensures
        ascending(set, bound).len() <= bound,
        forall|i: int|
            0 <= i < ascending(set, bound).len() ==> (#[trigger] ascending(set, bound)[i]) < bound
                && set.contains(ascending(set, bound)[i]),
        forall|i: int, j: int|
            0 <= i < j < ascending(set, bound).len() ==> (#[trigger] ascending(set, bound)[i])
                < (#[trigger] ascending(set, bound)[j]),
        forall|member: u8|
            member < bound && set.contains(member) ==> #[trigger] ascending(set, bound).contains(
                member,
            ),
    decreases bound,
{
    if bound > 0 {
        let below = ascending(set, (bound - 1) as nat);
        let all = ascending(set, bound);
        lemma_ascending(set, (bound - 1) as nat);
        assert forall|member: u8| member < bound && set.contains(member) implies #[trigger] all.contains(
            member,
        ) by {
            if member < bound - 1 {
                assert(below.contains(member));
                let i = choose|i: int| 0 <= i < below.len() && below[i] == member;
                assert(all[i] == member);
            } else {
                assert(all[all.len() - 1] == member);
            }
        }
    }
}

/// Whether `member` is the least member of `set`.
pub open spec fn is_least(set: Set<u8>, member: u8) -> bool {
    set.contains(member) && forall|other: u8| set.contains(other) ==> member <= other
}

/// What a game state means: the cells in row-major order, the pending piece
/// and the two sets.
pub struct GameModel {
    pub board: Seq<u8>,
    pub current_piece: u8,
    pub pieces: Set<u8>,
    pub positions: Set<u8>,
}

impl GameModel {
    /// The state before anything is chosen: an empty board, nothing pending,
    /// every piece and every cell free.
    pub open spec fn initial() -> GameModel {
        GameModel {
            board: Seq::new(16, |p: int| EMPTY_CELL),
            current_piece: NO_PIECE,
            pieces: Set::new(|c: u8| c < NUM_PIECES),
            positions: Set::new(|p: u8| p < NUM_PIECES),
        }
    }

    /// The cells that hold a piece.
    pub open spec fn occupied_cells(self) -> Set<int> {
        Set::new(|p: int| 0 <= p < self.board.len() && self.board[p] != EMPTY_CELL)
    }

    /// Number of cells that hold a piece.
    pub open spec fn placed_count(self) -> nat {
        self.occupied_cells().len()
    }

    /// The invariant of a game state: the board holds piece codes and empty
    /// markers, no piece lies on it twice, the pending piece is not on it,
    /// the free cells are exactly the empty ones and the free pieces are
    /// exactly those neither placed nor pending.
    pub open spec fn wf(self) -> bool {
        &&& self.board.len() == 16
        &&& self.current_piece <= NO_PIECE
        &&& forall|p: int| 0 <= p < 16 ==> #[trigger] self.board[p] <= EMPTY_CELL
        &&& forall|p: int, q: int|
            0 <= p < q < 16 && self.board[p] != EMPTY_CELL ==> #[trigger] self.board[p]
                != #[trigger] self.board[q]
        &&& self.current_piece != NO_PIECE ==> !self.board.contains(self.current_piece)
        &&& forall|p: u8| #[trigger]
            self.positions.contains(p) <==> p < 16 && self.board[p as int] == EMPTY_CELL
        &&& forall|c: u8| #[trigger]
            self.pieces.contains(c) <==> c < 16 && c != self.current_piece
                && !self.board.contains(c)
    }

    /// The opening: `piece` becomes the pending piece and stops being free.
    /// Nothing is placed.
    pub open spec fn choose_opening_piece(self, piece: u8) -> GameModel {
        GameModel { current_piece: piece, pieces: self.pieces.remove(piece), ..self }
    }

    /// One move: the pending piece goes to `position`, and `next_piece`
    /// becomes the pending piece.
    pub open spec fn apply(self, position: u8, next_piece: u8) -> GameModel {
        GameModel {
            board: self.board.update(position as int, self.current_piece),
            current_piece: next_piece,
            pieces: self.pieces.remove(next_piece),
            positions: self.positions.remove(position),
        }
    }

    /// A state in which a piece waits to be placed.
    pub open spec fn in_play(self) -> bool {
        self.wf() && self.current_piece != NO_PIECE
    }

    /// Whether a player's move can be played: its cell is free, and so is the
    /// piece that it hands over.
    pub open spec fn can_play(self, chosen: QuartoMove) -> bool {
        self.pieces.contains(chosen.1) && self.positions.contains(chosen.0)
    }

    /// Whether `(position, next_piece)` may be played: the cell is free, and
    /// the piece handed over is free, or is `NO_PIECE` when none is left.
    pub open spec fn legal(self, position: u8, next_piece: u8) -> bool {
        &&& self.positions.contains(position)
        &&& if self.pieces.is_empty() {
            next_piece == NO_PIECE
        } else {
            self.pieces.contains(next_piece)
        }
    }
}

impl GameModel {
    /// Every set of bytes is finite.
    pub proof fn lemma_finite(s: Set<u8>)
        ensures
            s.finite(),
    {
        broadcast use vstd::set_lib::full_set_properties;

        assert(Set::<u8>::full().finite());
        vstd::set_lib::lemma_set_subset_finite(Set::<u8>::full(), s);
    }

    /// What a legal move does to a state in play: the state stays
    /// well-formed, exactly one cell and at most one piece stop being free,
    /// and exactly one more piece lies on the board.
    pub proof fn apply_legal(self, position: u8, next_piece: u8)
        requires
            self.in_play(),
            self.legal(position, next_piece),
        ensures
            self.apply(position, next_piece).wf(),
            self.apply(position, next_piece).positions.len() == self.positions.len() - 1,
            self.apply(position, next_piece).pieces.len() == self.pieces.len() - (if next_piece
                == NO_PIECE {
                0int
            } else {
                1int
            }),
            self.apply(position, next_piece).placed_count() == self.placed_count() + 1,
    {
        let after = self.apply(position, next_piece);
        Self::lemma_finite(self.positions);
        Self::lemma_finite(self.pieces);
        assert(!self.pieces.contains(NO_PIECE));
        if next_piece == NO_PIECE {
            assert(after.pieces =~= self.pieces);
        }
        assert forall|i: int| 0 <= i < 16 implies #[trigger] after.board[i] == self.board[i]
            || (i == position && after.board[i] == self.current_piece) by {}
        assert(!after.board.contains(next_piece) || next_piece == NO_PIECE) by {
            if next_piece != NO_PIECE && after.board.contains(next_piece) {
                let i = choose|i: int| 0 <= i < 16 && after.board[i] == next_piece;
                assert(self.pieces.contains(next_piece));
                assert(self.board[i] == next_piece || next_piece == self.current_piece);
            }
        }
        assert forall|c: u8| #[trigger]
            after.pieces.contains(c) <==> c < 16 && c != after.current_piece
                && !after.board.contains(c) by {
            if after.pieces.contains(c) {
                assert(self.pieces.contains(c));
                if after.board.contains(c) {
                    let i = choose|i: int| 0 <= i < 16 && after.board[i] == c;
                    assert(self.board[i] == c || c == self.current_piece);
                }
            }
            if c < 16 && c != after.current_piece && !after.board.contains(c) {
                assert(after.board[position as int] == self.current_piece);
                if self.board.contains(c) {
                    let i = choose|i: int| 0 <= i < 16 && self.board[i] == c;
                    assert(after.board[i] == c);
                }
                assert(self.pieces.contains(c));
            }
        }
        assert forall|p: int, q: int|
            0 <= p < q < 16 && after.board[p] != EMPTY_CELL implies #[trigger] after.board[p]
            != #[trigger] after.board[q] by {
            assert(self.board[p] <= EMPTY_CELL && self.board[q] <= EMPTY_CELL);
        }
        assert(after.wf());
        vstd::set_lib::lemma_int_range(0, 16);
        vstd::set_lib::lemma_set_subset_finite(
            vstd::set_lib::set_int_range(0, 16),
            self.occupied_cells(),
        );
        assert(after.occupied_cells() =~= self.occupied_cells().insert(position as int));
    }
}

impl GameModel {
    /// The free cells among the first `n`.
    spec fn free_below(self, n: int) -> Set<u8> {
        Set::new(|p: u8| p < n && self.board[p as int] == EMPTY_CELL)
    }

    /// The pieces that lie on the first `n` cells.
    spec fn placed_below(self, n: int) -> Set<u8> {
        Set::new(|c: u8| c < NUM_PIECES && exists|q: int| 0 <= q < n && self.board[q] == c)
    }

    proof fn lemma_cells_are_free_or_hold_a_piece(self, n: int)
        requires
            self.wf(),
            0 <= n <= 16,
        ensures
            self.free_below(n).len() + self.placed_below(n).len() == n,
        decreases n,
    {
        Self::lemma_finite(self.free_below(n));
        Self::lemma_finite(self.placed_below(n));
        if n == 0 {
            assert(self.free_below(0) =~= Set::<u8>::empty());
            assert(self.placed_below(0) =~= Set::<u8>::empty());
        } else {
            let last = (n - 1) as u8;
            self.lemma_cells_are_free_or_hold_a_piece(n - 1);
            Self::lemma_finite(self.free_below(n - 1));
            Self::lemma_finite(self.placed_below(n - 1));
            let code = self.board[n - 1];
            if code == EMPTY_CELL {
                assert(self.free_below(n) =~= self.free_below(n - 1).insert(last));
                assert(self.placed_below(n) =~= self.placed_below(n - 1));
            } else {
                assert(self.free_below(n) =~= self.free_below(n - 1));
                assert(self.placed_below(n - 1).insert(code) =~= self.placed_below(n)) by {
                    assert forall|c: u8| self.placed_below(n).contains(c)
                        implies #[trigger] self.placed_below(n - 1).insert(code).contains(c) by {
                        let q = choose|q: int| 0 <= q < n && self.board[q] == c;
                        if q < n - 1 {
                            assert(self.placed_below(n - 1).contains(c));
                        }
                    }
                    assert(self.board[n - 1] == code);
                }
                assert(!self.placed_below(n - 1).contains(code)) by {
                    if self.placed_below(n - 1).contains(code) {
                        let q = choose|q: int| 0 <= q < n - 1 && self.board[q] == code;
                        assert(self.board[q] != self.board[n - 1]);
                    }
                }
            }
        }
    }

    /// In a well-formed state the free pieces, with the pending piece if
    /// there is one, are as many as the free cells: every piece that is not
    /// on the board has a cell to go to.
    pub proof fn free_pieces_match_free_cells(self)
        requires
            self.wf(),
        ensures
            self.pieces.finite(),
            self.positions.finite(),
            self.pieces.len() + (if self.current_piece == NO_PIECE {
                0int
            } else {
                1int
            }) == self.positions.len(),
            self.positions.len() + self.placed_count() == 16,
    {
        broadcast use vstd::set_lib::range_set_properties;

        self.lemma_cells_are_free_or_hold_a_piece(16);
        let placed = self.placed_below(16);
        let pending = if self.current_piece == NO_PIECE {
            Set::<u8>::empty()
        } else {
            Set::<u8>::empty().insert(self.current_piece)
        };
        Self::lemma_finite(self.pieces);
        Self::lemma_finite(self.positions);
        Self::lemma_finite(placed);
        assert(self.free_below(16) =~= self.positions);
        assert forall|c: u8| placed.contains(c) <==> c < 16 && self.board.contains(c) by {
            if placed.contains(c) {
                let q = choose|q: int| 0 <= q < 16 && self.board[q] == c;
                assert(self.board[q] == c);
            }
            if c < 16 && self.board.contains(c) {
                let q = choose|q: int| 0 <= q < self.board.len() && self.board[q] == c;
                assert(self.board[q] == c);
            }
        }
        let taken = placed + pending;
        assert(placed.disjoint(pending));
        vstd::set_lib::lemma_set_disjoint_lens(placed, pending);
        assert(self.pieces.disjoint(taken));
        vstd::set_lib::lemma_set_disjoint_lens(self.pieces, taken);
        assert(self.pieces + taken =~= Set::<u8>::range(0, NUM_PIECES));

        let cells = vstd::set_lib::set_int_range(0, 16);
        vstd::set_lib::lemma_int_range(0, 16);
        let free = self.positions.map(|p: u8| p as int);
        assert(free + self.occupied_cells() =~= cells) by {
            assert forall|p: int| cells.contains(p) implies #[trigger] (free
                + self.occupied_cells()).contains(p) by {
                if self.board[p] == EMPTY_CELL {
                    assert(self.positions.contains(p as u8));
                    assert(free.contains((p as u8) as int));
                }
            }
        }
        assert(free.disjoint(self.occupied_cells()));
        vstd::set_lib::lemma_set_subset_finite(cells, free);
        vstd::set_lib::lemma_set_subset_finite(cells, self.occupied_cells());
        vstd::set_lib::lemma_set_disjoint_lens(free, self.occupied_cells());
        vstd::set_lib::lemma_map_size(self.positions, free, |p: u8| p as int);
    }
}

impl GameModel {
    /// The state after the moves of `moves` were played in their order.
    pub open spec fn play(self, moves: Seq<QuartoMove>) -> GameModel
        decreases moves.len(),
    {
        if moves.len() == 0 {
            self
        } else {
            self.play(moves.drop_last()).apply(moves.last().0, moves.last().1)
        }
    }

    /// Every move of `moves` is legal in the state in which it is played.
    pub open spec fn all_legal(self, moves: Seq<QuartoMove>) -> bool
        decreases moves.len(),
    {
        moves.len() == 0 || (self.all_legal(moves.drop_last()) && self.play(
            moves.drop_last(),
        ).legal(moves.last().0, moves.last().1))
    }

    /// The fresh state is well-formed and holds sixteen free pieces and
    /// sixteen free cells. With an opening piece chosen it is in play, and
    /// fifteen pieces are left.
    pub proof fn opening_is_in_play(piece: u8)
        requires
            piece < NUM_PIECES,
        ensures
            Self::initial().wf(),
            Self::initial().pieces.len() == 16,
            Self::initial().positions.len() == 16,
            Self::initial().choose_opening_piece(piece).in_play(),
            Self::initial().choose_opening_piece(piece).pieces.len() == 15,
            Self::initial().choose_opening_piece(piece).positions.len() == 16,
    {
        broadcast use vstd::set_lib::range_set_properties;

        let fresh = Self::initial();
        assert(fresh.pieces =~= Set::<u8>::range(0, NUM_PIECES));
        assert(fresh.positions =~= Set::<u8>::range(0, NUM_PIECES));
        assert(fresh.wf());
        assert(fresh.choose_opening_piece(piece).wf());
    }

    proof fn lemma_game_progress(opening: u8, moves: Seq<QuartoMove>)
        requires
            opening < NUM_PIECES,
            moves.len() <= 16,
            Self::initial().choose_opening_piece(opening).all_legal(moves),
        ensures
            ({
                let now = Self::initial().choose_opening_piece(opening).play(moves);
                &&& now.wf()
                &&& now.positions.len() == 16 - moves.len()
                &&& now.pieces.len() == (if moves.len() == 16 {
                    0int
                } else {
                    15 - moves.len()
                })
                &&& now.current_piece == NO_PIECE <==> moves.len() == 16
            }),
        decreases moves.len(),
    {
        let start = Self::initial().choose_opening_piece(opening);
        Self::opening_is_in_play(opening);
        if moves.len() > 0 {
            let before = start.play(moves.drop_last());
            Self::lemma_game_progress(opening, moves.drop_last());
            Self::lemma_finite(before.pieces);
            before.apply_legal(moves.last().0, moves.last().1);
            if moves.len() == 16 {
                assert(before.pieces.is_empty());
            } else {
                assert(!before.pieces.is_empty());
                assert(before.pieces.contains(moves.last().1));
            }
        }
    }

    /// A whole game fills the board: after the opening piece is chosen and
    /// sixteen legal moves are played, of which the last can only hand over
    /// `NO_PIECE`, no piece and no cell is free and every cell holds a
    /// piece.
    pub proof fn full_game_fills_the_board(opening: u8, moves: Seq<QuartoMove>)
        requires
            opening < NUM_PIECES,
            moves.len() == 16,
            Self::initial().choose_opening_piece(opening).all_legal(moves),
        ensures
            ({
                let end = Self::initial().choose_opening_piece(opening).play(moves);
                &&& end.wf()
                &&& end.pieces.is_empty()
                &&& end.positions.is_empty()
                &&& end.current_piece == NO_PIECE
                &&& forall|p: int| 0 <= p < 16 ==> #[trigger] end.board[p] != EMPTY_CELL
            }),
    {
        let end = Self::initial().choose_opening_piece(opening).play(moves);
        Self::lemma_game_progress(opening, moves);
        Self::lemma_finite(end.pieces);
        Self::lemma_finite(end.positions);
        assert forall|p: int| 0 <= p < 16 implies #[trigger] end.board[p] != EMPTY_CELL by {
            assert(!end.positions.contains(p as u8));
        }
    }
}

} // verus!
