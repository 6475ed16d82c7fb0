//! The game tree as the search sees it: the heuristic score of a board, the
//! moves that are looked at and their order, the result of the search, and
//! the value of a position when nothing is cut off.

use super::negamax_agent::MIN_EVAL;
use crate::quarto::game_model::{ascending, GameModel};
use crate::quarto::quarto_game_state::{NO_PIECE, NO_POSITION, NUM_PIECES};
use crate::quarto::QuartoMove;
use crate::utils::{is_terminal, line_codes, occupied, shares_attribute, NUM_LINES};
use vstd::prelude::*;

verus! {

/// Line `k` is a threat: exactly three of its cells hold a piece, and the
/// three pieces share an attribute.
pub open spec fn line_threatens(cells: Seq<u8>, k: int) -> bool {
    occupied(line_codes(cells, k)).len() == 3 && shares_attribute(occupied(line_codes(cells, k)))
}

/// The threats among the first `n` lines.
pub open spec fn threat_lines(cells: Seq<u8>, n: int) -> Set<int> {
    Set::new(|k: int| 0 <= k < n && line_threatens(cells, k))
}

/// The heuristic score of a board: the number of its lines that are threats.
pub open spec fn evaluate(cells: Seq<u8>) -> int {
    threat_lines(cells, NUM_LINES as int).len() as int
}

/// Every pair of an item of `first` with an item of `second`: the pairs of
/// the first item of `first` come first, in the order of `second`.
pub open spec fn pairs(first: Seq<u8>, second: Seq<u8>) -> Seq<(u8, u8)> {
    Seq::new(
        first.len() * second.len(),
        |k: int| (first[k / (second.len() as int)], second[k % (second.len() as int)]),
    )
}

/// The pieces that a move may hand over: the free pieces in increasing
/// order, or `NO_PIECE` alone where none is free.
pub open spec fn candidate_pieces(m: GameModel) -> Seq<u8> {
    if m.pieces.is_empty() {
        seq![NO_PIECE]
    } else {
        ascending(m.pieces, NUM_PIECES as nat)
    }
}

/// The moves that the search looks at, as pairs of a piece to hand over and
/// a cell, in the order in which it looks at them: piece by piece, and for
/// each piece cell by cell, both in increasing order.
pub open spec fn candidates(m: GameModel) -> Seq<(u8, u8)> {
    pairs(candidate_pieces(m), ascending(m.positions, NUM_PIECES as nat))
}

/// The move that places nothing.
pub open spec fn null_move() -> QuartoMove {
    QuartoMove(NO_POSITION, NO_PIECE)
}

/// The largest magnitude that a score of a search between `alpha` and `beta`
/// can have.
pub open spec fn score_bound(alpha: int, beta: int) -> int {
    let a = if alpha < 0 {
        -alpha
    } else {
        alpha
    };
    let b = if beta < 0 {
        -beta
    } else {
        beta
    };
    let c = if a < b {
        b
    } else {
        a
    };
    if c < -MIN_EVAL {
        -MIN_EVAL as int
    } else {
        c
    }
}

/// The result of the search: a score from the point of view of the player to
/// move, and the move that earned it.
///
/// A board that is won was won by the opponent's last move, so it scores
/// `MIN_EVAL`. At depth zero, or with no free cell, the board's heuristic
/// score stands. Else the first `window` candidates are played in turn, and
/// each is scored by the negated result of the search one level down, between
/// `-beta` and `-alpha`.
///
/// The candidates beyond the window are never looked at, and the candidates
/// are not put in any order of promise before they are cut off. So the
/// search is a heuristic by intent: it may miss the best move.
pub open spec fn search(m: GameModel, depth: nat, window: nat, alpha: int, beta: int) -> (
    int,
    QuartoMove,
)
    decreases depth, 1nat, 0nat,
{
    if is_terminal(m.board) {
        (MIN_EVAL as int, null_move())
    } else if depth == 0 || m.positions.is_empty() {
        (evaluate(m.board), null_move())
    } else {
        search_from(m, depth, window, 0, alpha, beta, MIN_EVAL as int, null_move())
    }
}

/// The search at one node from candidate number `next` on, where
/// `best_score` and `best_move` are the best found among the candidates
/// before it and `alpha` is the lower bound raised by them.
///
/// A candidate replaces the best one only with a strictly higher score, so
/// that of equal scores the first stays. Once the lower bound is above
/// `beta` the search stops and returns the bound.
pub open spec fn search_from(
    m: GameModel,
    depth: nat,
    window: nat,
    next: nat,
    alpha: int,
    beta: int,
    best_score: int,
    best_move: QuartoMove,
) -> (int, QuartoMove)
    decreases depth, 0nat, candidates(m).len() - next,
{
    let moves = candidates(m);
    if depth == 0 || next >= moves.len() || next >= window {
        (best_score, best_move)
    } else {
        let (piece, position) = moves[next as int];
        let reply = search(m.apply(position, piece), (depth - 1) as nat, window, -beta, -alpha);
        let score = -reply.0;
        let improves = next == 0 || score > best_score;
        let best_score = if improves {
            score
        } else {
            best_score
        };
        let best_move = if improves {
            QuartoMove(position, piece)
        } else {
            best_move
        };
        let alpha = if alpha < best_score {
            best_score
        } else {
            alpha
        };
        if alpha > beta {
            (alpha, best_move)
        } else {
            search_from(m, depth, window, next + 1, alpha, beta, best_score, best_move)
        }
    }
}

/// The scores that a search can return: `MIN_EVAL` for a lost position, its
/// negation for a won one, and the heuristic scores and their negations.
pub open spec fn is_score(score: int) -> bool {
    score == MIN_EVAL || score == -MIN_EVAL || -10 <= score <= 10
}

/// The position that candidate number `k` leads to.
pub open spec fn child(m: GameModel, k: int) -> GameModel {
    m.apply(candidates(m)[k].1, candidates(m)[k].0)
}

/// Candidate number `k`, as the move that the search returns for it.
pub open spec fn candidate_move(m: GameModel, k: int) -> QuartoMove {
    QuartoMove(candidates(m)[k].1, candidates(m)[k].0)
}

/// The value of a position for the player to move when nothing is cut off:
/// a won board is lost, at depth zero or with no free cell the heuristic
/// score stands, and else the value is the largest of the negated values of
/// the positions that the candidates lead to.
pub open spec fn negamax(m: GameModel, depth: nat) -> int
    decreases depth, 1nat, 0nat,
{
    if is_terminal(m.board) {
        MIN_EVAL as int
    } else if depth == 0 || m.positions.is_empty() {
        evaluate(m.board)
    } else {
        best_reply(m, depth, 0, MIN_EVAL as int)
    }
}

/// The largest of `best` and the negated values of the positions that the
/// candidates from number `next` on lead to. With `next` zero, `best` does
/// not count.
pub open spec fn best_reply(m: GameModel, depth: nat, next: nat, best: int) -> int
    decreases depth, 0nat, candidates(m).len() - next,
{
    if depth == 0 || next >= candidates(m).len() {
        best
    } else {
        let score = -negamax(child(m, next as int), (depth - 1) as nat);
        best_reply(
            m,
            depth,
            next + 1,
            if next == 0 || score > best {
                score
            } else {
                best
            },
        )
    }
}

/// A state that the search is meant for: well-formed, with a piece pending
/// unless the board is full.
pub open spec fn searchable(m: GameModel) -> bool {
    m.wf() && (m.current_piece != NO_PIECE || m.positions.is_empty())
}

/// Number of candidates that a state with a pending piece can have at most:
/// fifteen pieces on sixteen cells.
pub const MAX_CANDIDATES: u8 = 240;

/// How a score found between `alpha` and `beta` stands to a value: within
/// the bounds it is the value, below them it is no less than the value, and
/// above them no more.
pub open spec fn bounds_value(found: int, value: int, alpha: int, beta: int) -> bool {
    &&& alpha <= found <= beta ==> value == found
    &&& found < alpha ==> value <= found
    &&& found > beta ==> value >= found
}

} // verus!
