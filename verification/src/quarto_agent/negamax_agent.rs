//! The search-backed player: a heuristic evaluator and a negamax search of
//! bounded depth and breadth with alpha-beta pruning.

use super::game_tree::{
    candidate_pieces, candidates, evaluate, pairs, score_bound, search, search_from, threat_lines,
};
use super::search_laws::{lemma_pairs_index, lemma_threat_lines_step, search_returns_a_legal_move};
use super::{random_below, Agent};
use crate::quarto::game_model::{ascending, board_cells, lemma_ascending, GameModel};
use crate::quarto::quarto_game_state::{
    members_in_order, QuartoGameState, EMPTY_CELL, NO_PIECE, NO_POSITION, NUM_PIECES,
};
use crate::quarto::QuartoMove;
use crate::utils::{
    decimal_digits, decimal_text, is_game_over, is_terminal, line_of, matching_property_among,
    occupied, update_state, NUM_LINES,
};
use itertools::Itertools;
use vstd::prelude::*;

verus! {

/// Score of a position that is lost for the player to move. Its magnitude is
/// above every heuristic score.
pub const MIN_EVAL: i32 = -1000;

/// The bounds between which the agent searches.
pub const SEARCH_BOUND: i32 = 500;

/// A player that searches the game tree for its move.
pub struct NegamaxAgent {
    search_depth: u8,
    search_window: u8,
}

impl NegamaxAgent {
    /// Number of levels that the agent searches.
    pub closed spec fn depth(&self) -> u8 {
        self.search_depth
    }

    /// Number of moves that the agent looks at in one position.
    pub closed spec fn window(&self) -> u8 {
        self.search_window
    }

    /// The agent's name: the word `NegamaxAgent`, its depth and its window.
    pub open spec fn name(&self) -> Seq<char> {
        "NegamaxAgent-"@ + decimal_digits(self.depth() as nat) + "-"@ + decimal_digits(
            self.window() as nat,
        )
    }

    /// An agent that searches `search_depth` levels and looks at
    /// `search_window` moves in each position.
    pub fn new(search_depth: u8, search_window: u8) -> (agent: NegamaxAgent)
        ensures
            agent.depth() == search_depth,
            agent.window() == search_window,
    {
        NegamaxAgent { search_depth, search_window }
    }
}

impl Agent for NegamaxAgent {
    /// Any piece code.
    open spec fn may_open_with(&self, piece: u8) -> bool {
        piece < NUM_PIECES
    }

    /// The move that the search finds between `-SEARCH_BOUND` and
    /// `SEARCH_BOUND`, and no other.
    open spec fn may_choose(&self, state: GameModel, chosen: QuartoMove) -> bool {
        chosen == search(
            state,
            self.depth() as nat,
            self.window() as nat,
            -SEARCH_BOUND as int,
            SEARCH_BOUND as int,
        ).1
    }

    /// The agent's name, and no other.
    open spec fn may_be_named(&self, name: Seq<char>) -> bool {
        name == self.name()
    }

    /// A piece code drawn at random: with an empty board there is nothing
    /// to search.
    fn make_first_move(&self) -> (piece: u8)
        ensures
            piece < NUM_PIECES,
    {
        random_below(NUM_PIECES)
    }

    /// The move that the search finds between `-SEARCH_BOUND` and
    /// `SEARCH_BOUND`. An agent with a depth and a window of one or more
    /// finds a legal move on every board that is not won.
    fn make_move(&self, state: QuartoGameState) -> (player_move: QuartoMove)
        ensures
            player_move == search(
                state@,
                self.depth() as nat,
                self.window() as nat,
                -SEARCH_BOUND as int,
                SEARCH_BOUND as int,
            ).1,
            self.depth() >= 1 && self.window() >= 1 && !is_terminal(state@.board) ==> state@.legal(
                player_move.0,
                player_move.1,
            ),
    {
        proof {
            if self.depth() >= 1 && self.window() >= 1 && !is_terminal(state@.board) {
                search_returns_a_legal_move(
                    state@,
                    self.depth() as nat,
                    self.window() as nat,
                    -SEARCH_BOUND as int,
                    SEARCH_BOUND as int,
                );
            }
        }
        alpha_beta(state, self.search_depth, self.search_window, -SEARCH_BOUND, SEARCH_BOUND).1
    }

    fn get_name(&self) -> (name: String)
        ensures
            name@ == self.name(),
    {
        let mut name = String::from_str("NegamaxAgent-");
        name.append(decimal_text(self.search_depth as u128).as_str());
        name.append("-");
        name.append(decimal_text(self.search_window as u128).as_str());
        name
    }
}

/// The pieces on a line, in their order.
pub fn pieces_on(line: &[u8; 4]) -> (pieces: Vec<u8>)
    ensures
        pieces@ == occupied(line@),
{
    let mut pieces: Vec<u8> = Vec::new();
    let mut i: usize = 0;
    assert(line@.take(0) =~= Seq::<u8>::empty());
    while i < 4
        invariant
            i <= 4,
            pieces@ == occupied(line@.take(i as int)),
        decreases 4 - i,
    {
        proof {
            assert(line@.take(i + 1) =~= line@.take(i as int).push(line[i as int]));
            line@.take(i as int).lemma_filter_push(line[i as int], |c: u8| c != EMPTY_CELL);
        }
        if line[i] != EMPTY_CELL {
            pieces.push(line[i]);
        }
        i += 1;
    }
    assert(line@.take(4) =~= line@);
    pieces
}

/// Scores a board by its threats: the lines on which exactly three cells
/// hold a piece and the three pieces share an attribute. The score lies
/// between 0 and 10, below the magnitude of `MIN_EVAL`.
pub fn evaluation(board: [[u8; 4]; 4]) -> (num_lines: i32)
    ensures
        num_lines == evaluate(board_cells(board)),
        0 <= num_lines <= 10,
        num_lines < -MIN_EVAL,
{
    let mut num_lines: i32 = 0;
    let mut k: usize = 0;
    proof {
        lemma_threat_lines_step(board_cells(board), 0);
    }
    while k < NUM_LINES
        invariant
            k <= NUM_LINES,
            num_lines == threat_lines(board_cells(board), k as int).len(),
            0 <= num_lines <= k,
        decreases NUM_LINES - k,
    {
        let line = line_of(&board, k);
        let pieces = pieces_on(&line);
        proof {
            lemma_threat_lines_step(board_cells(board), k as int);
        }
        if pieces.len() == 3 && matching_property_among(pieces.as_slice()) {
            num_lines += 1;
        }
        k += 1;
    }
    num_lines
}

/// `Itertools::cartesian_product` on two lists of bytes, collected: every
/// item of `first` paired with every item of `second`, the pairs of one item
/// of `first` together and in the order of `second`.
#[verifier::external_body]
fn cartesian_product(first: &Vec<u8>, second: &Vec<u8>) -> (product: Vec<(u8, u8)>)
    ensures
        product@ == pairs(first@, second@),
{
    first.iter().cartesian_product(second.iter()).map(|(a, b)| (*a, *b)).collect()
}

/// Searches the game tree below `state` to `depth` levels, looking at no
/// more than `search_window` moves at a node, and returns the best score
/// found for the player to move together with the move that earns it.
///
/// The result is the value of [`search`] on the state's model: it depends on
/// nothing but the board, the pending piece, the two sets and the four
/// numbers.
pub fn alpha_beta(
    state: QuartoGameState,
    depth: u8,
    search_window: u8,
    alpha: i32,
    beta: i32,
) -> (result: (i32, QuartoMove))
    requires
        i32::MIN < alpha,
        i32::MIN < beta,
    ensures
        (result.0 as int, result.1) == search(
            state@,
            depth as nat,
            search_window as nat,
            alpha as int,
            beta as int,
        ),
        -score_bound(alpha as int, beta as int) <= result.0 <= score_bound(
            alpha as int,
            beta as int,
        ),
    decreases depth,
{
    if is_game_over(&state.board) {
        return (MIN_EVAL, QuartoMove(NO_POSITION, NO_PIECE));
    }
    if depth == 0 || state.available_positions.is_empty() {
        return (evaluation(state.board), QuartoMove(NO_POSITION, NO_PIECE));
    }
    let pieces = if state.available_pieces.is_empty() {
        vec![NO_PIECE]
    } else {
        members_in_order(&state.available_pieces)
    };
    let positions = members_in_order(&state.available_positions);
    let possible_moves = cartesian_product(&pieces, &positions);
    assert(pieces@ =~= candidate_pieces(state@));
    assert(possible_moves@ == candidates(state@));

    let ghost bound = score_bound(alpha as int, beta as int);
    let mut lower = alpha;
    let mut max_score = MIN_EVAL;
    let mut best_move = QuartoMove(NO_POSITION, NO_PIECE);
    let mut i: usize = 0;
    while i < possible_moves.len() && i < search_window as usize
        invariant
            depth > 0,
            i32::MIN < beta,
            possible_moves@ == candidates(state@),
            positions@ == ascending(state@.positions, NUM_PIECES as nat),
            possible_moves@ == pairs(pieces@, positions@),
            bound == score_bound(alpha as int, beta as int),
            bound <= i32::MAX,
            -bound <= lower <= bound,
            -bound <= max_score <= bound,
            search(state@, depth as nat, search_window as nat, alpha as int, beta as int)
                == search_from(
                state@,
                depth as nat,
                search_window as nat,
                i as nat,
                lower as int,
                beta as int,
                max_score as int,
                best_move,
            ),
        decreases possible_moves.len() - i,
    {
        let (next_piece, position) = possible_moves[i];
        proof {
            lemma_pairs_index(pieces@, positions@, i as int);
            lemma_ascending(state@.positions, NUM_PIECES as nat);
        }
        let mut next_state = state.duplicate();
        update_state(&mut next_state, position, next_piece);

        let reply = alpha_beta(next_state, depth - 1, search_window, -beta, -lower);
        let curr_eval = -reply.0;
        if i == 0 || curr_eval > max_score {
            max_score = curr_eval;
            best_move = QuartoMove(position, next_piece);
        }
        if lower < max_score {
            lower = max_score;
        }
        if lower > beta {
            return (lower, best_move);
        }
        i += 1;
    }
    (max_score, best_move)
}

} // verus!
