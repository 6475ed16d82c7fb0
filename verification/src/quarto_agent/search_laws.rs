//! What holds of the search: the range of its scores, that its moves are
//! legal, that it finds a win within reach, and that pruning loses nothing.

use super::game_tree::{
    best_reply, bounds_value, candidate_move, candidate_pieces, candidates, child, evaluate,
    is_score, line_threatens, negamax, null_move, pairs, search, search_from, searchable,
    threat_lines, MAX_CANDIDATES,
};
use super::negamax_agent::MIN_EVAL;
use crate::quarto::game_model::{ascending, lemma_ascending, GameModel};
use crate::quarto::quarto_game_state::{QuartoGameState, NO_PIECE, NUM_PIECES};
use crate::quarto::QuartoMove;
use crate::utils::{is_terminal, NUM_LINES};
use vstd::prelude::*;

verus! {

/// The threats among the first lines are finitely many, and one line more
/// adds one threat or none.
pub proof fn lemma_threat_lines_step(cells: Seq<u8>, n: int)
    requires
        0 <= n,
    ensures
        threat_lines(cells, n).finite(),
        threat_lines(cells, n).len() <= n,
        threat_lines(cells, n + 1).len() == threat_lines(cells, n).len() + (if line_threatens(
            cells,
            n,
        ) {
            1int
        } else {
            0int
        }),
    decreases n,
{
    if n == 0 {
        assert(threat_lines(cells, 0) =~= Set::<int>::empty());
    } else {
        lemma_threat_lines_step(cells, n - 1);
        if line_threatens(cells, n - 1) {
            assert(threat_lines(cells, n) =~= threat_lines(cells, n - 1).insert(n - 1));
        } else {
            assert(threat_lines(cells, n) =~= threat_lines(cells, n - 1));
        }
    }
    if line_threatens(cells, n) {
        assert(threat_lines(cells, n + 1) =~= threat_lines(cells, n).insert(n));
    } else {
        assert(threat_lines(cells, n + 1) =~= threat_lines(cells, n));
    }
}

/// Where pair number `k` comes from: the item of `first` at `k` divided by
/// the length of `second`, and the item of `second` at the remainder.
pub proof fn lemma_pairs_index(first: Seq<u8>, second: Seq<u8>, k: int)
    requires
        0 <= k < pairs(first, second).len(),
    ensures
        0 <= k / (second.len() as int) < first.len(),
        0 <= k % (second.len() as int) < second.len(),
        pairs(first, second)[k] == (
            first[k / (second.len() as int)],
            second[k % (second.len() as int)],
        ),
{
    let n = second.len() as int;
    let a = first.len() as int;
    assert(n > 0) by (nonlinear_arith)
        requires
            0 <= k < a * n,
            0 <= a,
            0 <= n,
    ;
    vstd::arithmetic::div_mod::lemma_fundamental_div_mod(k, n);
    vstd::arithmetic::div_mod::lemma_mod_bound(k, n);
    assert(0 <= k / n < a) by (nonlinear_arith)
        requires
            0 <= k < a * n,
            n > 0,
            k == n * (k / n) + k % n,
            0 <= k % n < n,
    ;
}

/// The heuristic score lies between 0 and 10, so that the magnitude of
/// `MIN_EVAL` is above it: a loss that the search has seen outweighs every
/// heuristic score.
pub proof fn evaluate_is_bounded(cells: Seq<u8>)
    ensures
        0 <= evaluate(cells) <= 10,
        evaluate(cells) < -MIN_EVAL,
{
    lemma_threat_lines_step(cells, NUM_LINES as int);
}

/// The search depends on nothing but what the state means: two states with
/// the same board, the same pending piece and the same members in their
/// sets give the same score and the same move, however their sets are laid
/// out in memory.
pub proof fn search_is_deterministic(
    first: QuartoGameState,
    second: QuartoGameState,
    depth: u8,
    window: u8,
    alpha: i32,
    beta: i32,
)
    requires
        first.board == second.board,
        first.current_piece == second.current_piece,
        first.available_pieces@ == second.available_pieces@,
        first.available_positions@ == second.available_positions@,
    ensures
        search(first@, depth as nat, window as nat, alpha as int, beta as int) == search(
            second@,
            depth as nat,
            window as nat,
            alpha as int,
            beta as int,
        ),
{
}

/// Between bounds in their order, a search returns `MIN_EVAL`, its negation,
/// a heuristic score or the negation of one.
pub proof fn search_returns_a_score(m: GameModel, depth: nat, window: nat, alpha: int, beta: int)
    requires
        alpha <= beta,
    ensures
        is_score(search(m, depth, window, alpha, beta).0),
    decreases depth, 1nat, 0nat,
{
    evaluate_is_bounded(m.board);
    if !is_terminal(m.board) && depth != 0 && !m.positions.is_empty() {
        lemma_search_from_returns_a_score(
            m,
            depth,
            window,
            0,
            alpha,
            beta,
            MIN_EVAL as int,
            null_move(),
        );
    }
}

proof fn lemma_search_from_returns_a_score(
    m: GameModel,
    depth: nat,
    window: nat,
    next: nat,
    alpha: int,
    beta: int,
    best_score: int,
    best_move: QuartoMove,
)
    requires
        alpha <= beta,
        is_score(best_score),
    ensures
        is_score(search_from(m, depth, window, next, alpha, beta, best_score, best_move).0),
    decreases depth, 0nat, candidates(m).len() - next,
{
    let moves = candidates(m);
    if !(depth == 0 || next >= moves.len() || next >= window) {
        let (piece, position) = moves[next as int];
        search_returns_a_score(
            m.apply(position, piece),
            (depth - 1) as nat,
            window,
            -beta,
            -alpha,
        );
        let score = -search(m.apply(position, piece), (depth - 1) as nat, window, -beta, -alpha).0;
        let improves = next == 0 || score > best_score;
        let best_score = if improves {
            score
        } else {
            best_score
        };
        let best_move = if improves {
            QuartoMove(position, piece)
        } else {
            best_move
        };
        let alpha = if alpha < best_score {
            best_score
        } else {
            alpha
        };
        if alpha <= beta {
            lemma_search_from_returns_a_score(
                m,
                depth,
                window,
                next + 1,
                alpha,
                beta,
                best_score,
                best_move,
            );
        }
    }
}

proof fn lemma_win_is_kept(
    m: GameModel,
    depth: nat,
    window: nat,
    next: nat,
    alpha: int,
    beta: int,
    best_move: QuartoMove,
)
    requires
        alpha <= beta,
        next > 0,
    ensures
        search_from(m, depth, window, next, alpha, beta, -MIN_EVAL as int, best_move) == (
            -MIN_EVAL as int,
            best_move,
        ),
    decreases candidates(m).len() - next,
{
    let moves = candidates(m);
    if !(depth == 0 || next >= moves.len() || next >= window) {
        let (piece, position) = moves[next as int];
        search_returns_a_score(
            m.apply(position, piece),
            (depth - 1) as nat,
            window,
            -beta,
            -alpha,
        );
        let raised = if alpha < -MIN_EVAL {
            -MIN_EVAL as int
        } else {
            alpha
        };
        if raised <= beta {
            lemma_win_is_kept(m, depth, window, next + 1, raised, beta, best_move);
        }
    }
}

proof fn lemma_search_from_keeps_the_best(
    m: GameModel,
    depth: nat,
    window: nat,
    next: nat,
    alpha: int,
    beta: int,
    best_score: int,
    best_move: QuartoMove,
)
    requires
        next > 0,
    ensures
        search_from(m, depth, window, next, alpha, beta, best_score, best_move).0 >= best_score,
    decreases candidates(m).len() - next,
{
    let moves = candidates(m);
    if !(depth == 0 || next >= moves.len() || next >= window) {
        let (piece, position) = moves[next as int];
        let score = -search(m.apply(position, piece), (depth - 1) as nat, window, -beta, -alpha).0;
        let new_score = if score > best_score {
            score
        } else {
            best_score
        };
        let new_move = if score > best_score {
            QuartoMove(position, piece)
        } else {
            best_move
        };
        let raised = if alpha < new_score {
            new_score
        } else {
            alpha
        };
        if raised <= beta {
            lemma_search_from_keeps_the_best(
                m,
                depth,
                window,
                next + 1,
                raised,
                beta,
                new_score,
                new_move,
            );
        }
    }
}

proof fn lemma_no_loss_one_level_down(m: GameModel, window: nat, alpha: int, beta: int)
    requires
        searchable(m),
        !is_terminal(m.board),
        window >= 1,
    ensures
        search(m, 1, window, alpha, beta).0 >= -10,
{
    evaluate_is_bounded(m.board);
    if !m.positions.is_empty() {
        let cells = ascending(m.positions, NUM_PIECES as nat);
        let pieces = candidate_pieces(m);
        lemma_ascending(m.positions, NUM_PIECES as nat);
        lemma_ascending(m.pieces, NUM_PIECES as nat);
        let free = choose|p: u8| m.positions.contains(p);
        assert(cells.contains(free));
        if !m.pieces.is_empty() {
            let piece = choose|c: u8| m.pieces.contains(c);
            assert(pieces.contains(piece));
        }
        assert(candidates(m).len() >= 1) by (nonlinear_arith)
            requires
                candidates(m).len() == pieces.len() * cells.len(),
                pieces.len() >= 1,
                cells.len() >= 1,
        ;
        let (piece, position) = candidates(m)[0];
        let after = m.apply(position, piece);
        evaluate_is_bounded(after.board);
        let score = -search(after, 0, window, -beta, -alpha).0;
        assert(score >= -10);
        let raised = if alpha < score {
            score
        } else {
            alpha
        };
        if raised <= beta {
            lemma_search_from_keeps_the_best(
                m,
                1,
                window,
                1,
                raised,
                beta,
                score,
                QuartoMove(position, piece),
            );
        }
    }
}

proof fn lemma_win_is_reached(
    m: GameModel,
    depth: nat,
    window: nat,
    next: nat,
    alpha: int,
    beta: int,
    best_score: int,
    best_move: QuartoMove,
    k: int,
)
    requires
        depth >= 1,
        next <= k < candidates(m).len(),
        k < window,
        is_terminal(child(m, k).board),
        alpha <= beta,
        10 <= beta,
        is_score(best_score),
    ensures
        search_from(m, depth, window, next, alpha, beta, best_score, best_move).0 == -MIN_EVAL,
        (depth == 1 || (depth == 2 && searchable(m))) && (next == 0 || best_score < -MIN_EVAL) && (
        forall|j: int| next <= j < k ==> !is_terminal(#[trigger] child(m, j).board))
            ==> search_from(m, depth, window, next, alpha, beta, best_score, best_move).1
            == candidate_move(m, k),
    decreases k - next,
{
    let moves = candidates(m);
    let (piece, position) = moves[next as int];
    let after = m.apply(position, piece);
    assert(after == child(m, next as int));
    search_returns_a_score(after, (depth - 1) as nat, window, -beta, -alpha);
    evaluate_is_bounded(after.board);
    let score = -search(after, (depth - 1) as nat, window, -beta, -alpha).0;
    let improves = next == 0 || score > best_score;
    let new_score = if improves {
        score
    } else {
        best_score
    };
    let new_move = if improves {
        QuartoMove(position, piece)
    } else {
        best_move
    };
    let raised = if alpha < new_score {
        new_score
    } else {
        alpha
    };
    if next == k {
        assert(score == -MIN_EVAL);
        assert(new_score == -MIN_EVAL);
        if raised <= beta {
            lemma_win_is_kept(m, depth, window, next + 1, raised, beta, new_move);
        }
    } else {
        if depth == 2 && searchable(m) && !is_terminal(after.board) {
            lemma_child_is_searchable(m, next as int);
            lemma_no_loss_one_level_down(after, window, -beta, -alpha);
        }
        if raised <= beta {
            lemma_win_is_reached(
                m,
                depth,
                window,
                next + 1,
                raised,
                beta,
                new_score,
                new_move,
                k,
            );
        }
    }
}

/// On a well-formed state the candidates are the moves that may be played,
/// each of them once: every free piece with every free cell, or `NO_PIECE`
/// with every free cell where no piece is free.
pub proof fn candidates_are_the_legal_moves(m: GameModel)
    requires
        m.wf(),
    ensures
        forall|piece: u8, position: u8| #[trigger]
            candidates(m).contains((piece, position)) <==> m.legal(position, piece),
        candidates(m).no_duplicates(),
{
    let pieces = candidate_pieces(m);
    let cells = ascending(m.positions, NUM_PIECES as nat);
    let moves = candidates(m);
    let n = cells.len() as int;
    lemma_ascending(m.pieces, NUM_PIECES as nat);
    lemma_ascending(m.positions, NUM_PIECES as nat);
    assert forall|piece: u8, position: u8| #[trigger]
        moves.contains((piece, position)) <==> m.legal(position, piece) by {
        if moves.contains((piece, position)) {
            let k = choose|k: int| 0 <= k < moves.len() && moves[k] == (piece, position);
            lemma_pairs_index(pieces, cells, k);
        }
        if m.legal(position, piece) {
            assert(cells.contains(position));
            let j = choose|j: int| 0 <= j < cells.len() && cells[j] == position;
            if m.pieces.is_empty() {
                assert(pieces[0] == piece);
            } else {
                assert(m.pieces.contains(piece));
                assert(pieces.contains(piece));
            }
            let i = choose|i: int| 0 <= i < pieces.len() && pieces[i] == piece;
            assert(pieces[i] == piece);
            let k = i * n + j;
            lemma_pair_index(i, j, pieces.len() as int, n);
            assert(moves[k] == (piece, position));
        }
    }
    assert forall|k: int, l: int| 0 <= k < l < moves.len() implies moves[k] != moves[l] by {
        lemma_pairs_index(pieces, cells, k);
        lemma_pairs_index(pieces, cells, l);
        vstd::arithmetic::div_mod::lemma_fundamental_div_mod(k, n);
        vstd::arithmetic::div_mod::lemma_fundamental_div_mod(l, n);
        if k / n == l / n {
            assert(k % n < l % n);
        } else {
            vstd::arithmetic::div_mod::lemma_div_is_ordered(k, l, n);
            assert(k / n < l / n);
        }
    }
}

proof fn lemma_pair_index(i: int, j: int, a: int, n: int)
    requires
        0 <= i < a,
        0 <= j < n,
    ensures
        0 <= i * n + j < a * n,
        (i * n + j) / n == i,
        (i * n + j) % n == j,
{
    vstd::arithmetic::div_mod::lemma_fundamental_div_mod_converse(i * n + j, n, i, j);
    assert(i * n + j < a * n) by (nonlinear_arith)
        requires
            0 <= i < a,
            0 <= j < n,
    ;
    assert(0 <= i * n) by (nonlinear_arith)
        requires
            0 <= i,
            0 <= n,
    ;
}

proof fn lemma_search_from_returns_a_candidate(
    m: GameModel,
    depth: nat,
    window: nat,
    next: nat,
    alpha: int,
    beta: int,
    best_score: int,
    best_move: QuartoMove,
)
    requires
        depth >= 1,
        next == 0 ==> 0 < candidates(m).len() && 0 < window,
        next > 0 ==> exists|k: int|
            0 <= k < candidates(m).len() && k < window && best_move == #[trigger] candidate_move(
                m,
                k,
            ),
    ensures
        exists|k: int|
            0 <= k < candidates(m).len() && k < window && search_from(
                m,
                depth,
                window,
                next,
                alpha,
                beta,
                best_score,
                best_move,
            ).1 == #[trigger] candidate_move(m, k),
    decreases candidates(m).len() - next,
{
    let moves = candidates(m);
    if !(next >= moves.len() || next >= window) {
        let (piece, position) = moves[next as int];
        let score = -search(m.apply(position, piece), (depth - 1) as nat, window, -beta, -alpha).0;
        let improves = next == 0 || score > best_score;
        let new_score = if improves {
            score
        } else {
            best_score
        };
        let new_move = if improves {
            QuartoMove(position, piece)
        } else {
            best_move
        };
        let raised = if alpha < new_score {
            new_score
        } else {
            alpha
        };
        assert(improves ==> new_move == candidate_move(m, next as int));
        if raised <= beta {
            lemma_search_from_returns_a_candidate(
                m,
                depth,
                window,
                next + 1,
                raised,
                beta,
                new_score,
                new_move,
            );
        }
    }
}

/// A search that looks at moves returns one that may be played. On a
/// well-formed state that is not won and has a free cell, a search of depth
/// one or more with a window of one or more returns one of the first
/// `window` candidates, and that move is legal.
pub proof fn search_returns_a_legal_move(
    m: GameModel,
    depth: nat,
    window: nat,
    alpha: int,
    beta: int,
)
    requires
        m.wf(),
        !is_terminal(m.board),
        !m.positions.is_empty(),
        depth >= 1,
        window >= 1,
    ensures
        ({
            let found = search(m, depth, window, alpha, beta).1;
            &&& m.legal(found.0, found.1)
            &&& exists|k: int|
                0 <= k < candidates(m).len() && k < window && found == #[trigger] candidate_move(
                    m,
                    k,
                )
        }),
{
    let cells = ascending(m.positions, NUM_PIECES as nat);
    let pieces = candidate_pieces(m);
    lemma_ascending(m.positions, NUM_PIECES as nat);
    lemma_ascending(m.pieces, NUM_PIECES as nat);
    let free = choose|p: u8| m.positions.contains(p);
    assert(cells.contains(free));
    if !m.pieces.is_empty() {
        let piece = choose|c: u8| m.pieces.contains(c);
        assert(pieces.contains(piece));
    }
    assert(candidates(m).len() >= 1) by (nonlinear_arith)
        requires
            candidates(m).len() == pieces.len() * cells.len(),
            pieces.len() >= 1,
            cells.len() >= 1,
    ;
    lemma_search_from_returns_a_candidate(
        m,
        depth,
        window,
        0,
        alpha,
        beta,
        MIN_EVAL as int,
        null_move(),
    );
    let found = search(m, depth, window, alpha, beta).1;
    let k = choose|k: int|
        0 <= k < candidates(m).len() && k < window && found == #[trigger] candidate_move(m, k);
    candidates_are_the_legal_moves(m);
    assert(candidates(m).contains((found.1, found.0))) by {
        assert(candidates(m)[k] == (found.1, found.0));
    }
}

proof fn lemma_ascending_misses(set: Set<u8>, bound: nat, missing: u8)
    requires
        bound <= 256,
        missing < bound,
        !set.contains(missing),
    ensures
        ascending(set, bound).len() < bound,
    decreases bound,
{
    lemma_ascending(set, (bound - 1) as nat);
    if missing < bound - 1 {
        lemma_ascending_misses(set, (bound - 1) as nat, missing);
    }
}

proof fn lemma_candidates_fit(m: GameModel)
    requires
        searchable(m),
    ensures
        candidates(m).len() <= MAX_CANDIDATES,
{
    let pieces = candidate_pieces(m);
    let cells = ascending(m.positions, NUM_PIECES as nat);
    lemma_ascending(m.positions, NUM_PIECES as nat);
    lemma_ascending(m.pieces, NUM_PIECES as nat);
    if m.current_piece != NO_PIECE {
        lemma_ascending_misses(m.pieces, NUM_PIECES as nat, m.current_piece);
    } else {
        assert(cells.len() == 0) by {
            if cells.len() > 0 {
                assert(m.positions.contains(cells[0]));
            }
        }
    }
    assert(pieces.len() * cells.len() <= 240) by (nonlinear_arith)
        requires
            pieces.len() <= 16,
            cells.len() <= 16,
            pieces.len() <= 15 || cells.len() == 0,
    ;
}

proof fn lemma_child_is_searchable(m: GameModel, k: int)
    requires
        searchable(m),
        0 <= k < candidates(m).len(),
    ensures
        searchable(child(m, k)),
{
    let (piece, position) = candidates(m)[k];
    candidates_are_the_legal_moves(m);
    assert(candidates(m).contains((piece, position)));
    assert(m.legal(position, piece));
    m.apply_legal(position, piece);
    m.free_pieces_match_free_cells();
    child(m, k).free_pieces_match_free_cells();
    if piece == NO_PIECE {
        assert(m.pieces.is_empty());
        assert(child(m, k).positions.len() == 0);
    }
}

proof fn lemma_best_reply_keeps_the_best(m: GameModel, depth: nat, next: nat, best: int)
    requires
        next > 0,
    ensures
        best_reply(m, depth, next, best) >= best,
    decreases candidates(m).len() - next,
{
    if !(depth == 0 || next >= candidates(m).len()) {
        let score = -negamax(child(m, next as int), (depth - 1) as nat);
        let kept = if score > best {
            score
        } else {
            best
        };
        lemma_best_reply_keeps_the_best(m, depth, next + 1, kept);
    }
}

proof fn lemma_search_from_agrees_with_negamax(
    m: GameModel,
    depth: nat,
    window: nat,
    next: nat,
    entry_alpha: int,
    alpha: int,
    beta: int,
    best_score: int,
    best_move: QuartoMove,
    true_best: int,
)
    requires
        searchable(m),
        depth >= 1,
        window >= MAX_CANDIDATES,
        entry_alpha <= beta,
        next == 0 ==> alpha == entry_alpha && best_score == true_best,
        next > 0 ==> {
            &&& alpha <= beta
            &&& alpha == if entry_alpha < best_score {
                best_score
            } else {
                entry_alpha
            }
            &&& best_score < entry_alpha ==> true_best <= best_score
            &&& entry_alpha <= best_score ==> true_best == best_score
        },
        next <= candidates(m).len(),
    ensures
        bounds_value(
            search_from(m, depth, window, next, alpha, beta, best_score, best_move).0,
            best_reply(m, depth, next, true_best),
            entry_alpha,
            beta,
        ),
    decreases depth, 0nat, candidates(m).len() - next,
{
    let moves = candidates(m);
    lemma_candidates_fit(m);
    if next < moves.len() {
        let (piece, position) = moves[next as int];
        let after = m.apply(position, piece);
        assert(after == child(m, next as int));
        lemma_child_is_searchable(m, next as int);
        search_agrees_with_negamax(after, (depth - 1) as nat, window, -beta, -alpha);
        let score = -search(after, (depth - 1) as nat, window, -beta, -alpha).0;
        let true_score = -negamax(after, (depth - 1) as nat);
        let improves = next == 0 || score > best_score;
        let new_score = if improves {
            score
        } else {
            best_score
        };
        let new_move = if improves {
            QuartoMove(position, piece)
        } else {
            best_move
        };
        let new_true = if next == 0 || true_score > true_best {
            true_score
        } else {
            true_best
        };
        let raised = if alpha < new_score {
            new_score
        } else {
            alpha
        };
        if raised > beta {
            lemma_best_reply_keeps_the_best(m, depth, next + 1, new_true);
        } else {
            lemma_search_from_agrees_with_negamax(
                m,
                depth,
                window,
                next + 1,
                entry_alpha,
                raised,
                beta,
                new_score,
                new_move,
                new_true,
            );
        }
    }
}

/// Pruning loses nothing. On a state that the search is meant for, with a
/// window that holds every candidate and bounds in their order, a score
/// that the search finds within the bounds is the value of the position by
/// plain negamax; a score below the bounds is no less than that value, and a
/// score above them no more.
pub proof fn search_agrees_with_negamax(
    m: GameModel,
    depth: nat,
    window: nat,
    alpha: int,
    beta: int,
)
    requires
        searchable(m),
        window >= MAX_CANDIDATES,
        alpha <= beta,
    ensures
        bounds_value(search(m, depth, window, alpha, beta).0, negamax(m, depth), alpha, beta),
    decreases depth, 1nat, 0nat,
{
    if !is_terminal(m.board) && depth != 0 && !m.positions.is_empty() {
        lemma_search_from_agrees_with_negamax(
            m,
            depth,
            window,
            0,
            alpha,
            alpha,
            beta,
            MIN_EVAL as int,
            null_move(),
            MIN_EVAL as int,
        );
    }
}

/// The value of a position by plain negamax is `MIN_EVAL`, its negation, a
/// heuristic score or the negation of one.
pub proof fn negamax_is_a_score(m: GameModel, depth: nat)
    ensures
        is_score(negamax(m, depth)),
    decreases depth, 1nat, 0nat,
{
    evaluate_is_bounded(m.board);
    if !is_terminal(m.board) && depth != 0 && !m.positions.is_empty() {
        lemma_best_reply_is_a_score(m, depth, 0, MIN_EVAL as int);
    }
}

proof fn lemma_best_reply_is_a_score(m: GameModel, depth: nat, next: nat, best: int)
    requires
        is_score(best),
    ensures
        is_score(best_reply(m, depth, next, best)),
    decreases depth, 0nat, candidates(m).len() - next,
{
    if !(depth == 0 || next >= candidates(m).len()) {
        negamax_is_a_score(child(m, next as int), (depth - 1) as nat);
        let score = -negamax(child(m, next as int), (depth - 1) as nat);
        lemma_best_reply_is_a_score(
            m,
            depth,
            next + 1,
            if next == 0 || score > best {
                score
            } else {
                best
            },
        );
    }
}

/// With every candidate in the window and bounds that enclose the heuristic
/// scores, the search finds the value of the position by plain negamax: what
/// it cuts off does not change the score. This holds of the bounds between
/// which the agent searches.
pub proof fn search_is_negamax(m: GameModel, depth: nat, window: nat, alpha: int, beta: int)
    requires
        searchable(m),
        window >= MAX_CANDIDATES,
        alpha <= -10,
        10 <= beta,
    ensures
        search(m, depth, window, alpha, beta).0 == negamax(m, depth),
{
    search_agrees_with_negamax(m, depth, window, alpha, beta);
    search_returns_a_score(m, depth, window, alpha, beta);
    negamax_is_a_score(m, depth);
}

/// A win within reach is found. Where one of the first `window` candidates
/// completes a line, a search of depth one or more between bounds in their
/// order, the upper one no less than every heuristic score, returns the
/// negation of `MIN_EVAL`, the highest score there is. At depth one, and on a state
/// that the search is meant for at depth two, the move it returns is the
/// first candidate that completes a line. Deeper searches may return
/// another move with that score: one after which every answer loses.
pub proof fn search_finds_win(
    m: GameModel,
    depth: nat,
    window: nat,
    alpha: int,
    beta: int,
    k: int,
)
    requires
        depth >= 1,
        !is_terminal(m.board),
        0 <= k < candidates(m).len(),
        k < window,
        is_terminal(child(m, k).board),
        alpha <= beta,
        10 <= beta,
    ensures
        search(m, depth, window, alpha, beta).0 == -MIN_EVAL,
        (depth == 1 || (depth == 2 && searchable(m))) && (forall|j: int|
            0 <= j < k ==> !is_terminal(#[trigger] child(m, j).board)) ==> search(
            m,
            depth,
            window,
            alpha,
            beta,
        ).1 == candidate_move(m, k),
{
    let cells = ascending(m.positions, NUM_PIECES as nat);
    lemma_pairs_index(candidate_pieces(m), cells, k);
    lemma_ascending(m.positions, NUM_PIECES as nat);
    assert(m.positions.contains(cells[k % (cells.len() as int)]));
    lemma_win_is_reached(m, depth, window, 0, alpha, beta, MIN_EVAL as int, null_move(), k);
}

proof fn lemma_first_win(m: GameModel, k: int) -> (first: int)
    requires
        0 <= k < candidates(m).len(),
        is_terminal(child(m, k).board),
    ensures
        0 <= first <= k,
        is_terminal(child(m, first).board),
        forall|j: int| 0 <= j < first ==> !is_terminal(#[trigger] child(m, j).board),
    decreases k,
{
    if exists|j: int| 0 <= j < k && is_terminal(#[trigger] child(m, j).board) {
        let j = choose|j: int| 0 <= j < k && is_terminal(#[trigger] child(m, j).board);
        lemma_first_win(m, j)
    } else {
        k
    }
}

/// A shallow search plays the win. Where one of the first `window`
/// candidates completes a line, the move that a search of depth one returns
/// completes a line, and so does the move of a search of depth two on a
/// state that the search is meant for.
pub proof fn search_plays_a_win(
    m: GameModel,
    depth: nat,
    window: nat,
    alpha: int,
    beta: int,
    k: int,
)
    requires
        depth == 1 || (depth == 2 && searchable(m)),
        !is_terminal(m.board),
        0 <= k < candidates(m).len(),
        k < window,
        is_terminal(child(m, k).board),
        alpha <= beta,
        10 <= beta,
    ensures
        ({
            let found = search(m, depth, window, alpha, beta);
            &&& found.0 == -MIN_EVAL
            &&& is_terminal(m.apply(found.1.0, found.1.1).board)
        }),
{
    let first = lemma_first_win(m, k);
    search_finds_win(m, depth, window, alpha, beta, first);
    assert(search(m, depth, window, alpha, beta).1 == candidate_move(m, first));
}

} // verus!
