use quarto_rust::quarto::quarto_game_state::{members_in_order, QuartoGameState};
use quarto_rust::quarto::QuartoMove;
use quarto_rust::quarto_agent::negamax_agent::{alpha_beta, evaluation, MIN_EVAL, SEARCH_BOUND};
use quarto_rust::utils::{is_game_over, update_state};
use std::collections::HashSet;

const E: u8 = 16;

fn state_of(cells: [u8; 16], current_piece: u8) -> QuartoGameState {
    let mut board = [[E; 4]; 4];
    let mut available_pieces: HashSet<u8> = (0..16).collect();
    let mut available_positions: HashSet<u8> = HashSet::new();
    for (p, code) in cells.iter().enumerate() {
        board[p / 4][p % 4] = *code;
        if *code == E {
            available_positions.insert(p as u8);
        } else {
            available_pieces.remove(code);
        }
    }
    available_pieces.remove(&current_piece);
    QuartoGameState { board, current_piece, available_pieces, available_positions }
}

// The same state with its sets filled in another order and with room to spare.
fn state_built_otherwise(cells: [u8; 16], current_piece: u8) -> QuartoGameState {
    let model = state_of(cells, current_piece);
    let mut available_pieces: HashSet<u8> = HashSet::with_capacity(200);
    let mut available_positions: HashSet<u8> = HashSet::with_capacity(50);
    for code in (0..16u8).rev() {
        if model.available_pieces.contains(&code) {
            available_pieces.insert(code);
        }
        if model.available_positions.contains(&code) {
            available_positions.insert(code);
        }
    }
    QuartoGameState {
        board: model.board,
        current_piece,
        available_pieces,
        available_positions,
    }
}

const THREE_IN_THE_LAST_ROW: [u8; 16] = [E, E, E, E, E, E, E, E, E, E, E, E, E, 1, 3, 5];
const MID_GAME: [u8; 16] = [E, 7, E, 9, E, E, 14, E, 11, E, E, E, E, 3, E, 13];
const LATE_GAME: [u8; 16] = [E, 10, 8, E, 4, E, E, E, 2, 5, E, E, E, 6, 11, 7];
const FULL_WITHOUT_A_LINE: [u8; 16] = [12, 8, 2, 7, 5, 0, 10, 4, 11, 14, 9, 3, 1, 13, 6, 15];

#[test]
fn the_loss_score_is_beyond_the_heuristic() {
    assert_eq!(MIN_EVAL, -1000);
    assert_eq!(SEARCH_BOUND, 500);
    assert!(-MIN_EVAL > 10);
}

#[test]
fn a_won_board_is_lost_for_the_player_to_move() {
    let state = state_of([1, 3, 5, 7, E, E, E, E, E, E, E, E, E, E, E, E], 0);
    let (score, best) = alpha_beta(state, 3, 32, -500, 500);
    assert_eq!(score, -1000);
    assert_eq!(best, QuartoMove(16, 16));
}

#[test]
fn a_won_board_is_lost_at_depth_zero_too() {
    let state = state_of([1, 3, 5, 7, E, E, E, E, E, E, E, E, E, E, E, E], 0);
    let (score, best) = alpha_beta(state, 0, 32, -500, 500);
    assert_eq!(score, -1000);
    assert_eq!(best, QuartoMove(16, 16));
}

#[test]
fn depth_zero_gives_the_heuristic_score() {
    let state = state_of(THREE_IN_THE_LAST_ROW, 7);
    let (score, best) = alpha_beta(state, 0, 32, -500, 500);
    assert_eq!(score, 1);
    assert_eq!(best, QuartoMove(16, 16));
}

#[test]
fn a_full_board_without_a_line_is_a_leaf() {
    let state = state_of(FULL_WITHOUT_A_LINE, 16);
    let expected = evaluation(state.board);
    let (score, best) = alpha_beta(state, 3, 32, -500, 500);
    assert_eq!(score, expected);
    assert_eq!(score, 0);
    assert_eq!(best, QuartoMove(16, 16));
}

#[test]
fn the_winning_move_is_chosen() {
    let (score, best) = alpha_beta(state_of(THREE_IN_THE_LAST_ROW, 7), 1, 32, -500, 500);
    assert_eq!(score, 1000);
    assert_eq!(score, -MIN_EVAL);
    assert_eq!(best, QuartoMove(12, 0));
}

#[test]
fn the_winning_move_is_chosen_at_greater_depth() {
    for depth in 2..=3 {
        let (score, best) = alpha_beta(state_of(THREE_IN_THE_LAST_ROW, 7), depth, 32, -500, 500);
        assert_eq!(score, 1000);
        assert_eq!(best, QuartoMove(12, 0));
    }
    for depth in 1..=3 {
        let (score, best) = alpha_beta(state_of(LATE_GAME, 14), depth, 32, -500, 500);
        assert_eq!(score, 1000);
        assert_eq!(best, QuartoMove(12, 0));
    }
}

#[test]
fn the_window_cuts_the_moves_off() {
    // The winning move is the thirteenth candidate.
    let (score, best) = alpha_beta(state_of(THREE_IN_THE_LAST_ROW, 7), 1, 13, -500, 500);
    assert_eq!((score, best), (1000, QuartoMove(12, 0)));
    let (score, best) = alpha_beta(state_of(THREE_IN_THE_LAST_ROW, 7), 1, 12, -500, 500);
    assert_eq!((score, best), (-1, QuartoMove(0, 0)));
    let (score, best) = alpha_beta(state_of(THREE_IN_THE_LAST_ROW, 7), 1, 8, -500, 500);
    assert_eq!((score, best), (-1, QuartoMove(0, 0)));
}

#[test]
fn a_window_of_zero_looks_at_nothing() {
    let (score, best) = alpha_beta(state_of(THREE_IN_THE_LAST_ROW, 7), 2, 0, -500, 500);
    assert_eq!((score, best), (-1000, QuartoMove(16, 16)));
}

#[test]
fn without_a_win_the_best_heuristic_score_stands() {
    // Piece 8 shares nothing with 1, 3 and 5.
    let (score, best) = alpha_beta(state_of(THREE_IN_THE_LAST_ROW, 8), 1, 255, -500, 500);
    assert_eq!((score, best), (0, QuartoMove(12, 0)));
    let (score, best) = alpha_beta(state_of(THREE_IN_THE_LAST_ROW, 8), 2, 255, -500, 500);
    assert_eq!((score, best), (0, QuartoMove(12, 0)));
}

#[test]
fn of_equal_scores_the_first_move_stays() {
    // Every move scores 0 at depth one; the first candidate is the lowest
    // piece on the lowest cell.
    let (score, best) = alpha_beta(state_of(MID_GAME, 4), 1, 255, -500, 500);
    assert_eq!((score, best), (0, QuartoMove(0, 0)));
}

#[test]
fn moves_are_tried_piece_by_piece_and_cell_by_cell() {
    // With a window of one only the lowest piece on the lowest cell is tried.
    let (_, best) = alpha_beta(state_of(MID_GAME, 4), 1, 1, -500, 500);
    assert_eq!(best, QuartoMove(0, 0));
    // The free cells are 0, 2, 4, 5, 7, 9, 10, 11, 12 and 14; the best move of
    // the search two levels deep hands over piece 8, which only a walk
    // through all cells of the pieces before it reaches.
    let (score, best) = alpha_beta(state_of(MID_GAME, 4), 2, 255, -500, 500);
    assert_eq!((score, best), (1, QuartoMove(5, 8)));
}

#[test]
fn scores_of_a_game_in_its_middle() {
    assert_eq!(alpha_beta(state_of(MID_GAME, 4), 2, 32, -500, 500), (0, QuartoMove(0, 0)));
    assert_eq!(alpha_beta(state_of(MID_GAME, 4), 3, 32, -500, 500), (0, QuartoMove(12, 0)));
    assert_eq!(alpha_beta(state_of(MID_GAME, 4), 3, 5, -500, 500), (-1, QuartoMove(0, 0)));
    assert_eq!(alpha_beta(state_of(LATE_GAME, 14), 3, 5, -500, 500), (-2, QuartoMove(5, 0)));
}

#[test]
fn the_bounds_shape_the_result() {
    assert_eq!(alpha_beta(state_of(MID_GAME, 4), 2, 255, -1000, 1000), (1, QuartoMove(5, 8)));
    assert_eq!(alpha_beta(state_of(MID_GAME, 4), 2, 255, 0, 0), (1, QuartoMove(5, 8)));
    // A lower bound above the upper one stops the search at the first move.
    assert_eq!(alpha_beta(state_of(MID_GAME, 4), 2, 255, 5, -5), (5, QuartoMove(0, 0)));
    // An upper bound of zero stops it before the winning move.
    assert_eq!(alpha_beta(state_of(LATE_GAME, 14), 2, 255, 0, 0), (1, QuartoMove(5, 0)));
}

#[test]
fn the_forced_last_move_hands_over_no_piece() {
    let state = state_of([E, 8, 2, 7, 5, 0, 10, 4, 11, 14, 9, 3, 1, 13, 6, 15], 12);
    assert_eq!(alpha_beta(state, 1, 32, -500, 500), (0, QuartoMove(0, 16)));
    let state = state_of([12, 8, 2, 7, 5, 0, 10, 4, 11, 14, 9, 3, 1, 13, 6, E], 15);
    assert_eq!(alpha_beta(state, 1, 32, -500, 500), (0, QuartoMove(15, 16)));
}

#[test]
fn the_forced_last_move_can_win() {
    let cells = [4, 12, E, 2, 11, 10, 5, 0, 14, 9, 1, 8, 6, 3, 13, 15];
    assert_eq!(alpha_beta(state_of(cells, 7), 1, 32, -500, 500), (1000, QuartoMove(2, 16)));
    assert_eq!(alpha_beta(state_of(cells, 7), 2, 1, -500, 500), (1000, QuartoMove(2, 16)));
}

#[test]
fn the_search_leaves_the_sentinel_out_of_the_state() {
    let state = state_of([E, 8, 2, 7, 5, 0, 10, 4, 11, 14, 9, 3, 1, 13, 6, 15], 12);
    let copy = state.duplicate();
    let _ = alpha_beta(copy, 2, 32, -500, 500);
    assert!(state.available_pieces.is_empty());
}

#[test]
fn the_same_state_gives_the_same_result() {
    for (cells, piece) in [(MID_GAME, 4u8), (LATE_GAME, 14), (THREE_IN_THE_LAST_ROW, 7)] {
        for depth in 0..=3 {
            for window in [1u8, 5, 32] {
                let first = alpha_beta(state_of(cells, piece), depth, window, -500, 500);
                let second = alpha_beta(state_of(cells, piece), depth, window, -500, 500);
                assert_eq!(first, second);
            }
        }
    }
}

#[test]
fn the_result_does_not_depend_on_how_the_sets_were_built() {
    for (cells, piece) in [(MID_GAME, 4u8), (LATE_GAME, 14), (THREE_IN_THE_LAST_ROW, 7)] {
        for depth in 0..=3 {
            let first = alpha_beta(state_of(cells, piece), depth, 16, -500, 500);
            let second = alpha_beta(state_built_otherwise(cells, piece), depth, 16, -500, 500);
            assert_eq!(first, second);
        }
    }
}

#[test]
fn the_move_found_can_be_played() {
    for (cells, piece) in [(MID_GAME, 4u8), (LATE_GAME, 14), (THREE_IN_THE_LAST_ROW, 7)] {
        let state = state_of(cells, piece);
        let (_, best) = alpha_beta(state.duplicate(), 2, 32, -500, 500);
        assert!(state.available_positions.contains(&best.0));
        assert!(state.available_pieces.contains(&best.1));
    }
}

#[test]
fn scores_stay_within_the_loss_and_the_win() {
    for (cells, piece) in [(MID_GAME, 4u8), (LATE_GAME, 14), (THREE_IN_THE_LAST_ROW, 7)] {
        for depth in 0..=3 {
            let (score, _) = alpha_beta(state_of(cells, piece), depth, 8, -500, 500);
            assert!(score == -1000 || score == 1000 || (-10..=10).contains(&score));
        }
    }
}

// The value of a position when every move is looked at and nothing is cut off.
fn plain_negamax(state: &QuartoGameState, depth: u8) -> i32 {
    if is_game_over(&state.board) {
        return -1000;
    }
    if depth == 0 || state.available_positions.is_empty() {
        return evaluation(state.board);
    }
    let pieces = if state.available_pieces.is_empty() {
        vec![16]
    } else {
        members_in_order(&state.available_pieces)
    };
    let mut best = i32::MIN;
    for piece in pieces {
        for position in members_in_order(&state.available_positions) {
            let mut next = state.duplicate();
            update_state(&mut next, position, piece);
            best = best.max(-plain_negamax(&next, depth - 1));
        }
    }
    best
}

#[test]
fn with_a_full_window_the_search_finds_the_negamax_value() {
    let almost_full = [E, 8, 2, 7, 5, 0, 10, 4, 11, 14, 9, E, 1, 13, E, 15];
    for (cells, piece) in [
        (MID_GAME, 4u8),
        (LATE_GAME, 14),
        (THREE_IN_THE_LAST_ROW, 8),
        (almost_full, 12),
        (FULL_WITHOUT_A_LINE, 16),
    ] {
        for depth in 0..=2 {
            let expected = plain_negamax(&state_of(cells, piece), depth);
            for window in [240u8, 255] {
                for (alpha, beta) in [(-500, 500), (-1000, 1000), (-10, 10)] {
                    let (score, _) = alpha_beta(state_of(cells, piece), depth, window, alpha, beta);
                    assert_eq!(score, expected);
                }
            }
        }
    }
    let expected = plain_negamax(&state_of(LATE_GAME, 14), 3);
    assert_eq!(alpha_beta(state_of(LATE_GAME, 14), 3, 240, -500, 500).0, expected);
    let expected = plain_negamax(&state_of(almost_full, 12), 4);
    assert_eq!(alpha_beta(state_of(almost_full, 12), 4, 240, -500, 500).0, expected);
}

#[test]
fn narrow_bounds_give_a_bound_on_the_negamax_value() {
    for (cells, piece) in [(MID_GAME, 4u8), (LATE_GAME, 14), (THREE_IN_THE_LAST_ROW, 8)] {
        for depth in 1..=2 {
            let value = plain_negamax(&state_of(cells, piece), depth);
            for (alpha, beta) in [(0, 0), (-3, 2), (1, 1), (-1, -1), (2, 5), (-5, -2)] {
                let (found, _) = alpha_beta(state_of(cells, piece), depth, 255, alpha, beta);
                if found < alpha {
                    assert!(value <= found);
                } else if found > beta {
                    assert!(value >= found);
                } else {
                    assert_eq!(value, found);
                }
            }
        }
    }
}

#[test]
fn a_deeper_search_may_prefer_a_forced_win() {
    // Piece 5 completes a line on cell 9. Two levels deep the search plays
    // that; three levels deep it finds first that cell 7 wins whatever the
    // answer is, and plays that.
    let cells = [2, 13, 1, 6, 15, E, 3, E, 0, E, 7, 11, 4, 9, 14, 10];
    assert_eq!(alpha_beta(state_of(cells, 5), 1, 255, -500, 500), (1000, QuartoMove(9, 8)));
    assert_eq!(alpha_beta(state_of(cells, 5), 2, 255, -500, 500), (1000, QuartoMove(9, 8)));
    assert_eq!(alpha_beta(state_of(cells, 5), 2, 3, -500, 500), (1000, QuartoMove(9, 8)));
    assert_eq!(alpha_beta(state_of(cells, 5), 3, 255, -500, 500), (1000, QuartoMove(7, 8)));
    assert_eq!(alpha_beta(state_of(cells, 5), 4, 32, -500, 500), (1000, QuartoMove(7, 8)));
    // The window decides what is seen.
    assert_eq!(alpha_beta(state_of(cells, 5), 1, 2, -500, 500), (-3, QuartoMove(7, 8)));
    assert_eq!(alpha_beta(state_of(cells, 5), 2, 2, -500, 500), (2, QuartoMove(7, 8)));
}

#[test]
fn a_shallow_search_plays_a_move_that_wins() {
    for (cells, piece) in [
        (THREE_IN_THE_LAST_ROW, 7u8),
        (LATE_GAME, 14),
        ([2, 13, 1, 6, 15, E, 3, E, 0, E, 7, 11, 4, 9, 14, 10], 5),
    ] {
        for depth in 1..=2 {
            for (alpha, beta) in [(-500, 500), (-1000, 1000), (-1000, 10), (10, 10), (0, 999)] {
                let (score, best) = alpha_beta(state_of(cells, piece), depth, 255, alpha, beta);
                assert_eq!(score, 1000);
                let mut after = state_of(cells, piece);
                assert!(after.available_positions.contains(&best.0));
                assert!(after.available_pieces.contains(&best.1));
                update_state(&mut after, best.0, best.1);
                assert!(is_game_over(&after.board));
            }
        }
    }
}
