use quarto_rust::quarto::game_result::GameResult;
use quarto_rust::quarto::game_stats::GameStats;
use quarto_rust::quarto::quarto_game_state::QuartoGameState;
use quarto_rust::quarto::{Quarto, QuartoMove};
use quarto_rust::quarto_agent::negamax_agent::NegamaxAgent;
use quarto_rust::quarto_agent::random_agent::RandomAgent;
use quarto_rust::quarto_agent::{Agent, QuartoAgent};
use std::collections::HashSet;

const E: u8 = 16;
const FULL_WITHOUT_A_LINE: [u8; 16] = [12, 8, 2, 7, 5, 0, 10, 4, 11, 14, 9, 3, 1, 13, 6, 15];

fn board_of(cells: [u8; 16]) -> [[u8; 4]; 4] {
    let mut board = [[E; 4]; 4];
    for (p, code) in cells.iter().enumerate() {
        board[p / 4][p % 4] = *code;
    }
    board
}

fn random() -> QuartoAgent {
    QuartoAgent::new(Box::new(RandomAgent {}))
}

fn negamax(depth: u8, window: u8) -> QuartoAgent {
    QuartoAgent::new(Box::new(NegamaxAgent::new(depth, window)))
}

/// Offers a move that can never be played.
struct Stubborn;

impl Agent for Stubborn {
    fn make_first_move(&self) -> u8 {
        16
    }
    fn make_move(&self, _state: QuartoGameState) -> QuartoMove {
        QuartoMove(16, 16)
    }
    fn get_name(&self) -> String {
        String::from("Stubborn")
    }
}

/// Puts every piece on the cell that it has on a given board, and hands over
/// the lowest free piece.
struct Scripted {
    target: [u8; 16],
}

impl Agent for Scripted {
    fn make_first_move(&self) -> u8 {
        0
    }
    fn make_move(&self, state: QuartoGameState) -> QuartoMove {
        let position = self.target.iter().position(|code| *code == state.current_piece).unwrap();
        let next_piece = (0..16u8).find(|code| state.available_pieces.contains(code)).unwrap();
        QuartoMove(position as u8, next_piece)
    }
    fn get_name(&self) -> String {
        String::from("Scripted")
    }
}

#[test]
fn a_new_match_is_fresh() {
    let quarto = Quarto::new(random(), random());
    assert!(quarto.is_fresh());
    assert!(quarto.is_player_one_turn());
    assert!(!quarto.shows_console_logs());
    assert!(!quarto.logs_stats());
    assert!(!quarto.is_game_over());
    assert!(!quarto.can_take_turn());
    let state = quarto.get_current_state();
    assert_eq!(state.board, [[16u8; 4]; 4]);
    assert_eq!(state.current_piece, 16);
    assert_eq!(state.available_pieces.len(), 16);
    assert_eq!(state.available_positions.len(), 16);
    let stats = quarto.game_stats();
    assert_eq!(stats.p1_cumulative_time, 0);
    assert_eq!(stats.p2_cumulative_time, 0);
    assert_eq!(stats.p1_num_moves, 0);
    assert_eq!(stats.p2_num_moves, 0);
}

#[test]
fn the_opening_takes_a_free_piece() {
    let mut quarto = Quarto::new(random(), random());
    assert!(quarto.make_first_move(7));
    let state = quarto.get_current_state();
    assert_eq!(state.current_piece, 7);
    assert!(!state.available_pieces.contains(&7));
    assert_eq!(state.available_pieces.len(), 15);
    assert_eq!(state.available_positions.len(), 16);
    assert_eq!(state.board, [[16u8; 4]; 4]);
    assert!(quarto.can_take_turn());
}

#[test]
fn the_opening_refuses_what_is_not_a_free_piece() {
    let mut quarto = Quarto::new(random(), random());
    assert!(!quarto.make_first_move(16));
    assert!(!quarto.make_first_move(200));
    assert!(quarto.is_fresh());
    assert!(quarto.make_first_move(3));
    assert!(!quarto.make_first_move(3));
    assert_eq!(quarto.get_current_state().current_piece, 3);
}

#[test]
fn a_free_piece_is_the_lowest_one() {
    let mut quarto = Quarto::new(random(), random());
    assert_eq!(quarto.get_random_piece(), 0);
    quarto.make_first_move(0);
    assert_eq!(quarto.get_random_piece(), 1);
}

#[test]
fn valid_moves_need_a_free_cell_and_a_free_piece() {
    let mut quarto = Quarto::new(random(), random());
    quarto.make_first_move(5);
    assert!(quarto.is_valid_move(0, 0));
    assert!(quarto.is_valid_move(15, 15));
    assert!(!quarto.is_valid_move(0, 5));
    assert!(!quarto.is_valid_move(16, 0));
    assert!(!quarto.is_valid_move(0, 16));
    assert!(!quarto.is_valid_move(16, 16));
    assert!(quarto.try_make_move());
    // The random agent took cell 0 and handed over piece 0.
    assert!(!quarto.is_valid_move(0, 1));
    assert!(!quarto.is_valid_move(1, 0));
    assert!(quarto.is_valid_move(1, 1));
}

#[test]
fn a_move_of_the_player_is_played() {
    let mut quarto = Quarto::new(random(), random());
    quarto.make_first_move(5);
    assert_eq!(quarto.next_move(), Some(QuartoMove(0, 0)));
    let state = quarto.get_current_state();
    assert_eq!(state.board[0][0], 5);
    assert_eq!(state.current_piece, 0);
    assert_eq!(state.available_positions.len(), 15);
    assert_eq!(state.available_pieces.len(), 14);
    // The turn passes only where a whole turn is taken.
    assert!(quarto.is_player_one_turn());
}

#[test]
fn a_player_without_a_valid_move_leaves_the_game_as_it_is() {
    let mut quarto = Quarto::new(QuartoAgent::new(Box::new(Stubborn)), random());
    quarto.make_first_move(5);
    assert!(!quarto.try_make_move());
    assert_eq!(quarto.next_move(), None);
    let state = quarto.get_current_state();
    assert_eq!(state.board, [[16u8; 4]; 4]);
    assert_eq!(state.current_piece, 5);
    assert_eq!(state.available_pieces.len(), 15);
}

#[test]
fn without_tries_no_move_is_made() {
    let mut quarto = Quarto::new(random(), random());
    quarto.set_num_retries(0);
    quarto.make_first_move(5);
    assert!(!quarto.try_make_move());
    assert_eq!(quarto.get_current_state().board, [[16u8; 4]; 4]);
}

#[test]
fn a_turn_passes_to_the_other_player() {
    let mut quarto = Quarto::new(random(), random());
    quarto.make_first_move(0);
    assert_eq!(quarto.take_turn(), (Some(QuartoMove(0, 1)), None));
    assert!(!quarto.is_player_one_turn());
    assert_eq!(quarto.take_turn(), (Some(QuartoMove(1, 2)), None));
    assert!(quarto.is_player_one_turn());
    assert_eq!(quarto.take_turn(), (Some(QuartoMove(2, 3)), None));
    assert_eq!(
        quarto.take_turn(),
        (Some(QuartoMove(3, 4)), Some(GameResult::PlayerTwoWon))
    );
    assert!(!quarto.is_player_one_turn());
    assert!(quarto.is_game_over());
    assert!(!quarto.can_take_turn());
}

#[test]
fn two_random_agents_play_to_a_win_of_the_second() {
    let mut quarto = Quarto::new(random(), random());
    assert_eq!(quarto.run(), GameResult::PlayerTwoWon);
    let state = quarto.get_current_state();
    assert_eq!(
        state.board,
        board_of([0, 1, 2, 3, E, E, E, E, E, E, E, E, E, E, E, E])
    );
    assert_eq!(state.current_piece, 4);
    assert_eq!(state.available_pieces, (5..16).collect::<HashSet<u8>>());
    assert_eq!(state.available_positions, (4..16).collect::<HashSet<u8>>());
    assert!(quarto.is_game_over());
    assert!(!quarto.is_player_one_turn());
}

#[test]
fn the_search_agent_beats_the_random_agent() {
    let mut quarto = Quarto::new(negamax(1, 32), random());
    assert_eq!(quarto.run(), GameResult::PlayerOneWon);
    assert_eq!(
        quarto.get_current_state().board,
        board_of([0, 1, 3, 4, 2, E, E, E, E, E, E, E, E, E, E, E])
    );
    let mut quarto = Quarto::new(random(), negamax(1, 32));
    assert_eq!(quarto.run(), GameResult::PlayerTwoWon);
    let mut quarto = Quarto::new(negamax(3, 32), random());
    assert_eq!(quarto.run(), GameResult::PlayerOneWon);
}

#[test]
fn two_search_agents_play_a_game() {
    let mut quarto = Quarto::new(negamax(2, 16), negamax(1, 8));
    assert_eq!(quarto.run(), GameResult::PlayerOneWon);
    assert_eq!(
        quarto.get_current_state().board,
        board_of([0, 1, 5, 6, 2, 3, E, E, E, E, E, 4, E, E, E, E])
    );
}

#[test]
fn a_first_player_without_valid_moves_ends_the_match() {
    let mut quarto = Quarto::new(QuartoAgent::new(Box::new(Stubborn)), random());
    assert_eq!(quarto.run(), GameResult::PlayerOneInvalid);
    assert!(quarto.is_player_one_turn());
    assert_eq!(quarto.get_current_state().board, [[16u8; 4]; 4]);
    assert_eq!(quarto.get_current_state().current_piece, 0);
}

#[test]
fn a_second_player_without_valid_moves_ends_the_match() {
    let mut quarto = Quarto::new(random(), QuartoAgent::new(Box::new(Stubborn)));
    assert_eq!(quarto.run(), GameResult::PlayerTwoInvalid);
    assert!(!quarto.is_player_one_turn());
    let state = quarto.get_current_state();
    assert_eq!(
        state.board,
        board_of([0, E, E, E, E, E, E, E, E, E, E, E, E, E, E, E])
    );
    assert_eq!(state.current_piece, 1);
}

#[test]
fn a_game_without_a_line_is_a_draw() {
    let first = QuartoAgent::new(Box::new(Scripted { target: FULL_WITHOUT_A_LINE }));
    let second = QuartoAgent::new(Box::new(Scripted { target: FULL_WITHOUT_A_LINE }));
    let mut quarto = Quarto::new(first, second);
    assert_eq!(quarto.run(), GameResult::Draw);
    let state = quarto.get_current_state();
    assert_eq!(state.board, board_of(FULL_WITHOUT_A_LINE));
    assert!(state.available_pieces.is_empty());
    assert!(state.available_positions.is_empty());
    assert_eq!(state.current_piece, 16);
    assert!(!quarto.is_game_over());
    // The sixteenth move was the second player's.
    assert!(!quarto.is_player_one_turn());
}

#[test]
fn the_last_move_goes_to_the_cell_that_is_left() {
    let first = QuartoAgent::new(Box::new(Scripted { target: FULL_WITHOUT_A_LINE }));
    let second = QuartoAgent::new(Box::new(Scripted { target: FULL_WITHOUT_A_LINE }));
    let mut quarto = Quarto::new(first, second);
    quarto.make_first_move(0);
    for _ in 0..15 {
        assert_eq!(quarto.take_turn().1, None);
    }
    let state = quarto.get_current_state();
    assert_eq!(state.available_positions.len(), 1);
    assert!(state.available_pieces.is_empty());
    // Piece 15 is left for cell 15.
    assert_eq!(state.current_piece, 15);
    assert_eq!(quarto.make_last_move(), 15);
    let state = quarto.get_current_state();
    assert_eq!(state.board, board_of(FULL_WITHOUT_A_LINE));
    assert_eq!(state.current_piece, 16);
    assert!(state.available_positions.is_empty());
}

#[test]
fn the_forced_move_ends_the_match() {
    let first = QuartoAgent::new(Box::new(Scripted { target: FULL_WITHOUT_A_LINE }));
    let second = QuartoAgent::new(Box::new(Scripted { target: FULL_WITHOUT_A_LINE }));
    let mut quarto = Quarto::new(first, second);
    quarto.make_first_move(0);
    for _ in 0..15 {
        assert_eq!(quarto.take_turn().1, None);
    }
    assert_eq!(quarto.take_turn(), (Some(QuartoMove(15, 16)), Some(GameResult::Draw)));
}

#[test]
fn a_reset_match_can_be_run_again() {
    let mut quarto = Quarto::new(random(), random());
    quarto.with_console_logs().with_file_logs();
    let result = quarto.run();
    assert!(!quarto.is_fresh());
    quarto.reset();
    assert!(quarto.is_fresh());
    assert!(quarto.is_player_one_turn());
    assert!(quarto.shows_console_logs());
    assert!(quarto.logs_stats());
    assert_eq!(quarto.game_stats().p1_num_moves, 0);
    assert_eq!(quarto.game_stats().p2_num_moves, 0);
    assert_eq!(quarto.run(), result);
}

#[test]
fn settings_are_chained() {
    let mut quarto = Quarto::new(random(), random());
    quarto.with_console_logs();
    assert!(quarto.shows_console_logs());
    assert!(!quarto.logs_stats());
    assert_eq!(quarto.num_retries(), 2);
    quarto.with_file_logs().set_num_retries(7);
    assert_eq!(quarto.num_retries(), 7);
    assert!(quarto.logs_stats());
    assert!(quarto.shows_console_logs());
    assert!(quarto.is_fresh());
}

#[test]
fn moves_are_counted_where_asked() {
    let mut quarto = Quarto::new(random(), random());
    quarto.with_file_logs();
    assert_eq!(quarto.run(), GameResult::PlayerTwoWon);
    assert_eq!(quarto.game_stats().p1_num_moves, 2);
    assert_eq!(quarto.game_stats().p2_num_moves, 2);

    let mut quarto = Quarto::new(random(), random());
    quarto.run();
    assert_eq!(quarto.game_stats().p1_num_moves, 0);
    assert_eq!(quarto.game_stats().p2_num_moves, 0);
    assert_eq!(quarto.game_stats().p1_cumulative_time, 0);
}

#[test]
fn the_forced_move_is_not_counted() {
    let first = QuartoAgent::new(Box::new(Scripted { target: FULL_WITHOUT_A_LINE }));
    let second = QuartoAgent::new(Box::new(Scripted { target: FULL_WITHOUT_A_LINE }));
    let mut quarto = Quarto::new(first, second);
    quarto.with_file_logs();
    assert_eq!(quarto.run(), GameResult::Draw);
    assert_eq!(quarto.game_stats().p1_num_moves, 8);
    assert_eq!(quarto.game_stats().p2_num_moves, 7);
}

#[test]
fn statistics_start_at_zero_and_go_back_to_it() {
    let mut stats = GameStats::new();
    assert_eq!(
        (stats.p1_cumulative_time, stats.p2_cumulative_time, stats.p1_num_moves, stats.p2_num_moves),
        (0, 0, 0, 0)
    );
    stats.p1_cumulative_time = 12;
    stats.p2_cumulative_time = 34;
    stats.p1_num_moves = 5;
    stats.p2_num_moves = 6;
    stats.reset();
    assert_eq!(
        (stats.p1_cumulative_time, stats.p2_cumulative_time, stats.p1_num_moves, stats.p2_num_moves),
        (0, 0, 0, 0)
    );
}

#[test]
fn players_are_known_by_name() {
    let quarto = Quarto::new(negamax(3, 32), random());
    assert_eq!(quarto.player_name(true), "NegamaxAgent-3-32");
    assert_eq!(quarto.player_name(false), "Random Agent");
}

#[test]
fn an_offered_move_that_can_be_played_is_played() {
    let mut quarto = Quarto::new(random(), random());
    quarto.with_file_logs();
    quarto.make_first_move(9);
    assert!(quarto.offer_move(QuartoMove(6, 3), 40));
    let state = quarto.get_current_state();
    assert_eq!(state.board[1][2], 9);
    assert_eq!(state.current_piece, 3);
    assert!(!state.available_positions.contains(&6));
    assert!(!state.available_pieces.contains(&3));
    assert_eq!(quarto.game_stats().p1_cumulative_time, 40);
    assert_eq!(quarto.game_stats().p1_num_moves, 1);
    assert_eq!(quarto.game_stats().p2_num_moves, 0);
    // Offering a move passes no turn.
    assert!(quarto.is_player_one_turn());
    assert!(quarto.offer_move(QuartoMove(0, 1), 2));
    assert_eq!(quarto.game_stats().p1_cumulative_time, 42);
    assert_eq!(quarto.game_stats().p1_num_moves, 2);
}

#[test]
fn an_offered_move_that_cannot_be_played_changes_nothing() {
    let mut quarto = Quarto::new(random(), random());
    quarto.with_file_logs();
    quarto.make_first_move(9);
    assert!(quarto.offer_move(QuartoMove(6, 3), 40));
    // The cell is taken; the piece is pending; the piece lies on the board;
    // there is no such cell; there is no such piece.
    for offered in [
        QuartoMove(6, 4),
        QuartoMove(0, 3),
        QuartoMove(0, 9),
        QuartoMove(16, 4),
        QuartoMove(0, 16),
    ] {
        assert!(!quarto.offer_move(offered, 5));
    }
    let state = quarto.get_current_state();
    assert_eq!(state.current_piece, 3);
    assert_eq!(state.available_positions.len(), 15);
    assert_eq!(state.available_pieces.len(), 14);
    assert_eq!(quarto.game_stats().p1_cumulative_time, 40);
    assert_eq!(quarto.game_stats().p1_num_moves, 1);
}

#[test]
fn moves_are_not_counted_unless_asked() {
    let mut quarto = Quarto::new(random(), random());
    quarto.make_first_move(9);
    assert!(quarto.offer_move(QuartoMove(6, 3), 40));
    assert_eq!(quarto.game_stats().p1_cumulative_time, 0);
    assert_eq!(quarto.game_stats().p1_num_moves, 0);
}

#[test]
fn a_time_beyond_the_range_is_left_out() {
    let mut quarto = Quarto::new(random(), random());
    quarto.with_file_logs();
    quarto.make_first_move(9);
    assert!(quarto.offer_move(QuartoMove(6, 3), u128::MAX));
    assert_eq!(quarto.game_stats().p1_cumulative_time, u128::MAX);
    assert_eq!(quarto.game_stats().p1_num_moves, 1);
    assert!(quarto.offer_move(QuartoMove(7, 4), 1));
    assert_eq!(quarto.game_stats().p1_cumulative_time, u128::MAX);
    assert_eq!(quarto.game_stats().p1_num_moves, 1);
    assert_eq!(quarto.get_current_state().current_piece, 4);
}

#[test]
fn without_tries_a_match_ends_before_any_piece_is_placed() {
    let mut quarto = Quarto::new(negamax(2, 32), random());
    quarto.set_num_retries(0);
    assert_eq!(quarto.run(), GameResult::PlayerOneInvalid);
    let state = quarto.get_current_state();
    assert_eq!(state.board, [[16u8; 4]; 4]);
    assert_eq!(state.current_piece, 0);
    assert_eq!(state.available_pieces, (1..16).collect::<HashSet<u8>>());
    assert_eq!(state.available_positions.len(), 16);
    assert!(quarto.is_player_one_turn());
}

#[test]
fn without_tries_a_turn_plays_nothing() {
    let mut quarto = Quarto::new(random(), random());
    quarto.set_num_retries(0);
    quarto.make_first_move(4);
    assert_eq!(quarto.next_move(), None);
    assert!(!quarto.try_make_move());
    assert_eq!(quarto.take_turn(), (None, Some(GameResult::PlayerOneInvalid)));
    assert_eq!(quarto.get_current_state().current_piece, 4);
    assert_eq!(quarto.get_current_state().board, [[16u8; 4]; 4]);
}

#[test]
fn one_try_is_enough_for_a_player_whose_moves_can_be_played() {
    let mut quarto = Quarto::new(random(), random());
    quarto.set_num_retries(1);
    assert_eq!(quarto.run(), GameResult::PlayerTwoWon);
}

fn placed_pieces(quarto: &Quarto) -> usize {
    quarto.get_current_state().board.iter().flatten().filter(|code| **code != E).count()
}

#[test]
fn the_winner_placed_the_last_piece() {
    // Player one places the pieces with odd numbers, player two the others.
    let mut quarto = Quarto::new(random(), random());
    assert_eq!(quarto.run(), GameResult::PlayerTwoWon);
    assert_eq!(placed_pieces(&quarto), 4);
    assert!(!quarto.is_player_one_turn());

    let mut quarto = Quarto::new(negamax(1, 32), random());
    assert_eq!(quarto.run(), GameResult::PlayerOneWon);
    assert_eq!(placed_pieces(&quarto), 5);
    assert!(quarto.is_player_one_turn());

    let mut quarto = Quarto::new(negamax(2, 16), negamax(1, 8));
    assert_eq!(quarto.run(), GameResult::PlayerOneWon);
    assert_eq!(placed_pieces(&quarto), 7);
    assert!(quarto.is_player_one_turn());
}

#[test]
fn the_player_who_fails_is_the_one_to_move() {
    let mut quarto = Quarto::new(random(), QuartoAgent::new(Box::new(Stubborn)));
    assert_eq!(quarto.run(), GameResult::PlayerTwoInvalid);
    assert_eq!(placed_pieces(&quarto), 1);
    assert!(!quarto.is_player_one_turn());

    let mut quarto = Quarto::new(QuartoAgent::new(Box::new(Stubborn)), random());
    assert_eq!(quarto.run(), GameResult::PlayerOneInvalid);
    assert_eq!(placed_pieces(&quarto), 0);
    assert!(quarto.is_player_one_turn());
}

#[test]
fn a_draw_is_reached_with_the_second_player_to_move() {
    let first = QuartoAgent::new(Box::new(Scripted { target: FULL_WITHOUT_A_LINE }));
    let second = QuartoAgent::new(Box::new(Scripted { target: FULL_WITHOUT_A_LINE }));
    let mut quarto = Quarto::new(first, second);
    assert_eq!(quarto.run(), GameResult::Draw);
    assert_eq!(placed_pieces(&quarto), 16);
    assert!(!quarto.is_player_one_turn());
}

#[test]
fn the_players_stay_through_a_match_and_a_reset() {
    let mut quarto = Quarto::new(negamax(3, 32), random());
    quarto.run();
    assert_eq!(quarto.player_name(true), "NegamaxAgent-3-32");
    assert_eq!(quarto.player_name(false), "Random Agent");
    quarto.reset();
    assert_eq!(quarto.player_name(true), "NegamaxAgent-3-32");
    assert_eq!(quarto.player_name(false), "Random Agent");
    quarto.make_first_move(2);
    quarto.try_make_move();
    quarto.with_file_logs().set_num_retries(5);
    assert_eq!(quarto.player_name(true), "NegamaxAgent-3-32");
    assert_eq!(quarto.player_name(false), "Random Agent");
}

#[test]
fn the_move_played_is_the_players_own() {
    // The search agent's move in the match is the one it gives when asked.
    let mut quarto = Quarto::new(negamax(2, 32), random());
    quarto.make_first_move(7);
    let expected = NegamaxAgent::new(2, 32).make_move(quarto.get_current_state());
    assert_eq!(quarto.next_move(), Some(expected));
    // The turn did not pass, so the same player is asked again.
    let expected = NegamaxAgent::new(2, 32).make_move(quarto.get_current_state());
    assert_eq!(quarto.next_move(), Some(expected));
}
