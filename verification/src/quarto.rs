//! A match of Quarto between two agents.

pub mod display;
pub mod game_model;
pub mod game_result;
pub mod game_stats;
pub mod quarto_game_state;

use crate::quarto_agent::{move_report, QuartoAgent};
use crate::utils::{is_terminal, line_codes, line_wins, update_state};
use display::{board_string, board_text, info_string, info_text};
use game_result::GameResult;
use game_model::{is_least, GameModel};
use game_stats::GameStats;
use quarto_game_state::{least_member, QuartoGameState, EMPTY_CELL, NO_PIECE, NO_POSITION};
use std::time::{Duration, Instant};
use vstd::prelude::*;

verus! {

/// A move: the cell where the pending piece is placed, and the piece handed
/// to the opponent.
#[derive(Clone, Copy, Debug, PartialEq, Eq)]
pub struct QuartoMove(pub u8, pub u8);

/// A moment on the clock that only moves forward. Nothing is known of it
/// but that time can be measured from it.
#[verifier::external_type_specification]
#[verifier::external_body]
pub struct ExInstant(Instant);

/// `Instant::now`: the present moment. Nothing is said of it.
pub assume_specification[ Instant::now ]() -> Instant;

/// `Instant::elapsed`: the time since that moment. Nothing is said of it.
pub assume_specification[ Instant::elapsed ](start: &Instant) -> Duration;

/// `Duration::as_millis`: a span of time in whole milliseconds. Nothing is
/// said of the number.
pub assume_specification[ Duration::as_millis ](span: &Duration) -> u128;

/// A fresh board is not won: each of its lines holds an empty cell.
pub proof fn fresh_board_is_not_won()
    ensures
        !is_terminal(GameModel::initial().board),
{
    let cells = GameModel::initial().board;
    assert forall|k: int| 0 <= k < 10 implies !#[trigger] line_wins(cells, k) by {
        assert(line_codes(cells, k)[0] == EMPTY_CELL);
    }
}

/// A match: two players, the state of the game, whose turn it is, and what
/// is counted and shown on the way.
pub struct Quarto {
    player_one: QuartoAgent,
    player_two: QuartoAgent,
    state: QuartoGameState,
    is_player_one_turn: bool,
    show_console_logs: bool,
    log_stats: bool,
    game_stats: GameStats,
    num_retries_allowed: u8,
}

impl Quarto {
    /// The state of the game.
    pub closed spec fn state(&self) -> GameModel {
        self.state@
    }

    /// Whether the next move is player one's.
    pub closed spec fn player_one_to_move(&self) -> bool {
        self.is_player_one_turn
    }

    /// Whether the match is to be shown on the console.
    pub closed spec fn console_logs(&self) -> bool {
        self.show_console_logs
    }

    /// Whether the moves are timed and counted.
    pub closed spec fn file_logs(&self) -> bool {
        self.log_stats
    }

    /// What was counted so far.
    pub closed spec fn stats(&self) -> GameStats {
        self.game_stats
    }

    /// How often a player is asked for a move in one turn.
    pub closed spec fn retries_allowed(&self) -> u8 {
        self.num_retries_allowed
    }

    /// Player one or player two.
    pub closed spec fn player(&self, player_one: bool) -> QuartoAgent {
        if player_one {
            self.player_one
        } else {
            self.player_two
        }
    }

    /// The player whose move is next.
    pub open spec fn mover(&self) -> QuartoAgent {
        self.player(self.player_one_to_move())
    }

    /// The two players are those of `other`.
    pub open spec fn same_players(&self, other: &Quarto) -> bool {
        self.player(true) == other.player(true) && self.player(false) == other.player(false)
    }

    /// The player to move may offer a move that cannot be played.
    pub open spec fn mover_may_fail(&self) -> bool {
        exists|offered: QuartoMove| #[trigger]
            self.mover().may_choose(self.state(), offered) && !self.state().can_play(offered)
    }

    /// Everything but the state of the game and the statistics is as in
    /// `other`: the players, whose turn it is, what is shown and counted, and
    /// the number of tries.
    pub open spec fn same_setup(&self, other: &Quarto) -> bool {
        &&& self.same_players(other)
        &&& self.player_one_to_move() == other.player_one_to_move()
        &&& self.console_logs() == other.console_logs()
        &&& self.file_logs() == other.file_logs()
        &&& self.retries_allowed() == other.retries_allowed()
    }

    /// A match between two players, ready to start: a fresh game, player
    /// one to move, nothing shown, nothing counted, two tries for a move.
    pub fn new(player_one: QuartoAgent, player_two: QuartoAgent) -> (quarto: Self)
        ensures
            quarto.player(true) == player_one,
            quarto.player(false) == player_two,
            quarto.state() == GameModel::initial(),
            quarto.player_one_to_move(),
            !quarto.console_logs(),
            !quarto.file_logs(),
            quarto.stats() == GameStats::zero(),
            quarto.retries_allowed() == 2,
    {
        Self {
            player_one,
            player_two,
            state: QuartoGameState::new(),
            is_player_one_turn: true,
            show_console_logs: false,
            log_stats: false,
            game_stats: GameStats::new(),
            num_retries_allowed: 2,
        }
    }

    /// Back to the start: a fresh game, player one to move, nothing counted.
    /// What the match shows and counts, and the number of tries, stay.
    pub fn reset(&mut self)
        ensures
            final(self).same_players(old(self)),
            final(self).state() == GameModel::initial(),
            final(self).player_one_to_move(),
            final(self).stats() == GameStats::zero(),
            final(self).console_logs() == old(self).console_logs(),
            final(self).file_logs() == old(self).file_logs(),
            final(self).retries_allowed() == old(self).retries_allowed(),
    {
        self.state = QuartoGameState::new();
        self.is_player_one_turn = true;
        self.game_stats.reset();
    }

    /// The opening: `next_piece` becomes the pending piece, if it is free.
    /// Otherwise nothing changes, and the result is `false`.
    pub fn make_first_move(&mut self, next_piece: u8) -> (chosen: bool)
        ensures
            chosen == old(self).state().pieces.contains(next_piece),
            final(self).state() == if chosen {
                old(self).state().choose_opening_piece(next_piece)
            } else {
                old(self).state()
            },
            final(self).same_setup(old(self)),
            final(self).stats() == old(self).stats(),
    {
        broadcast use vstd::std_specs::hash::group_hash_axioms;

        if self.state.available_pieces.contains(&next_piece) {
            self.state.choose_opening_piece(next_piece);
            true
        } else {
            false
        }
    }

    /// Adds a move of `time_elapsed` milliseconds to the numbers of the
    /// player to move.
    fn _log_move_time(&mut self, time_elapsed: u128)
        requires
            old(self).stats().can_log(old(self).player_one_to_move(), time_elapsed),
        ensures
            final(self).stats() == old(self).stats().logged(
                old(self).player_one_to_move(),
                time_elapsed,
            ),
            final(self).state() == old(self).state(),
            final(self).same_setup(old(self)),
    {
        if self.is_player_one_turn {
            self.game_stats.p1_cumulative_time += time_elapsed;
            self.game_stats.p1_num_moves += 1;
        } else {
            self.game_stats.p2_cumulative_time += time_elapsed;
            self.game_stats.p2_num_moves += 1;
        }
    }

    /// Takes a move that the player to move offers after `elapsed`
    /// milliseconds of thought. A move that can be played is played, and
    /// the result is `true`; where moves are counted it is added to the
    /// player's numbers, unless a number would leave its range. Any other
    /// move changes nothing, and the result is `false`.
    pub fn offer_move(&mut self, player_move: QuartoMove, elapsed: u128) -> (played: bool)
        requires
            old(self).state().in_play(),
        ensures
            played == old(self).state().can_play(player_move),
            final(self).state() == if played {
                old(self).state().apply(player_move.0, player_move.1)
            } else {
                old(self).state()
            },
            final(self).stats() == if played && old(self).file_logs() {
                old(self).stats().counted(old(self).player_one_to_move(), elapsed)
            } else {
                old(self).stats()
            },
            final(self).same_setup(old(self)),
            played ==> {
                &&& old(self).state().legal(player_move.0, player_move.1)
                &&& final(self).state().in_play()
                &&& final(self).state().positions.len() == old(self).state().positions.len() - 1
                &&& final(self).state().pieces.len() == old(self).state().pieces.len() - 1
                &&& final(self).state().placed_count() == old(self).state().placed_count() + 1
            },
    {
        let QuartoMove(position, next_piece) = player_move;
        if self.is_valid_move(position, next_piece) {
            proof {
                self.state().apply_legal(position, next_piece);
            }
            update_state(&mut self.state, position, next_piece);
            if self.log_stats {
                let can_log = if self.is_player_one_turn {
                    self.game_stats.p1_num_moves < u8::MAX && self.game_stats.p1_cumulative_time
                        <= u128::MAX - elapsed
                } else {
                    self.game_stats.p2_num_moves < u8::MAX && self.game_stats.p2_cumulative_time
                        <= u128::MAX - elapsed
                };
                if can_log {
                    self._log_move_time(elapsed);
                }
            }
            true
        } else {
            false
        }
    }

    /// Asks the player to move for a move until one can be played, as often
    /// as tries are allowed, and plays the first such move, as `offer_move`
    /// does. The result is the move that was played, or `None` where the
    /// player offered none: then the game stays as it is.
    ///
    /// A move that is played is one that the player may make in this state.
    /// No move is played only where no try is allowed, or where the player
    /// may make a move that cannot be played.
    pub fn next_move(&mut self) -> (played: Option<QuartoMove>)
        requires
            old(self).state().in_play(),
            !old(self).state().pieces.is_empty(),
        ensures
            match played {
                Some(player_move) => {
                    &&& old(self).mover().may_choose(old(self).state(), player_move)
                    &&& old(self).state().can_play(player_move)
                    &&& old(self).state().legal(player_move.0, player_move.1)
                    &&& final(self).state() == old(self).state().apply(player_move.0, player_move.1)
                    &&& final(self).state().in_play()
                    &&& final(self).state().positions.len() == old(self).state().positions.len()
                        - 1
                    &&& final(self).state().pieces.len() == old(self).state().pieces.len() - 1
                    &&& final(self).state().placed_count() == old(self).state().placed_count()
                        + 1
                },
                None => {
                    &&& final(self).state() == old(self).state()
                    &&& old(self).retries_allowed() == 0 || old(self).mover_may_fail()
                },
            },
            final(self).same_setup(old(self)),
            played is Some && old(self).file_logs() ==> exists|elapsed: u128|
                final(self).stats() == #[trigger] old(self).stats().counted(
                    old(self).player_one_to_move(),
                    elapsed,
                ),
            played is None || !old(self).file_logs() ==> final(self).stats() == old(self).stats(),
            old(self).retries_allowed() == 0 ==> played is None,
    {
        proof {
            self.state().free_pieces_match_free_cells();
        }
        let mut retry: u8 = 0;
        while retry < self.num_retries_allowed
            invariant
                self.state() == old(self).state(),
                self.stats() == old(self).stats(),
                self.same_setup(old(self)),
                self.state().in_play(),
                !self.state().pieces.is_empty(),
                !self.state().positions.is_empty(),
                retry > 0 ==> old(self).mover_may_fail(),
            decreases self.num_retries_allowed - retry,
        {
            let before = Instant::now();
            let player_move = if self.is_player_one_turn {
                self.player_one.make_move(self.get_current_state())
            } else {
                self.player_two.make_move(self.get_current_state())
            };
            let elapsed = before.elapsed().as_millis();
            assert(old(self).mover().may_choose(old(self).state(), player_move));

            if self.offer_move(player_move, elapsed) {
                return Some(player_move);
            } else {
                retry += 1;
            }
        }
        None
    }

    /// Lets the player to move make a move, as `next_move` does, and says
    /// whether a move was played. The move played is one that the player may
    /// make in this state. No move is played only where no try is allowed, or
    /// where the player may make a move that cannot be played.
    pub fn try_make_move(&mut self) -> (moved: bool)
        requires
            old(self).state().in_play(),
            !old(self).state().pieces.is_empty(),
        ensures
            moved ==> exists|played: QuartoMove|
                {
                    &&& #[trigger] old(self).mover().may_choose(old(self).state(), played)
                    &&& old(self).state().can_play(played)
                    &&& old(self).state().legal(played.0, played.1)
                    &&& final(self).state() == old(self).state().apply(played.0, played.1)
                },
            moved ==> {
                &&& final(self).state().in_play()
                &&& final(self).state().positions.len() == old(self).state().positions.len() - 1
                &&& final(self).state().pieces.len() == old(self).state().pieces.len() - 1
                &&& final(self).state().placed_count() == old(self).state().placed_count() + 1
            },
            !moved ==> final(self).state() == old(self).state(),
            !moved ==> old(self).retries_allowed() == 0 || old(self).mover_may_fail(),
            old(self).retries_allowed() == 0 ==> !moved,
            final(self).same_setup(old(self)),
            moved && old(self).file_logs() ==> exists|elapsed: u128|
                final(self).stats() == #[trigger] old(self).stats().counted(
                    old(self).player_one_to_move(),
                    elapsed,
                ),
            !moved || !old(self).file_logs() ==> final(self).stats() == old(self).stats(),
    {
        match self.next_move() {
            Some(player_move) => true,
            None => false,
        }
    }

    /// The last move of a game: the pending piece goes to the lowest free
    /// cell, which in a game played by the rules is the only one, and no
    /// piece is pending any more. The result is that cell.
    pub fn make_last_move(&mut self) -> (position: u8)
        requires
            old(self).state().wf(),
            !old(self).state().positions.is_empty(),
        ensures
            is_least(old(self).state().positions, position),
            final(self).state() == old(self).state().apply(position, NO_PIECE),
            final(self).same_setup(old(self)),
            final(self).stats() == old(self).stats(),
            old(self).state().in_play() && old(self).state().pieces.is_empty() ==> {
                &&& final(self).state().wf()
                &&& final(self).state().positions.len() == old(self).state().positions.len() - 1
                &&& final(self).state().pieces.is_empty()
                &&& final(self).state().placed_count() == old(self).state().placed_count() + 1
            },
    {
        let last_position = match least_member(&self.state.available_positions) {
            Some(position) => position,
            None => NO_POSITION,
        };
        proof {
            if self.state().in_play() && self.state().pieces.is_empty() {
                self.state().apply_legal(last_position, NO_PIECE);
            }
        }
        update_state(&mut self.state, last_position, NO_PIECE);
        last_position
    }

    /// Whether a move can be played: its cell is free, and so is the piece
    /// that it hands over.
    pub fn is_valid_move(&self, position: u8, next_piece: u8) -> (is_valid: bool)
        ensures
            is_valid == (self.state().pieces.contains(next_piece) && self.state().positions.contains(
                position,
            )),
    {
        broadcast use vstd::std_specs::hash::group_hash_axioms;

        let mut is_valid = true;

        if !self.state.available_pieces.contains(&next_piece) {
            is_valid = false;
        }
        if !self.state.available_positions.contains(&position) {
            is_valid = false;
        }

        is_valid
    }

    /// A free piece: the lowest one.
    pub fn get_random_piece(&self) -> (piece: u8)
        requires
            !self.state().pieces.is_empty(),
        ensures
            is_least(self.state().pieces, piece),
    {
        match least_member(&self.state.available_pieces) {
            Some(piece) => piece,
            None => NO_PIECE,
        }
    }

    /// A copy of the state of the game.
    pub fn get_current_state(&self) -> (state: QuartoGameState)
        ensures
            state@ == self.state(),
    {
        self.state.duplicate()
    }

    /// Whether the game is won.
    pub fn is_game_over(&self) -> (over: bool)
        ensures
            over == is_terminal(self.state().board),
    {
        crate::utils::is_game_over(&self.state.board)
    }

    /// One turn of a match. While pieces are free, the player to move is
    /// asked for a move; after a move that wins nothing the turn passes to
    /// the other player. With no piece free the last move is forced and made
    /// for the player.
    ///
    /// The result holds the move that was played, if one was, and how the
    /// match ended, if it did: with a win for the player who moved, on a
    /// board that is won; with a draw, after the forced move on a board that
    /// is not won; or, where the player offered no move that can be played,
    /// with the game as it was. That last end comes only where no try is
    /// allowed, or where the player may make a move that cannot be played.
    pub fn take_turn(&mut self) -> (turn: (Option<QuartoMove>, Option<GameResult>))
        requires
            old(self).state().in_play(),
            !is_terminal(old(self).state().board),
        ensures
            final(self).same_players(old(self)),
            final(self).console_logs() == old(self).console_logs(),
            final(self).file_logs() == old(self).file_logs(),
            final(self).retries_allowed() == old(self).retries_allowed(),
            final(self).state().wf(),
            old(self).state().pieces.is_empty() ==> turn.0 is Some && turn.1 is Some,
            !old(self).state().pieces.is_empty() && old(self).retries_allowed() == 0 ==> turn.0
                is None,
            match turn.0 {
                Some(player_move) => {
                    &&& old(self).state().legal(player_move.0, player_move.1)
                    &&& !old(self).state().pieces.is_empty() ==> old(self).mover().may_choose(
                        old(self).state(),
                        player_move,
                    )
                    &&& old(self).state().pieces.is_empty() ==> is_least(
                        old(self).state().positions,
                        player_move.0,
                    )
                    &&& final(self).state() == old(self).state().apply(player_move.0, player_move.1)
                    &&& final(self).state().positions.len() == old(self).state().positions.len()
                        - 1
                    &&& final(self).state().placed_count() == old(self).state().placed_count()
                        + 1
                },
                None => {
                    &&& final(self).state() == old(self).state()
                    &&& old(self).retries_allowed() == 0 || old(self).mover_may_fail()
                },
            },
            match turn.1 {
                None => {
                    &&& turn.0 is Some
                    &&& final(self).state().in_play()
                    &&& !is_terminal(final(self).state().board)
                    &&& final(self).player_one_to_move() != old(self).player_one_to_move()
                },
                Some(result) => {
                    &&& final(self).player_one_to_move() == old(self).player_one_to_move()
                    &&& match result {
                        GameResult::PlayerOneWon => old(self).player_one_to_move() && turn.0 is Some
                            && is_terminal(final(self).state().board),
                        GameResult::PlayerTwoWon => !old(self).player_one_to_move() && turn.0
                            is Some && is_terminal(final(self).state().board),
                        GameResult::Draw => {
                            &&& turn.0 is Some
                            &&& !is_terminal(final(self).state().board)
                            &&& final(self).state().pieces.is_empty()
                            &&& final(self).state().positions.is_empty()
                            &&& final(self).state().current_piece == NO_PIECE
                            &&& forall|p: int|
                                0 <= p < 16 ==> #[trigger] final(self).state().board[p]
                                    != EMPTY_CELL
                        },
                        GameResult::PlayerOneInvalid => old(self).player_one_to_move() && turn.0
                            is None,
                        GameResult::PlayerTwoInvalid => !old(self).player_one_to_move() && turn.0
                            is None,
                    }
                },
            },
    {
        proof {
            self.state().free_pieces_match_free_cells();
        }
        if self.state.available_pieces.is_empty() {
            let position = self.make_last_move();
            proof {
                let end = self.state();
                GameModel::lemma_finite(end.positions);
                assert(end.positions.is_empty());
                assert forall|p: int| 0 <= p < 16 implies #[trigger] end.board[p]
                    != EMPTY_CELL by {
                    assert(!end.positions.contains(p as u8));
                }
            }
            let result = if self.is_game_over() {
                if self.is_player_one_turn {
                    GameResult::PlayerOneWon
                } else {
                    GameResult::PlayerTwoWon
                }
            } else {
                GameResult::Draw
            };
            (Some(QuartoMove(position, NO_PIECE)), Some(result))
        } else {
            match self.next_move() {
                None => {
                    let result = if self.is_player_one_turn {
                        GameResult::PlayerOneInvalid
                    } else {
                        GameResult::PlayerTwoInvalid
                    };
                    (None, Some(result))
                },
                Some(player_move) => {
                    if self.is_game_over() {
                        let result = if self.is_player_one_turn {
                            GameResult::PlayerOneWon
                        } else {
                            GameResult::PlayerTwoWon
                        };
                        (Some(player_move), Some(result))
                    } else {
                        self.is_player_one_turn = !self.is_player_one_turn;
                        (Some(player_move), None)
                    }
                },
            }
        }
    }

    /// Plays a fresh game to its end. The lowest piece opens the game, the
    /// players move in turn, and the one who completes a line wins. A player
    /// who offers no move that can be played within the tries allowed ends
    /// the match. The sixteenth move is forced and made for the player; if
    /// it completes no line, the match is a draw.
    ///
    /// The player who started places the pieces with odd numbers, the other
    /// player those with even numbers. A win is reported for the player who
    /// placed the last piece, on a board that is won. A draw leaves a full
    /// board that is not won, with no piece and no cell free. A match ended
    /// by invalid moves leaves a game in play that is not won, with the
    /// player to move the one who failed: that end comes only where no try
    /// is allowed, and then before any piece is placed, or where that player
    /// may make a move that cannot be played.
    pub fn run(&mut self) -> (result: GameResult)
        requires
            old(self).state() == GameModel::initial(),
        ensures
            final(self).same_players(old(self)),
            final(self).state().wf(),
            final(self).console_logs() == old(self).console_logs(),
            final(self).file_logs() == old(self).file_logs(),
            final(self).retries_allowed() == old(self).retries_allowed(),
            !result.is_invalid() ==> final(self).player_one_to_move() == (old(
                self,
            ).player_one_to_move() == (final(self).state().placed_count() % 2 == 1)),
            result.is_invalid() ==> final(self).player_one_to_move() == (old(
                self,
            ).player_one_to_move() == (final(self).state().placed_count() % 2 == 0)),
            old(self).retries_allowed() == 0 ==> {
                &&& result.is_invalid()
                &&& final(self).state() == GameModel::initial().choose_opening_piece(0)
                &&& final(self).player_one_to_move() == old(self).player_one_to_move()
            },
            result.is_invalid() ==> old(self).retries_allowed() == 0
                || final(self).mover_may_fail(),
            match result {
                GameResult::PlayerOneWon => final(self).player_one_to_move() && is_terminal(
                    final(self).state().board,
                ),
                GameResult::PlayerTwoWon => !final(self).player_one_to_move() && is_terminal(
                    final(self).state().board,
                ),
                GameResult::Draw => {
                    &&& !is_terminal(final(self).state().board)
                    &&& final(self).state().pieces.is_empty()
                    &&& final(self).state().positions.is_empty()
                    &&& final(self).state().current_piece == NO_PIECE
                    &&& forall|p: int|
                        0 <= p < 16 ==> #[trigger] final(self).state().board[p] != EMPTY_CELL
                },
                GameResult::PlayerOneInvalid => {
                    &&& final(self).player_one_to_move()
                    &&& final(self).state().in_play()
                    &&& !is_terminal(final(self).state().board)
                },
                GameResult::PlayerTwoInvalid => {
                    &&& !final(self).player_one_to_move()
                    &&& final(self).state().in_play()
                    &&& !is_terminal(final(self).state().board)
                },
            },
    {
        proof {
            GameModel::opening_is_in_play(0);
            fresh_board_is_not_won();
            assert(self.state().pieces.contains(0));
        }
        let opening = self.get_random_piece();
        assert(opening == 0);
        self.make_first_move(opening);
        proof {
            self.state().free_pieces_match_free_cells();
        }

        loop
            invariant
                self.same_players(old(self)),
                self.state().in_play(),
                !is_terminal(self.state().board),
                self.console_logs() == old(self).console_logs(),
                self.file_logs() == old(self).file_logs(),
                self.retries_allowed() == old(self).retries_allowed(),
                self.player_one_to_move() == (old(self).player_one_to_move()
                    == (self.state().placed_count() % 2 == 0)),
                self.retries_allowed() == 0 ==> {
                    &&& self.state() == GameModel::initial().choose_opening_piece(0)
                    &&& self.player_one_to_move() == old(self).player_one_to_move()
                },
            decreases self.state().positions.len(),
        {
            let ghost before = *self;
            proof {
                if self.retries_allowed() == 0 {
                    assert(self.state().pieces.contains(1));
                }
            }
            let turn = self.take_turn();
            if let Some(result) = turn.1 {
                proof {
                    if result.is_invalid() {
                        assert(self.state() == before.state());
                        assert(self.mover() == before.mover());
                    }
                }
                return result;
            }
        }
    }

    /// Has the match shown on the console.
    pub fn with_console_logs(&mut self) -> (quarto: &mut Self)
        ensures
            quarto.console_logs(),
            quarto.same_players(old(self)),
            quarto.state() == old(self).state(),
            quarto.stats() == old(self).stats(),
            quarto.player_one_to_move() == old(self).player_one_to_move(),
            quarto.file_logs() == old(self).file_logs(),
            quarto.retries_allowed() == old(self).retries_allowed(),
            *final(self) == *final(quarto),
    {
        self.show_console_logs = true;
        self
    }

    /// Has the moves timed and counted.
    pub fn with_file_logs(&mut self) -> (quarto: &mut Self)
        ensures
            quarto.file_logs(),
            quarto.same_players(old(self)),
            quarto.state() == old(self).state(),
            quarto.stats() == old(self).stats(),
            quarto.player_one_to_move() == old(self).player_one_to_move(),
            quarto.console_logs() == old(self).console_logs(),
            quarto.retries_allowed() == old(self).retries_allowed(),
            *final(self) == *final(quarto),
    {
        self.log_stats = true;
        self
    }

    /// Sets how often a player is asked for a move.
    pub fn set_num_retries(&mut self, num_retries: u8) -> (quarto: &mut Self)
        ensures
            quarto.retries_allowed() == num_retries,
            quarto.same_players(old(self)),
            quarto.state() == old(self).state(),
            quarto.stats() == old(self).stats(),
            quarto.player_one_to_move() == old(self).player_one_to_move(),
            quarto.console_logs() == old(self).console_logs(),
            quarto.file_logs() == old(self).file_logs(),
            *final(self) == *final(quarto),
    {
        self.num_retries_allowed = num_retries;
        self
    }

    /// The board as text, a line for each row.
    pub fn display_board(&self) -> (text: String)
        ensures
            text@ == board_text(self.state().board),
    {
        board_string(&self.state.board)
    }

    /// The pending piece, the free pieces and the free cells as text.
    pub fn display_info(&self) -> (text: String)
        ensures
            text@ == info_text(self.state()),
    {
        info_string(&self.state)
    }

    /// What the console shows of the game: the board and what is pending and
    /// free, or nothing where the match is not shown.
    pub fn display_state(&self) -> (text: String)
        ensures
            text@ == if self.console_logs() {
                board_text(self.state().board) + info_text(self.state())
            } else {
                Seq::<char>::empty()
            },
    {
        if self.show_console_logs {
            let mut text = self.display_board();
            text.append(self.display_info().as_str());
            text
        } else {
            String::new()
        }
    }

    /// The name of player one or of player two: a name that this player may
    /// give.
    pub fn player_name(&self, player_one: bool) -> (name: String)
        ensures
            self.player(player_one).may_be_named(name@),
    {
        if player_one {
            self.player_one.name()
        } else {
            self.player_two.name()
        }
    }

    /// The sentence that reports a move of player one or of player two,
    /// under a name that this player may give.
    pub fn report_move(&self, player_one: bool, player_move: &QuartoMove) -> (report: String)
        ensures
            exists|name: Seq<char>|
                self.player(player_one).may_be_named(name) && report@ == #[trigger] move_report(
                    name,
                    *player_move,
                ),
    {
        if player_one {
            self.player_one.report_move(player_move)
        } else {
            self.player_two.report_move(player_move)
        }
    }

    /// What was counted so far.
    pub fn game_stats(&self) -> (stats: &GameStats)
        ensures
            *stats == self.stats(),
    {
        &self.game_stats
    }

    /// Whether the match is to be shown on the console.
    pub fn shows_console_logs(&self) -> (shown: bool)
        ensures
            shown == self.console_logs(),
    {
        self.show_console_logs
    }

    /// Whether the moves are timed and counted.
    pub fn logs_stats(&self) -> (logged: bool)
        ensures
            logged == self.file_logs(),
    {
        self.log_stats
    }

    /// How often a player is asked for a move in one turn.
    pub fn num_retries(&self) -> (tries: u8)
        ensures
            tries == self.retries_allowed(),
    {
        self.num_retries_allowed
    }

    /// Whether a turn can be taken: a piece is pending in a well-formed
    /// game that is not won.
    pub fn can_take_turn(&self) -> (ready: bool)
        ensures
            ready == (self.state().in_play() && !is_terminal(self.state().board)),
    {
        self.state.is_well_formed() && self.state.current_piece != NO_PIECE
            && !crate::utils::is_game_over(&self.state.board)
    }

    /// Whether the game is fresh, so that a match can be run.
    pub fn is_fresh(&self) -> (fresh: bool)
        ensures
            fresh == (self.state() == GameModel::initial()),
    {
        self.state.is_fresh()
    }

    /// Whether the next move is player one's.
    pub fn is_player_one_turn(&self) -> (turn: bool)
        ensures
            turn == self.player_one_to_move(),
    {
        self.is_player_one_turn
    }
}

} // verus!
