//! Quarto: two players place pieces with four attributes on a board of four
//! by four cells, and each hands the other the piece to place next. A line of
//! four pieces that share an attribute wins.
//!
//! `quarto` holds the state of a game, its mathematical model and the rules
//! that hold of it, and the match between two players. `utils` holds the
//! state transition and the win detector. `quarto_agent` holds the players:
//! the heuristic evaluator, the negamax search with alpha-beta pruning, what
//! is proved of the search, and the agents built on it.

pub mod quarto;
pub mod quarto_agent;
pub mod utils;
