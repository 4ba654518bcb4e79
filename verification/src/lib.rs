//! A chess engine core: a padded mailbox board with colour bitboards,
//! attack tables, a position whose cached fields are kept true move by
//! move, a generator of legal moves, and a negamax search with alpha-beta
//! pruning.
//!
//! The modules, from the leaves up:
//!
//! - `constants`, `board_elements`, `chess_board`: coordinates, value
//!   types and the board.
//! - `ray_attacks`, `evaluation`, `zobrist_hashing`: the tables, and the
//!   proof of what the attack tables hold.
//! - `position`: the model of a position, what it means for its cache to
//!   agree with its board, and what a move does to it.
//! - `board_state`, `bookkeeping`, `unmake`, `fen`: the position itself,
//!   making a move, taking it back, reading a position from text.
//! - `move_generation`, `move_soundness`: the generator, and what holds
//!   of the moves that it produces.
//! - `move_scoring`, `search`, `minimax`: the search, and the proof that
//!   pruning does not change its result.
//! - `laws`: what holds along a whole game.

pub mod board_elements;
pub mod board_state;
pub mod bookkeeping;
pub mod chess_board;
pub mod constants;
pub mod evaluation;
pub mod fen;
pub mod laws;
pub mod minimax;
pub mod move_generation;
pub mod move_scoring;
pub mod move_soundness;
pub mod position;
pub mod ray_attacks;
pub mod search;
pub mod unmake;
pub mod zobrist_hashing;
