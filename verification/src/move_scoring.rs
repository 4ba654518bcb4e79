//! Scores by which moves are ordered before they are searched.

use vstd::prelude::*;
use crate::board_elements::{ChessMove, Piece, Square};
use crate::board_state::BoardState;
use crate::chess_board::{grid_wf, square_at};
use crate::evaluation::{positional_value, spec_positional_value};

verus! {

pub open spec fn spec_positional_value_delta(piece: Piece, mov: ChessMove) -> int {
    spec_positional_value(piece, mov.dest.spec_as_index()) - spec_positional_value(
        piece,
        mov.start.spec_as_index(),
    )
}

/// What the piece gains in placement by the move: the adjustment for the
/// destination minus the adjustment for the start.
#[inline]
pub fn positional_value_delta(piece: Piece, mov: ChessMove) -> (r: i32)
    requires
        mov.start.on_board(),
        mov.dest.on_board(),
    ensures
        r == spec_positional_value_delta(piece, mov),
        -120 <= r <= 120,
{
    positional_value(piece, mov.dest.as_index()) - positional_value(piece, mov.start.as_index())
}

/// The score of a move of the piece on its start cell: the gain in
/// placement and, for a capture, the value of the captured piece less a
/// tenth of the value of the capturing piece.
pub open spec fn spec_move_score(board: Seq<Square>, mov: ChessMove) -> int {
    match square_at(board, mov.start) {
        Square::Full(moving_piece) => spec_positional_value_delta(moving_piece, mov) + (
        match square_at(board, mov.dest) {
            Square::Full(captured_piece) => captured_piece.spec_value() - moving_piece.spec_value()
                / 10,
            _ => 0,
        }),
        _ => 0,
    }
}

/// Scores a move for ordering: captures of valuable pieces by cheap ones
/// and gains in placement come first.
pub fn move_score(board_state: &BoardState, mov: ChessMove) -> (r: i32)
    requires
        grid_wf(board_state@.board),
        mov.start.on_board(),
        mov.dest.on_board(),
        square_at(board_state@.board, mov.start) is Full,
    ensures
        r == spec_move_score(board_state@.board, mov),
        -1120 <= r <= 10120,
{
    let moving_piece = board_state.board.square(mov.start).piece().unwrap();
    let mut move_score: i32 = positional_value_delta(moving_piece, mov);
    if let Some(captured_piece) = board_state.board.square(mov.dest).piece() {
        move_score += captured_piece.value() - moving_piece.value() / 10;
    }
    move_score
}

} // verus!
