//! Static evaluation: the material value of each piece plus an adjustment
//! for the cell it stands on, summed over the board with White's pieces
//! counted positive and Black's negative.

use vstd::prelude::*;
use crate::board_elements::{ChessCell, Piece, PieceColor, PieceKind, Square};
use crate::board_state::BoardState;
use crate::chess_board::square_at;
use crate::position::{board_score, board_score_upto, lemma_index_round_trip, seen_by};

verus! {

/// The adjustment tables are written as the board is seen from White's
/// side, the eighth rank first: entry 63 belongs to `a1`. A White piece on
/// the cell with dense index `i` reads entry `63 - i`, a Black piece reads
/// entry `i`.
pub open spec fn table_index(color: PieceColor, pos: usize) -> int {
    match color {
        PieceColor::White => 63 - pos,
        PieceColor::Black => pos as int,
    }
}

#[verifier::opaque]
pub open spec fn spec_positional_value(piece: Piece, pos: usize) -> i32 {
    let index = table_index(piece.color, pos);
    match piece.kind {
        PieceKind::Pawn => PAWN_POSITION_VALUES[index],
        PieceKind::Knight => KNIGHT_POSITION_VALUES[index],
        PieceKind::Bishop => BISHOP_POSITION_VALUES[index],
        PieceKind::Rook => ROOK_POSITION_VALUES[index],
        PieceKind::Queen => QUEEN_POSITION_VALUES[index],
        PieceKind::King => KING_POSITION_VALUES[index],
    }
}

/// The smallest entry of the adjustment tables.
pub const MIN_POSITIONAL_VALUE: i32 = -50;

/// The largest entry of the adjustment tables.
pub const MAX_POSITIONAL_VALUE: i32 = 70;

/// Every adjustment lies between the two bounds.
pub proof fn lemma_positional_value_bounds(piece: Piece, pos: usize)
    requires
        pos < 64,
    ensures
        MIN_POSITIONAL_VALUE <= spec_positional_value(piece, pos) <= MAX_POSITIONAL_VALUE,
{
    reveal(spec_positional_value);
}

/// The adjustment for a piece on the cell with the given dense index.
#[verifier::when_used_as_spec(spec_positional_value)]
pub fn positional_value(piece: Piece, pos: usize) -> (r: i32)
    requires
        pos < 64,
    ensures
        r == spec_positional_value(piece, pos),
        MIN_POSITIONAL_VALUE <= r <= MAX_POSITIONAL_VALUE,
{
    proof {
        reveal(spec_positional_value);
        lemma_positional_value_bounds(piece, pos);
    }
    let position_values_index = match piece.color {
        PieceColor::White => 63 - pos,
        PieceColor::Black => pos,
    };
    match piece.kind {
        PieceKind::Pawn => PAWN_POSITION_VALUES[position_values_index],
        PieceKind::Knight => KNIGHT_POSITION_VALUES[position_values_index],
        PieceKind::Bishop => BISHOP_POSITION_VALUES[position_values_index],
        PieceKind::Rook => ROOK_POSITION_VALUES[position_values_index],
        PieceKind::Queen => QUEEN_POSITION_VALUES[position_values_index],
        PieceKind::King => KING_POSITION_VALUES[position_values_index],
    }
}

pub open spec fn spec_evaluate_piece(piece: Piece, pos: usize) -> i32 {
    (piece.spec_value() + spec_positional_value(piece, pos)) as i32
}

/// What a piece on the cell with the given dense index is worth: its
/// material value plus the adjustment for the cell.
#[verifier::when_used_as_spec(spec_evaluate_piece)]
pub fn evaluate_piece(piece: Piece, pos: usize) -> (r: i32)
    requires
        pos < 64,
    ensures
        r == spec_evaluate_piece(piece, pos),
        r == piece.spec_value() + spec_positional_value(piece, pos),
        50 <= r <= 10070,
{
    piece.value() + positional_value(piece, pos)
}

/// What the pieces of one colour on the cells with a dense index below
/// `n` are worth together.
pub open spec fn player_score_upto(board: Seq<Square>, color: PieceColor, n: nat) -> int
    decreases n,
{
    if n == 0 {
        0
    } else {
        let index = (n - 1) as usize;
        player_score_upto(board, color, (n - 1) as nat) + (match square_at(
            board,
            ChessCell::spec_from_index(index),
        ) {
            Square::Full(piece) => if piece.color == color {
                spec_evaluate_piece(piece, index) as int
            } else {
                0
            },
            _ => 0,
        })
    }
}

/// What the pieces of one colour are worth together.
pub open spec fn player_score(board: Seq<Square>, color: PieceColor) -> int {
    player_score_upto(board, color, 64)
}

/// The score of the board is what White's pieces are worth minus what
/// Black's pieces are worth.
pub proof fn lemma_player_scores(board: Seq<Square>, n: nat)
    requires
        n <= 64,
    ensures
        board_score_upto(board, n) == player_score_upto(board, PieceColor::White, n)
            - player_score_upto(board, PieceColor::Black, n),
        0 <= player_score_upto(board, PieceColor::White, n) <= 10070 * n,
        0 <= player_score_upto(board, PieceColor::Black, n) <= 10070 * n,
    decreases n,
{
    if n > 0 {
        lemma_player_scores(board, (n - 1) as nat);
        match square_at(board, ChessCell::spec_from_index((n - 1) as usize)) {
            Square::Full(piece) => {
                lemma_positional_value_bounds(piece, (n - 1) as usize);
            },
            _ => {},
        }
    }
}

/// Adds up what the pieces of one colour are worth.
fn get_player_eval(board_state: &BoardState, color: PieceColor) -> (r: i32)
    requires
        board_state@.pieces_consistent(),
    ensures
        r == player_score(board_state@.board, color),
        0 <= r <= 644480,
{
    let ghost board = board_state@.board;
    let bitboard = match color {
        PieceColor::White => board_state.white_bitboard,
        PieceColor::Black => board_state.black_bitboard,
    };
    let mut sum: i32 = 0;
    let mut index: usize = 0;
    proof {
        lemma_player_scores(board, 0);
    }
    while index < 64
        invariant
            index <= 64,
            board == board_state@.board,
            board_state@.pieces_consistent(),
            bitboard == board_state@.bitboard_of(color),
            sum == player_score_upto(board, color, index as nat),
            0 <= sum <= 10070 * index,
        decreases 64 - index,
    {
        proof {
            lemma_player_scores(board, (index + 1) as nat);
            lemma_index_round_trip(ChessCell(0, 0), index);
            assert(board_state@.bitboard_of(color).spec_contains(index) <==> board_state@.square(
                ChessCell::spec_from_index(index),
            ).spec_is_color(color));
        }
        if bitboard.contains(index) {
            let pos = ChessCell::from_index(index);
            let piece = board_state.board.square(pos).piece().unwrap();
            proof {
                lemma_positional_value_bounds(piece, index);
            }
            sum += evaluate_piece(piece, index);
        }
        index += 1;
    }
    sum
}

/// The score of the board as the side to move sees it, computed from
/// nothing.
pub fn evaluate(board_state: &BoardState) -> (r: i32)
    requires
        board_state@.pieces_consistent(),
    ensures
        r == seen_by(board_state.to_move, board_score(board_state@.board)),
        -644480 <= r <= 644480,
{
    let mut evaluation: i32 = 0;
    evaluation += get_player_eval(board_state, PieceColor::White);
    evaluation -= get_player_eval(board_state, PieceColor::Black);
    proof {
        lemma_player_scores(board_state@.board, 64);
        match board_state.to_move {
            PieceColor::White => assert(evaluation * 1 == evaluation),
            PieceColor::Black => assert(evaluation * (-1) == -evaluation),
        }
    }
    evaluation * board_state.to_move.signum()
}

/// The adjustments for a pawn.
pub const PAWN_POSITION_VALUES: [i32; 64] = [
    0, 0, 0, 0, 0, 0, 0, 0,
    65, 60, 60, 70, 70, 60, 60, 65,
    15, 15, 15, 20, 20, 15, 15, 15,
    5, 5, 0, 10, 10, 0, 5, 5,
    0, -5, -20, 30, 30, -20, -5, 0,
    10, 5, -10, -10, -10, -10, 5, 10,
    5, 10, 10, -20, -20, 10, 10, 5,
    0, 0, 0, 0, 0, 0, 0, 0,
];

/// The adjustments for a knight.
pub const KNIGHT_POSITION_VALUES: [i32; 64] = [
    -30, -20, -20, -10, -10, -20, -20, -30,
    -15, -10, -10, -5, -5, -10, -10, -15,
    0, 5, 5, 10, 10, 5, 5, 0,
    -5, 5, 10, 25, 25, 10, 5, -5,
    -5, 0, 20, 25, 25, 20, 0, -5,
    -5, -5, 20, 0, 0, 20, -5, -5,
    -20, -10, -10, -10, -10, -10, -10, -20,
    -50, -20, 0, -10, -10, 0, -20, -50,
];

/// The adjustments for a bishop.
pub const BISHOP_POSITION_VALUES: [i32; 64] = [
    -10, -15, -15, -20, -20, -15, -15, -10,
    -5, 0, -10, -10, -10, -10, -5, 0,
    10, 5, 5, 12, 12, 5, 5, 10,
    0, 20, 5, 10, 10, 5, 20, 0,
    -5, 0, 20, 10, 10, 20, 0, -5,
    -5, 0, 5, 15, 15, 5, 0, -5,
    -5, 10, 0, 5, 5, 0, 10, -5,
    -10, 0, -15, 0, 0, -15, 0, -10,
];

/// The adjustments for a rook.
pub const ROOK_POSITION_VALUES: [i32; 64] = [
    10, 10, 15, 15, 15, 15, 10, 10,
    20, 25, 30, 30, 30, 30, 25, 20,
    5, 10, 15, 15, 15, 15, 10, 5,
    5, 5, 10, 10, 10, 10, 5, 5,
    5, 5, 10, 10, 10, 10, 5, 5,
    0, 0, 5, 10, 10, 5, 0, 0,
    -5, -5, 0, 5, 5, 0, -5, -5,
    -10, -10, 15, 20, 20, 15, -10, -10,
];

/// The adjustments for a queen.
pub const QUEEN_POSITION_VALUES: [i32; 64] = [
    -10, -10, -10, -10, -10, -10, -10, -10,
    -5, -5, -5, -5, -5, -5, -5, -5,
    -10, -10, -5, -5, -5, -5, -10, -10,
    -5, -5, -5, -5, -5, -5, -5, -5,
    -10, 0, 0, 0, 0, 0, 0, -5,
    -15, -10, 5, 0, 5, 0, 0, -5,
    -15, -10, -5, 5, 0, 5, -15, -10,
    -20, -15, -5, -5, 0, -5, -15, -20,
];

/// The adjustments for a king.
pub const KING_POSITION_VALUES: [i32; 64] = [
    -50, -50, -50, -50, -50, -50, -50, -50,
    -35, -35, -35, -35, -35, -35, -35, -35,
    -25, -25, 5, -25, -25, 5, -25, -25,
    -15, -15, 15, 0, 0, -15, -15, -15,
    -15, -15, 15, 0, 0, -15, -15, -15,
    -15, -15, -15, -15, -15, -15, -15, -15,
    -20, -5, 5, -15, -15, -20, -10, -20,
    5, 40, 1, 0, 1, 35, 50, 5,
];

} // verus!
