//! The mathematical model of a position, and what it means for the cached
//! parts of a position to agree with its board.

use vstd::prelude::*;
use crate::board_elements::{
    bit_is_set, BitBoard, CastlingRights, CastlingType, ChessCell, ChessMove, Piece, PieceColor,
    PieceKind, Square,
};
use crate::chess_board::{grid_wf, put, square_at};
use crate::evaluation::spec_evaluate_piece;
use crate::zobrist_hashing::ZobristOracle;

verus! {

/// A position as a plain value: the 144 squares of the padded grid in
/// row-major order, and the cached fields beside them.
pub struct Position {
    pub board: Seq<Square>,
    pub to_move: PieceColor,
    pub white_bitboard: BitBoard,
    pub black_bitboard: BitBoard,
    pub white_king_location: ChessCell,
    pub black_king_location: ChessCell,
    pub last_move: Option<ChessMove>,
    pub en_passant: Option<ChessCell>,
    pub eval: i32,
    pub castling_rights: CastlingRights,
    pub zobrist_key: u64,
}

/// What a square on the cell with the given dense index adds to the score
/// of the board: the worth of a White piece, minus the worth of a Black
/// piece.
pub open spec fn square_score(square: Square, index: usize) -> int {
    match square {
        Square::Full(piece) => match piece.color {
            PieceColor::White => spec_evaluate_piece(piece, index) as int,
            PieceColor::Black => -spec_evaluate_piece(piece, index),
        },
        _ => 0,
    }
}

/// A White-positive score as the given colour sees it, and the other way
/// round: White's view is the score itself, Black's view its negation.
pub open spec fn seen_by(color: PieceColor, score: int) -> int {
    match color {
        PieceColor::White => score,
        PieceColor::Black => -score,
    }
}

/// The score of the cells with a dense index below `n`.
pub open spec fn board_score_upto(board: Seq<Square>, n: nat) -> int
    decreases n,
{
    if n == 0 {
        0
    } else {
        let index = (n - 1) as usize;
        board_score_upto(board, (n - 1) as nat) + square_score(
            square_at(board, ChessCell::spec_from_index(index)),
            index,
        )
    }
}

/// The score of the board: material and placement of White's pieces minus
/// those of Black's.
pub open spec fn board_score(board: Seq<Square>) -> int {
    board_score_upto(board, 64)
}

/// What a square on the cell with the given dense index adds to the hash.
pub open spec fn square_hash(square: Square, index: usize) -> u64 {
    match square {
        Square::Full(piece) => ZobristOracle::spec_piece_bitstring(piece, index),
        _ => 0,
    }
}

/// The hash of the cells with a dense index below `n`.
pub open spec fn board_hash_upto(board: Seq<Square>, n: nat) -> u64
    decreases n,
{
    if n == 0 {
        0
    } else {
        let index = (n - 1) as usize;
        board_hash_upto(board, (n - 1) as nat) ^ square_hash(
            square_at(board, ChessCell::spec_from_index(index)),
            index,
        )
    }
}

/// The hash of the pieces on the board.
pub open spec fn board_hash(board: Seq<Square>) -> u64 {
    board_hash_upto(board, 64)
}

/// The hash of the pieces of one colour on the cells with a dense index
/// below `n`.
pub open spec fn player_hash_upto(board: Seq<Square>, color: PieceColor, n: nat) -> u64
    decreases n,
{
    if n == 0 {
        0
    } else {
        let index = (n - 1) as usize;
        let square = square_at(board, ChessCell::spec_from_index(index));
        player_hash_upto(board, color, (n - 1) as nat) ^ (if square.spec_is_color(color) {
            square_hash(square, index)
        } else {
            0
        })
    }
}

proof fn lemma_xor_split(white: u64, black: u64, here: u64)
    by (bit_vector)
    ensures
        (white ^ black) ^ here == (white ^ here) ^ (black ^ 0),
        (white ^ black) ^ here == (white ^ 0) ^ (black ^ here),
        (white ^ black) ^ 0 == (white ^ 0) ^ (black ^ 0),
        0u64 ^ 0u64 == 0u64,
{
}

/// The hash of the board is the hash of White's pieces combined with the
/// hash of Black's pieces.
pub proof fn lemma_player_hashes(board: Seq<Square>, n: nat)
    requires
        n <= 64,
    ensures
        board_hash_upto(board, n) == player_hash_upto(board, PieceColor::White, n)
            ^ player_hash_upto(board, PieceColor::Black, n),
    decreases n,
{
    if n > 0 {
        lemma_player_hashes(board, (n - 1) as nat);
        let index = (n - 1) as usize;
        let square = square_at(board, ChessCell::spec_from_index(index));
        lemma_xor_split(
            player_hash_upto(board, PieceColor::White, (n - 1) as nat),
            player_hash_upto(board, PieceColor::Black, (n - 1) as nat),
            square_hash(square, index),
        );
    } else {
        lemma_xor_split(0, 0, 0);
    }
}

/// What one castling right adds to the hash.
pub open spec fn right_hash(rights: CastlingRights, castling_type: CastlingType) -> u64 {
    if rights.spec_has(castling_type) {
        ZobristOracle::spec_castling_right_bitstring(castling_type)
    } else {
        0
    }
}

/// The hash of the castling rights.
pub open spec fn rights_hash(rights: CastlingRights) -> u64 {
    right_hash(rights, CastlingType::WhiteKingSide) ^ right_hash(
        rights,
        CastlingType::WhiteQueenSide,
    ) ^ right_hash(rights, CastlingType::BlackKingSide) ^ right_hash(
        rights,
        CastlingType::BlackQueenSide,
    )
}

/// The hash of the en passant target: the string of its file.
pub open spec fn en_passant_hash(en_passant: Option<ChessCell>) -> u64 {
    match en_passant {
        Some(cell) => ZobristOracle::spec_en_passant_bitstring(cell.1),
        None => 0,
    }
}

/// The hash of the side to move.
pub open spec fn side_hash(to_move: PieceColor) -> u64 {
    match to_move {
        PieceColor::White => 0,
        PieceColor::Black => ZobristOracle::spec_black_to_move_bitstring(),
    }
}

/// The hash of a position, computed from nothing but the board, the
/// castling rights, the en passant target and the side to move.
pub open spec fn position_hash(
    board: Seq<Square>,
    castling_rights: CastlingRights,
    en_passant: Option<ChessCell>,
    to_move: PieceColor,
) -> u64 {
    board_hash(board) ^ rights_hash(castling_rights) ^ en_passant_hash(en_passant) ^ side_hash(
        to_move,
    )
}

/// Every square contributes between -10070 and 10070.
pub proof fn lemma_square_score_bounds(square: Square, index: usize)
    requires
        index < 64,
    ensures
        -10070 <= square_score(square, index) <= 10070,
{
    match square {
        Square::Full(piece) => {
            crate::evaluation::lemma_positional_value_bounds(piece, index);
        },
        _ => {},
    }
}

/// The score of the first `n` cells lies within `n` times the bound of one.
pub proof fn lemma_board_score_bounds(board: Seq<Square>, n: nat)
    requires
        n <= 64,
    ensures
        -10070 * n <= board_score_upto(board, n) <= 10070 * n,
    decreases n,
{
    if n > 0 {
        lemma_board_score_bounds(board, (n - 1) as nat);
        lemma_square_score_bounds(
            square_at(board, ChessCell::spec_from_index((n - 1) as usize)),
            (n - 1) as usize,
        );
    }
}

/// A cell of the playing area is the cell of its dense index, and the
/// other way round.
pub proof fn lemma_index_round_trip(cell: ChessCell, index: usize)
    ensures
        cell.on_board() ==> cell.spec_as_index() < 64 && ChessCell::spec_from_index(
            cell.spec_as_index(),
        ) == cell,
        index < 64 ==> ChessCell::spec_from_index(index).on_board() && ChessCell::spec_from_index(
            index,
        ).spec_as_index() == index,
{
}

/// Overwriting one cell of the playing area changes the score by the
/// difference of what the cell contributes.
pub proof fn lemma_score_put(board: Seq<Square>, cell: ChessCell, square: Square, n: nat)
    requires
        board.len() == 144,
        cell.on_board(),
        n <= 64,
    ensures
        board_score_upto(put(board, cell, square), n) == board_score_upto(board, n) + (if cell.spec_as_index()
            < n {
            square_score(square, cell.spec_as_index()) - square_score(
                square_at(board, cell),
                cell.spec_as_index(),
            )
        } else {
            0
        }),
    decreases n,
{
    if n > 0 {
        lemma_score_put(board, cell, square, (n - 1) as nat);
        let index = (n - 1) as usize;
        let other = ChessCell::spec_from_index(index);
        lemma_index_round_trip(cell, index);
        if other != cell {
            assert(other.grid_index() != cell.grid_index());
        }
    }
}

/// `x ^ 0 == x`, `x ^ x == 0`, and exclusive or may be regrouped and
/// reordered.
pub proof fn lemma_xor_laws(a: u64, b: u64, c: u64)
    by (bit_vector)
    ensures
        a ^ 0 == a,
        0 ^ a == a,
        a ^ a == 0,
        a ^ b == b ^ a,
        (a ^ b) ^ c == a ^ (b ^ c),
        (a ^ b) ^ b == a,
{
}

/// Overwriting one cell of the playing area changes the hash by the
/// strings of what the cell held and of what it holds now.
pub proof fn lemma_hash_put(board: Seq<Square>, cell: ChessCell, square: Square, n: nat)
    requires
        board.len() == 144,
        cell.on_board(),
        n <= 64,
    ensures
        board_hash_upto(put(board, cell, square), n) == (if cell.spec_as_index() < n {
            board_hash_upto(board, n) ^ square_hash(square_at(board, cell), cell.spec_as_index())
                ^ square_hash(square, cell.spec_as_index())
        } else {
            board_hash_upto(board, n)
        }),
    decreases n,
{
    if n > 0 {
        lemma_hash_put(board, cell, square, (n - 1) as nat);
        let index = (n - 1) as usize;
        let other = ChessCell::spec_from_index(index);
        lemma_index_round_trip(cell, index);
        let before = board_hash_upto(board, (n - 1) as nat);
        let old_here = square_hash(square_at(board, cell), cell.spec_as_index());
        let new_here = square_hash(square, cell.spec_as_index());
        if other != cell {
            assert(other.grid_index() != cell.grid_index());
            let here = square_hash(square_at(board, other), index);
            if cell.spec_as_index() < n - 1 {
                lemma_xor_shuffle(before, old_here, new_here, here);
            }
        } else {
            lemma_xor_insert(before, old_here, new_here);
        }
    }
}

proof fn lemma_xor_shuffle(a: u64, b: u64, c: u64, d: u64)
    by (bit_vector)
    ensures
        ((a ^ b) ^ c) ^ d == ((a ^ d) ^ b) ^ c,
{
}

proof fn lemma_xor_insert(a: u64, b: u64, c: u64)
    by (bit_vector)
    ensures
        a ^ c == ((a ^ b) ^ b) ^ c,
{
}

/// The cells whose bit is set among the first `n` bits, in ascending order
/// of their dense index.
pub open spec fn cells_of(bits: u64, n: nat) -> Seq<ChessCell>
    decreases n,
{
    if n == 0 {
        Seq::empty()
    } else {
        let rest = cells_of(bits, (n - 1) as nat);
        if bit_is_set(bits, (n - 1) as u64) {
            rest.push(ChessCell::spec_from_index((n - 1) as usize))
        } else {
            rest
        }
    }
}

/// The cells of a bitboard are cells of the playing area whose bit is set,
/// and every such cell is among them.
pub proof fn lemma_cells_of(bits: u64, n: nat)
    requires
        n <= 64,
    ensures
        forall|k: int|
            0 <= k < cells_of(bits, n).len() ==> {
                let cell = #[trigger] cells_of(bits, n)[k];
                cell.on_board() && cell.spec_as_index() < n && bit_is_set(
                    bits,
                    cell.spec_as_index() as u64,
                )
            },
        forall|index: usize|
            index < n && bit_is_set(bits, index as u64) ==> cells_of(bits, n).contains(
                #[trigger] ChessCell::spec_from_index(index),
            ),
    decreases n,
{
    if n > 0 {
        lemma_cells_of(bits, (n - 1) as nat);
        let rest = cells_of(bits, (n - 1) as nat);
        let all = cells_of(bits, n);
        lemma_index_round_trip(ChessCell(0, 0), (n - 1) as usize);
        assert forall|index: usize| index < n && bit_is_set(bits, index as u64) implies all.contains(
            #[trigger] ChessCell::spec_from_index(index),
        ) by {
            if index < n - 1 {
                let k = choose|k: int|
                    0 <= k < rest.len() && rest[k] == ChessCell::spec_from_index(index);
                assert(all[k] == ChessCell::spec_from_index(index));
            } else {
                assert(all[all.len() - 1] == ChessCell::spec_from_index(index));
            }
        }
    }
}

impl Position {
    pub open spec fn square(self, cell: ChessCell) -> Square {
        square_at(self.board, cell)
    }

    pub open spec fn bitboard_of(self, color: PieceColor) -> BitBoard {
        match color {
            PieceColor::White => self.white_bitboard,
            PieceColor::Black => self.black_bitboard,
        }
    }

    /// The cells on which the pieces of the given colour stand, by the
    /// bitboard of that colour.
    pub open spec fn piece_positions(self, color: PieceColor) -> Seq<ChessCell> {
        cells_of(self.bitboard_of(color).0, 64)
    }

    /// The ways of castling for which the given colour still holds the
    /// right: king side first, then queen side.
    pub open spec fn available_castling_types(self, color: PieceColor) -> Seq<CastlingType> {
        let (king_side, queen_side) = match color {
            PieceColor::White => (CastlingType::WhiteKingSide, CastlingType::WhiteQueenSide),
            PieceColor::Black => (CastlingType::BlackKingSide, CastlingType::BlackQueenSide),
        };
        (if self.castling_rights.spec_has(king_side) {
            seq![king_side]
        } else {
            Seq::empty()
        }) + (if self.castling_rights.spec_has(queen_side) {
            seq![queen_side]
        } else {
            Seq::empty()
        })
    }

    pub open spec fn king_location_of(self, color: PieceColor) -> ChessCell {
        match color {
            PieceColor::White => self.white_king_location,
            PieceColor::Black => self.black_king_location,
        }
    }

    /// Each bitboard holds exactly the cells on which a piece of its
    /// colour stands.
    pub open spec fn bitboards_consistent(self) -> bool {
        forall|index: usize, color: PieceColor|
            index < 64 ==> (#[trigger] self.bitboard_of(color).spec_contains(index)
                <==> self.square(ChessCell::spec_from_index(index)).spec_is_color(color))
    }

    /// On each recorded king location stands the king of that colour.
    pub open spec fn kings_placed(self) -> bool {
        forall|color: PieceColor|
            (#[trigger] self.king_location_of(color)).on_board() && self.square(
                self.king_location_of(color),
            ) == Square::Full(Piece { color, kind: PieceKind::King })
    }

    /// The cell on which the pawn stands that an en passant capture onto
    /// `target` removes.
    pub open spec fn en_passant_victim(self, target: ChessCell) -> ChessCell {
        ChessCell(self.to_move.spec_en_passant_attacking_rank(), target.1)
    }

    /// An en passant target is the empty cell that an enemy pawn has just
    /// skipped, and that pawn stands right behind it.
    pub open spec fn en_passant_consistent(self) -> bool {
        match self.en_passant {
            None => true,
            Some(target) => {
                &&& target.on_board()
                &&& target.0 == self.to_move.spec_opposite().spec_en_passant_rank()
                &&& self.square(target) == Square::Empty
                &&& self.square(self.en_passant_victim(target)) == Square::Full(
                    Piece { color: self.to_move.spec_opposite(), kind: PieceKind::Pawn },
                )
            },
        }
    }

    /// Whether king and rook stand where the given way of castling needs
    /// them.
    pub open spec fn castling_pieces_home(self, castling_type: CastlingType) -> bool {
        &&& self.king_location_of(castling_type.color()) == castling_type.king_home()
        &&& self.square(castling_type.king_home()) == Square::Full(
            Piece { color: castling_type.color(), kind: PieceKind::King },
        )
        &&& self.square(castling_type.rook_home()) == Square::Full(
            Piece { color: castling_type.color(), kind: PieceKind::Rook },
        )
    }

    /// A castling right is held only while its king and its rook have not
    /// left their home squares.
    pub open spec fn castling_consistent(self) -> bool {
        forall|castling_type: CastlingType| #[trigger]
            self.castling_rights.spec_has(castling_type) ==> self.castling_pieces_home(
                castling_type,
            )
    }

    /// The running evaluation is the score of the board.
    pub open spec fn eval_consistent(self) -> bool {
        self.eval == board_score(self.board)
    }

    /// The hash is the hash of the position computed from nothing.
    pub open spec fn hash_consistent(self) -> bool {
        self.zobrist_key == position_hash(
            self.board,
            self.castling_rights,
            self.en_passant,
            self.to_move,
        )
    }

    /// Everything that is cached beside the board agrees with the board.
    pub open spec fn wf(self) -> bool {
        &&& grid_wf(self.board)
        &&& self.bitboards_consistent()
        &&& self.kings_placed()
        &&& self.en_passant_consistent()
        &&& self.castling_consistent()
        &&& self.eval_consistent()
        &&& self.hash_consistent()
    }
}

/// The distance between two coordinates.
pub open spec fn abs_diff(a: usize, b: usize) -> int {
    if a >= b {
        a - b
    } else {
        b - a
    }
}

/// The castling rights that are left after a move of the given piece: a
/// king's move gives up both rights of its colour, a rook's move from a
/// corner the right of that corner, and any move onto a corner the right
/// of that corner.
pub open spec fn revoked(rights: CastlingRights, piece: Piece, mov: ChessMove) -> CastlingRights {
    let after_king = if piece.kind == PieceKind::King {
        rights.without_color(piece.color)
    } else {
        rights
    };
    let after_rook = if piece.kind == PieceKind::Rook && CastlingType::spec_is_rook_home(
        mov.start,
    ) {
        after_king.without(CastlingType::spec_of_rook_home(mov.start))
    } else {
        after_king
    };
    if CastlingType::spec_is_rook_home(mov.dest) {
        after_rook.without(CastlingType::spec_of_rook_home(mov.dest))
    } else {
        after_rook
    }
}

/// The way of castling in which the king lands on `dest`.
pub open spec fn castling_type_by_dest(dest: ChessCell) -> CastlingType {
    if dest == CastlingType::WhiteKingSide.king_dest() {
        CastlingType::WhiteKingSide
    } else if dest == CastlingType::WhiteQueenSide.king_dest() {
        CastlingType::WhiteQueenSide
    } else if dest == CastlingType::BlackKingSide.king_dest() {
        CastlingType::BlackKingSide
    } else {
        CastlingType::BlackQueenSide
    }
}

impl Position {
    /// The piece on the start cell of the move.
    pub open spec fn mover(self, mov: ChessMove) -> Piece {
        self.square(mov.start)->Full_0
    }

    /// What the move captures on its destination, if anything.
    pub open spec fn captured(self, mov: ChessMove) -> Option<Piece> {
        self.square(mov.dest).spec_piece()
    }

    /// What stands on the destination after the move: the piece promoted
    /// to, or the mover.
    pub open spec fn placed(self, mov: ChessMove) -> Piece {
        match mov.promotion {
            Some(promoted) => promoted,
            None => self.mover(mov),
        }
    }

    /// A king's move of two files is castling.
    pub open spec fn is_castle(self, mov: ChessMove) -> bool {
        self.mover(mov).kind == PieceKind::King && abs_diff(mov.start.1, mov.dest.1) == 2
    }

    /// A pawn's diagonal step onto the en passant target is the capture
    /// en passant.
    pub open spec fn is_en_passant_capture(self, mov: ChessMove) -> bool {
        Some(mov.dest) == self.en_passant && self.mover(mov).kind == PieceKind::Pawn && abs_diff(
            mov.start.1,
            mov.dest.1,
        ) == 1
    }

    /// A pawn's move of two ranks is the double step.
    pub open spec fn is_double_push(self, mov: ChessMove) -> bool {
        self.mover(mov).kind == PieceKind::Pawn && abs_diff(mov.start.0, mov.dest.0) == 2
    }

    /// This position with the bitboard of the given colour replaced.
    pub open spec fn with_bitboard(self, color: PieceColor, bitboard: BitBoard) -> Position {
        match color {
            PieceColor::White => Position { white_bitboard: bitboard, ..self },
            PieceColor::Black => Position { black_bitboard: bitboard, ..self },
        }
    }

    /// Board and bitboards after a piece of the side to move has gone
    /// from `start` to `dest` and stands there as `placed`. Nothing else
    /// changes.
    pub open spec fn relocated(self, start: ChessCell, dest: ChessCell, placed: Piece) -> Position {
        let mover = self.to_move;
        let enemy = self.to_move.spec_opposite();
        Position {
            board: put(put(self.board, start, Square::Empty), dest, Square::Full(placed)),
            ..self.with_bitboard(
                mover,
                self.bitboard_of(mover).without(start.spec_as_index()).with(dest.spec_as_index()),
            ).with_bitboard(enemy, self.bitboard_of(enemy).without(dest.spec_as_index()))
        }
    }

    /// Board and bitboards after the enemy piece on `cell` has been taken
    /// off the board. Nothing else changes.
    pub open spec fn cleared(self, cell: ChessCell) -> Position {
        let enemy = self.to_move.spec_opposite();
        Position {
            board: put(self.board, cell, Square::Empty),
            ..self.with_bitboard(enemy, self.bitboard_of(enemy).without(cell.spec_as_index()))
        }
    }

    /// Whether the move may be made: it is the move of an own piece onto a
    /// cell that holds no own piece and not the enemy king, and where it
    /// has the shape of a special move it is that special move.
    ///
    /// Every move that the generator produces in a position that a legal
    /// move has led to may be made.
    pub open spec fn permits(self, mov: ChessMove) -> bool {
        let piece = self.mover(mov);
        let castling_type = castling_type_by_dest(mov.dest);
        let forward = self.to_move.spec_signum() as int;
        &&& mov.start.on_board()
        &&& mov.dest.on_board()
        &&& self.square(mov.start) == Square::Full(piece)
        &&& piece.color == self.to_move
        &&& !self.square(mov.dest).spec_is_color(self.to_move)
        &&& mov.dest != self.king_location_of(self.to_move.spec_opposite())
        &&& match mov.promotion {
            Some(promoted) => piece.kind == PieceKind::Pawn && promoted.color == self.to_move,
            None => true,
        }
        &&& self.is_castle(mov) ==> {
            &&& castling_type.color() == self.to_move
            &&& mov.start == castling_type.king_home()
            &&& mov.dest == castling_type.king_dest()
            &&& self.square(mov.dest) == Square::Empty
            &&& self.square(castling_type.rook_dest()) == Square::Empty
            &&& self.square(castling_type.rook_home()) == Square::Full(
                Piece { color: self.to_move, kind: PieceKind::Rook },
            )
        }
        &&& self.is_en_passant_capture(mov) ==> mov.start.0
            == self.to_move.spec_en_passant_attacking_rank()
        &&& self.is_double_push(mov) ==> {
            &&& mov.promotion is None
            &&& mov.start.0 == self.to_move.spec_pawn_starting_rank()
            &&& mov.dest.0 == mov.start.0 + 2 * forward
            &&& mov.dest.1 == mov.start.1
            &&& self.square(ChessCell((mov.start.0 + forward) as usize, mov.start.1))
                == Square::Empty
        }
    }

    /// The castling rights after the move.
    pub open spec fn rights_after(self, mov: ChessMove) -> CastlingRights {
        revoked(self.castling_rights, self.mover(mov), mov)
    }

    /// The en passant target after the move: the cell that a double step
    /// skips, and none after any other move.
    pub open spec fn en_passant_after(self, mov: ChessMove) -> Option<ChessCell> {
        if self.is_double_push(mov) {
            Some(ChessCell(self.to_move.spec_en_passant_rank(), mov.dest.1))
        } else {
            None
        }
    }

    /// Board and bitboards after the move: first the rook's part of
    /// castling, where the move is castling; then the removal of the pawn
    /// captured en passant, which stands beside the mover's start on the
    /// file of the destination; then the move itself.
    pub open spec fn pieces_after(self, mov: ChessMove) -> Position {
        let castling_type = castling_type_by_dest(mov.dest);
        let castled = if self.is_castle(mov) {
            self.relocated(
                castling_type.rook_home(),
                castling_type.rook_dest(),
                self.square(castling_type.rook_home())->Full_0,
            )
        } else {
            self
        };
        let taken = if self.is_en_passant_capture(mov) {
            castled.cleared(ChessCell(mov.start.0, mov.dest.1))
        } else {
            castled
        };
        taken.relocated(mov.start, mov.dest, self.placed(mov))
    }

    /// The position after the move.
    ///
    /// The rook's part of castling and the removal of a pawn captured en
    /// passant follow from the shape of the move. The evaluation is the
    /// score of the new board and the hash the hash of the new position,
    /// both as if computed from nothing.
    pub open spec fn apply_move(self, mov: ChessMove) -> Position {
        let pieces = self.pieces_after(mov);
        let mover_is_king = self.mover(mov).kind == PieceKind::King;
        let castling_rights = self.rights_after(mov);
        let en_passant = self.en_passant_after(mov);
        let to_move = self.to_move.spec_opposite();
        Position {
            board: pieces.board,
            to_move,
            white_bitboard: pieces.white_bitboard,
            black_bitboard: pieces.black_bitboard,
            white_king_location: if mover_is_king && self.to_move == PieceColor::White {
                mov.dest
            } else {
                self.white_king_location
            },
            black_king_location: if mover_is_king && self.to_move == PieceColor::Black {
                mov.dest
            } else {
                self.black_king_location
            },
            last_move: Some(mov),
            en_passant,
            eval: board_score(pieces.board) as i32,
            castling_rights,
            zobrist_key: position_hash(pieces.board, castling_rights, en_passant, to_move),
        }
    }
}

/// Reading a grid after one cell has been overwritten.
pub proof fn lemma_put(board: Seq<Square>, cell: ChessCell, square: Square)
    requires
        board.len() == 144,
        cell.in_grid(),
    ensures
        put(board, cell, square).len() == 144,
        forall|other: ChessCell|
            other.in_grid() ==> #[trigger] square_at(put(board, cell, square), other) == (if other
                == cell {
                square
            } else {
                square_at(board, other)
            }),
{
    assert forall|other: ChessCell| other.in_grid() implies #[trigger] square_at(
        put(board, cell, square),
        other,
    ) == (if other == cell {
        square
    } else {
        square_at(board, other)
    }) by {
        if other != cell {
            assert(other.grid_index() != cell.grid_index());
        }
    }
}

/// Overwriting a cell of the playing area with something that is not a
/// sentinel keeps the grid well formed.
pub proof fn lemma_put_grid_wf(board: Seq<Square>, cell: ChessCell, square: Square)
    requires
        grid_wf(board),
        cell.on_board(),
        !(square is Aether),
    ensures
        grid_wf(put(board, cell, square)),
{
    lemma_put(board, cell, square);
    assert forall|other: ChessCell| other.in_grid() implies (#[trigger] square_at(
        put(board, cell, square),
        other,
    ) is Aether <==> !other.on_board()) by {
        assert(square_at(board, other) is Aether <==> !other.on_board());
    }
}

impl Position {
    /// Grid and bitboards are well formed and agree.
    pub open spec fn pieces_consistent(self) -> bool {
        grid_wf(self.board) && self.bitboards_consistent()
    }

    /// Agreement of grid and bitboards is a matter of grid and bitboards
    /// alone.
    pub proof fn lemma_same_pieces(self, other: Position)
        requires
            self.pieces_consistent(),
            other.board == self.board,
            other.white_bitboard == self.white_bitboard,
            other.black_bitboard == self.black_bitboard,
        ensures
            other.pieces_consistent(),
    {
        assert forall|index: usize, color: PieceColor| index < 64 implies (
        #[trigger] other.bitboard_of(color).spec_contains(index) <==> other.square(
            ChessCell::spec_from_index(index),
        ).spec_is_color(color)) by {
            assert(self.bitboard_of(color).spec_contains(index) <==> self.square(
                ChessCell::spec_from_index(index),
            ).spec_is_color(color));
        }
    }

    /// Moving an own piece onto a cell without an own piece keeps grid and
    /// bitboards in agreement.
    pub proof fn lemma_relocated(self, start: ChessCell, dest: ChessCell, placed: Piece)
        requires
            self.pieces_consistent(),
            start.on_board(),
            dest.on_board(),
            self.square(start).spec_is_color(self.to_move),
            !self.square(dest).spec_is_color(self.to_move),
            placed.color == self.to_move,
        ensures
            self.relocated(start, dest, placed).pieces_consistent(),
            start != dest,
            forall|other: ChessCell|
                other.in_grid() ==> #[trigger] self.relocated(start, dest, placed).square(other)
                    == (if other == dest {
                    Square::Full(placed)
                } else if other == start {
                    Square::Empty
                } else {
                    self.square(other)
                }),
    {
        let after = self.relocated(start, dest, placed);
        let middle = put(self.board, start, Square::Empty);
        lemma_put(self.board, start, Square::Empty);
        lemma_put(middle, dest, Square::Full(placed));
        lemma_put_grid_wf(self.board, start, Square::Empty);
        lemma_put_grid_wf(middle, dest, Square::Full(placed));
        let mover = self.to_move;
        let enemy = self.to_move.spec_opposite();
        assert forall|other: ChessCell| other.in_grid() implies #[trigger] after.square(other) == (
        if other == dest {
            Square::Full(placed)
        } else if other == start {
            Square::Empty
        } else {
            self.square(other)
        }) by {
            assert(square_at(after.board, other) == if other == dest {
                Square::Full(placed)
            } else {
                square_at(middle, other)
            });
        }
        assert forall|index: usize, color: PieceColor| index < 64 implies (
        #[trigger] after.bitboard_of(color).spec_contains(index) <==> after.square(
            ChessCell::spec_from_index(index),
        ).spec_is_color(color)) by {
            let cell = ChessCell::spec_from_index(index);
            lemma_index_round_trip(start, index);
            lemma_index_round_trip(dest, index);
            let s = start.spec_as_index();
            let d = dest.spec_as_index();
            assert(self.bitboard_of(color).spec_contains(index) <==> self.square(cell).spec_is_color(
                color,
            ));
            assert(after.square(cell) == (if cell == dest {
                Square::Full(placed)
            } else if cell == start {
                Square::Empty
            } else {
                self.square(cell)
            }));
            if color == mover {
                crate::board_elements::lemma_clear_bit(
                    self.bitboard_of(mover).0,
                    s as u64,
                    index as u64,
                );
                crate::board_elements::lemma_set_bit(
                    self.bitboard_of(mover).without(s).0,
                    d as u64,
                    index as u64,
                );
            } else {
                crate::board_elements::lemma_clear_bit(
                    self.bitboard_of(enemy).0,
                    d as u64,
                    index as u64,
                );
            }
        }
    }

    /// Taking an enemy piece off the board keeps grid and bitboards in
    /// agreement.
    pub proof fn lemma_cleared(self, cell: ChessCell)
        requires
            self.pieces_consistent(),
            cell.on_board(),
            self.square(cell).spec_is_color(self.to_move.spec_opposite()),
        ensures
            self.cleared(cell).pieces_consistent(),
            forall|other: ChessCell|
                other.in_grid() ==> #[trigger] self.cleared(cell).square(other) == (if other
                    == cell {
                    Square::Empty
                } else {
                    self.square(other)
                }),
    {
        let after = self.cleared(cell);
        lemma_put(self.board, cell, Square::Empty);
        lemma_put_grid_wf(self.board, cell, Square::Empty);
        let enemy = self.to_move.spec_opposite();
        assert forall|index: usize, color: PieceColor| index < 64 implies (
        #[trigger] after.bitboard_of(color).spec_contains(index) <==> after.square(
            ChessCell::spec_from_index(index),
        ).spec_is_color(color)) by {
            let other = ChessCell::spec_from_index(index);
            lemma_index_round_trip(cell, index);
            assert(self.bitboard_of(color).spec_contains(index) <==> self.square(
                other,
            ).spec_is_color(color));
            assert(after.square(other) == (if other == cell {
                Square::Empty
            } else {
                self.square(other)
            }));
            if color == enemy {
                crate::board_elements::lemma_clear_bit(
                    self.bitboard_of(enemy).0,
                    cell.spec_as_index() as u64,
                    index as u64,
                );
            }
        }
    }
}

impl Position {
    /// What the given cell holds after the move.
    pub open spec fn square_after(self, mov: ChessMove, cell: ChessCell) -> Square {
        let castling_type = castling_type_by_dest(mov.dest);
        if cell == mov.dest {
            Square::Full(self.placed(mov))
        } else if cell == mov.start {
            Square::Empty
        } else if self.is_castle(mov) && cell == castling_type.rook_dest() {
            self.square(castling_type.rook_home())
        } else if self.is_castle(mov) && cell == castling_type.rook_home() {
            Square::Empty
        } else if self.is_en_passant_capture(mov) && cell == ChessCell(mov.start.0, mov.dest.1) {
            Square::Empty
        } else {
            self.square(cell)
        }
    }

    /// After a move that may be made, grid and bitboards agree, and the
    /// board holds what `square_after` says.
    pub proof fn lemma_pieces_after(self, mov: ChessMove)
        requires
            self.wf(),
            self.permits(mov),
        ensures
            self.pieces_after(mov).pieces_consistent(),
            forall|cell: ChessCell|
                cell.in_grid() ==> #[trigger] self.pieces_after(mov).square(cell)
                    == self.square_after(mov, cell),
    {
        let castling_type = castling_type_by_dest(mov.dest);
        let rook_home = castling_type.rook_home();
        let rook_dest = castling_type.rook_dest();
        let victim = ChessCell(mov.start.0, mov.dest.1);
        let castled = if self.is_castle(mov) {
            self.relocated(rook_home, rook_dest, self.square(rook_home)->Full_0)
        } else {
            self
        };
        if self.is_castle(mov) {
            self.lemma_relocated(rook_home, rook_dest, self.square(rook_home)->Full_0);
        }
        assert(castled.pieces_consistent());
        assert(castled.to_move == self.to_move);
        let taken = if self.is_en_passant_capture(mov) {
            castled.cleared(victim)
        } else {
            castled
        };
        if self.is_en_passant_capture(mov) {
            assert(castled == self);
            assert(victim == self.en_passant_victim(mov.dest));
            castled.lemma_cleared(victim);
        }
        assert(taken.pieces_consistent());
        assert(taken.to_move == self.to_move);
        assert(taken.square(mov.start) == self.square(mov.start));
        assert(taken.square(mov.dest) == self.square(mov.dest));
        taken.lemma_relocated(mov.start, mov.dest, self.placed(mov));
        let after = self.pieces_after(mov);
        assert(after == taken.relocated(mov.start, mov.dest, self.placed(mov)));
        assert forall|cell: ChessCell| cell.in_grid() implies #[trigger] after.square(cell)
            == self.square_after(mov, cell) by {
            assert(taken.square(cell) == if self.is_en_passant_capture(mov) && cell == victim {
                Square::Empty
            } else {
                castled.square(cell)
            });
            assert(castled.square(cell) == if self.is_castle(mov) && cell == rook_dest {
                self.square(rook_home)
            } else if self.is_castle(mov) && cell == rook_home {
                Square::Empty
            } else {
                self.square(cell)
            });
        }
    }

    /// Whether `after` holds on every cell what this position holds there
    /// after the move.
    pub open spec fn squares_follow(self, mov: ChessMove, after: Position) -> bool {
        forall|cell: ChessCell|
            cell.in_grid() ==> #[trigger] after.square(cell) == self.square_after(mov, cell)
    }

    proof fn lemma_kings_after(self, mov: ChessMove)
        requires
            self.kings_placed(),
            self.en_passant_consistent(),
            self.permits(mov),
            self.squares_follow(mov, self.apply_move(mov)),
        ensures
            self.apply_move(mov).kings_placed(),
    {
        let after = self.apply_move(mov);
        assert forall|color: PieceColor|
            (#[trigger] after.king_location_of(color)).on_board() && after.square(
                after.king_location_of(color),
            ) == Square::Full(Piece { color, kind: PieceKind::King }) by {
            let before = self.king_location_of(color);
            assert(before.on_board() && self.square(before) == Square::Full(
                Piece { color, kind: PieceKind::King },
            ));
            let now = after.king_location_of(color);
            assert(after.square(now) == self.square_after(mov, now));
            if self.is_en_passant_capture(mov) {
                assert(ChessCell(mov.start.0, mov.dest.1) == self.en_passant_victim(mov.dest));
            }
        }
    }

    proof fn lemma_en_passant_after(self, mov: ChessMove)
        requires
            self.permits(mov),
            self.squares_follow(mov, self.apply_move(mov)),
        ensures
            self.apply_move(mov).en_passant_consistent(),
    {
        let after = self.apply_move(mov);
        if self.is_double_push(mov) {
            let forward = self.to_move.spec_signum() as int;
            let target = ChessCell(self.to_move.spec_en_passant_rank(), mov.dest.1);
            assert(target == ChessCell((mov.start.0 + forward) as usize, mov.start.1));
            assert(after.square(target) == self.square_after(mov, target));
            assert(after.en_passant_victim(target) == mov.dest);
            assert(after.square(mov.dest) == self.square_after(mov, mov.dest));
        }
    }

    proof fn lemma_castling_after(self, mov: ChessMove)
        requires
            self.kings_placed(),
            self.en_passant_consistent(),
            self.castling_consistent(),
            self.permits(mov),
            self.squares_follow(mov, self.apply_move(mov)),
        ensures
            self.apply_move(mov).castling_consistent(),
    {
        let after = self.apply_move(mov);
        assert forall|t: CastlingType| #[trigger]
            after.castling_rights.spec_has(t) implies after.castling_pieces_home(t) by {
            assert(self.castling_rights.spec_has(t));
            assert(self.castling_pieces_home(t));
            assert(after.square(t.king_home()) == self.square_after(mov, t.king_home()));
            assert(after.square(t.rook_home()) == self.square_after(mov, t.rook_home()));
            assert(self.king_location_of(self.to_move.spec_opposite()).on_board());
            if self.is_en_passant_capture(mov) {
                assert(ChessCell(mov.start.0, mov.dest.1) == self.en_passant_victim(mov.dest));
            }
        }
    }

    /// A move that may be made leads from a position whose cache agrees
    /// with its board to another such position. In particular each
    /// bitboard still holds exactly the cells of its colour, the recorded
    /// kings stand where they are recorded, and the hash is the hash
    /// computed from nothing.
    pub proof fn lemma_apply_move_wf(self, mov: ChessMove)
        requires
            self.wf(),
            self.permits(mov),
        ensures
            self.apply_move(mov).wf(),
            self.squares_follow(mov, self.apply_move(mov)),
    {
        self.lemma_pieces_after(mov);
        let pieces = self.pieces_after(mov);
        let after = self.apply_move(mov);
        assert(after.board == pieces.board);
        assert forall|cell: ChessCell| cell.in_grid() implies #[trigger] after.square(cell)
            == self.square_after(mov, cell) by {
            assert(pieces.square(cell) == self.square_after(mov, cell));
        }
        assert(after.bitboards_consistent()) by {
            assert forall|index: usize, color: PieceColor| index < 64 implies (
            #[trigger] after.bitboard_of(color).spec_contains(index) <==> after.square(
                ChessCell::spec_from_index(index),
            ).spec_is_color(color)) by {
                assert(pieces.bitboard_of(color).spec_contains(index) <==> pieces.square(
                    ChessCell::spec_from_index(index),
                ).spec_is_color(color));
            }
        }
        self.lemma_kings_after(mov);
        self.lemma_en_passant_after(mov);
        self.lemma_castling_after(mov);
        lemma_board_score_bounds(after.board, 64);
    }

    /// No move brings back a castling right; a king's move gives up both
    /// rights of its colour; a rook's move from its corner, and any move
    /// onto a corner, gives up the right of that corner.
    pub proof fn lemma_rights_after(self, mov: ChessMove)
        ensures
            self.apply_move(mov).castling_rights.is_subset_of(self.castling_rights),
            self.mover(mov).kind == PieceKind::King ==> forall|t: CastlingType|
                t.color() == self.mover(mov).color ==> !self.apply_move(
                    mov,
                ).castling_rights.spec_has(t),
            self.mover(mov).kind == PieceKind::Rook && CastlingType::spec_is_rook_home(mov.start)
                ==> !self.apply_move(mov).castling_rights.spec_has(
                CastlingType::spec_of_rook_home(mov.start),
            ),
            CastlingType::spec_is_rook_home(mov.dest) ==> !self.apply_move(
                mov,
            ).castling_rights.spec_has(CastlingType::spec_of_rook_home(mov.dest)),
    {
    }
}

/// The string of what a move captures on its destination.
pub open spec fn captured_string(captured: Option<Piece>, dest: ChessCell) -> u64 {
    match captured {
        Some(piece) => ZobristOracle::spec_piece_bitstring(piece, dest.spec_as_index()),
        None => 0,
    }
}

/// The strings of the rook of the given colour on the two cells between
/// which it castles.
pub open spec fn rook_strings(color: PieceColor, rook_move: Option<ChessMove>) -> u64 {
    match rook_move {
        Some(mov) => ZobristOracle::spec_piece_bitstring(
            Piece { color, kind: PieceKind::Rook },
            mov.start.spec_as_index(),
        ) ^ ZobristOracle::spec_piece_bitstring(
            Piece { color, kind: PieceKind::Rook },
            mov.dest.spec_as_index(),
        ),
        None => 0,
    }
}

/// The string of the pawn that the given colour loses en passant.
pub open spec fn victim_string(color: PieceColor, victim: Option<ChessCell>) -> u64 {
    match victim {
        Some(cell) => ZobristOracle::spec_piece_bitstring(
            Piece { color, kind: PieceKind::Pawn },
            cell.spec_as_index(),
        ),
        None => 0,
    }
}

/// What a move changes in the hash of the board: the mover leaves its
/// start, the mover or the piece promoted to arrives on the destination,
/// a captured piece leaves the destination, a castling rook changes its
/// cell, and a pawn captured en passant leaves its cell.
pub open spec fn pieces_strings(
    mov: ChessMove,
    moving_piece: Piece,
    captured_piece: Option<Piece>,
    rook_move: Option<ChessMove>,
    en_passant_victim: Option<ChessCell>,
) -> u64 {
    let placed = match mov.promotion {
        Some(promoted) => promoted,
        None => moving_piece,
    };
    (((ZobristOracle::spec_piece_bitstring(moving_piece, mov.start.spec_as_index())
        ^ ZobristOracle::spec_piece_bitstring(placed, mov.dest.spec_as_index()))
        ^ captured_string(captured_piece, mov.dest)) ^ rook_strings(moving_piece.color, rook_move))
        ^ victim_string(moving_piece.color.spec_opposite(), en_passant_victim)
}

proof fn lemma_xor_stage(before: u64, left: u64, arrived: u64, taken: u64)
    by (bit_vector)
    ensures
        (((before ^ left) ^ 0) ^ taken) ^ arrived == before ^ ((left ^ arrived) ^ taken),
        (((before ^ left) ^ 0) ^ 0) ^ arrived == before ^ (left ^ arrived),
        (before ^ left) ^ 0 == before ^ left,
        before == before ^ 0,
{
}

proof fn lemma_xor_stages(start: u64, main: u64, castle: u64, victim: u64)
    by (bit_vector)
    ensures
        ((start ^ castle) ^ victim) ^ main == start ^ ((main ^ castle) ^ victim),
{
}

impl Position {
    /// The rook's move, where the move is castling.
    pub open spec fn rook_move(self, mov: ChessMove) -> Option<ChessMove> {
        if self.is_castle(mov) {
            Some(
                ChessMove {
                    start: castling_type_by_dest(mov.dest).rook_home(),
                    dest: castling_type_by_dest(mov.dest).rook_dest(),
                    promotion: None,
                },
            )
        } else {
            None
        }
    }

    /// The cell of the pawn that the move captures en passant, where it
    /// does.
    pub open spec fn victim_cell(self, mov: ChessMove) -> Option<ChessCell> {
        if self.is_en_passant_capture(mov) {
            Some(ChessCell(mov.start.0, mov.dest.1))
        } else {
            None
        }
    }

    /// The hash of the board after a move is the hash of the board before
    /// it, combined with the strings of the pieces that the move moves.
    pub proof fn lemma_board_hash_after(self, mov: ChessMove)
        requires
            self.wf(),
            self.permits(mov),
        ensures
            board_hash(self.pieces_after(mov).board) == board_hash(self.board) ^ pieces_strings(
                mov,
                self.mover(mov),
                self.captured(mov),
                self.rook_move(mov),
                self.victim_cell(mov),
            ),
    {
        let castling_type = castling_type_by_dest(mov.dest);
        let rook_home = castling_type.rook_home();
        let rook_dest = castling_type.rook_dest();
        let rook = Piece { color: self.to_move, kind: PieceKind::Rook };
        let victim = ChessCell(mov.start.0, mov.dest.1);
        let begin = board_hash(self.board);
        let castled = if self.is_castle(mov) {
            self.relocated(rook_home, rook_dest, rook)
        } else {
            self
        };
        if self.is_castle(mov) {
            self.lemma_relocated(rook_home, rook_dest, rook);
            let middle = put(self.board, rook_home, Square::Empty);
            lemma_put(self.board, rook_home, Square::Empty);
            lemma_hash_put(self.board, rook_home, Square::Empty, 64);
            lemma_hash_put(middle, rook_dest, Square::Full(rook), 64);
            assert(square_at(self.board, rook_home) == Square::Full(rook));
            assert(square_at(middle, rook_dest) == Square::Empty);
            assert(castled.board == put(middle, rook_dest, Square::Full(rook)));
            lemma_xor_stage(
                begin,
                ZobristOracle::spec_piece_bitstring(rook, rook_home.spec_as_index()),
                ZobristOracle::spec_piece_bitstring(rook, rook_dest.spec_as_index()),
                0,
            );
        } else {
            lemma_xor_stage(begin, 0, 0, 0);
        }
        assert(board_hash(castled.board) == begin ^ rook_strings(
            self.to_move,
            self.rook_move(mov),
        ));
        let taken = if self.is_en_passant_capture(mov) {
            castled.cleared(victim)
        } else {
            castled
        };
        if self.is_en_passant_capture(mov) {
            assert(castled == self);
            assert(victim == self.en_passant_victim(mov.dest));
            castled.lemma_cleared(victim);
            lemma_hash_put(castled.board, victim, Square::Empty, 64);
            lemma_xor_stage(
                board_hash(castled.board),
                ZobristOracle::spec_piece_bitstring(
                    Piece { color: self.to_move.spec_opposite(), kind: PieceKind::Pawn },
                    victim.spec_as_index(),
                ),
                0,
                0,
            );
        } else {
            lemma_xor_stage(board_hash(castled.board), 0, 0, 0);
        }
        assert(board_hash(taken.board) == board_hash(castled.board) ^ victim_string(
            self.to_move.spec_opposite(),
            self.victim_cell(mov),
        ));
        assert(taken.square(mov.start) == self.square(mov.start));
        assert(taken.square(mov.dest) == self.square(mov.dest));
        let placed = self.placed(mov);
        let middle = put(taken.board, mov.start, Square::Empty);
        taken.lemma_relocated(mov.start, mov.dest, placed);
        lemma_put(taken.board, mov.start, Square::Empty);
        lemma_hash_put(taken.board, mov.start, Square::Empty, 64);
        lemma_hash_put(middle, mov.dest, Square::Full(placed), 64);
        assert(square_at(middle, mov.dest) == self.square(mov.dest));
        let main = (ZobristOracle::spec_piece_bitstring(self.mover(mov), mov.start.spec_as_index())
            ^ ZobristOracle::spec_piece_bitstring(placed, mov.dest.spec_as_index()))
            ^ captured_string(self.captured(mov), mov.dest);
        lemma_xor_stage(
            board_hash(taken.board),
            ZobristOracle::spec_piece_bitstring(self.mover(mov), mov.start.spec_as_index()),
            ZobristOracle::spec_piece_bitstring(placed, mov.dest.spec_as_index()),
            captured_string(self.captured(mov), mov.dest),
        );
        assert(board_hash(self.pieces_after(mov).board) == board_hash(taken.board) ^ main);
        lemma_xor_stages(
            begin,
            main,
            rook_strings(self.to_move, self.rook_move(mov)),
            victim_string(self.to_move.spec_opposite(), self.victim_cell(mov)),
        );
    }
}

} // verus!
