//! The mailbox board: a 12 x 12 grid whose inner 8 x 8 squares are the
//! playing area and whose border squares are sentinels, so that a walk
//! along a ray or a knight's jump can leave the playing area without
//! leaving the grid.

use vstd::prelude::*;
use crate::board_elements::{ChessCell, Piece, PieceColor, PieceKind, Square};
use crate::constants::{
    A_FILE, B_FILE, C_FILE, D_FILE, E_FILE, F_FILE, G_FILE, H_FILE, RANK_1, RANK_2, RANK_7,
    RANK_8,
};

verus! {

/// The squares of the padded grid in row-major order: the cell of rank
/// `r` and file `f` is square `12 * r + f`.
#[derive(Clone, Copy, PartialEq, Eq, Debug)]
pub struct ChessBoard(pub [Square; 144]);

impl View for ChessBoard {
    type V = Seq<Square>;

    open spec fn view(&self) -> Seq<Square> {
        self.0@
    }
}

/// The kind of piece that starts the game on the given file of the back
/// rank.
pub open spec fn back_rank_kind(file: usize) -> PieceKind {
    if file == A_FILE || file == H_FILE {
        PieceKind::Rook
    } else if file == B_FILE || file == G_FILE {
        PieceKind::Knight
    } else if file == C_FILE || file == F_FILE {
        PieceKind::Bishop
    } else if file == D_FILE {
        PieceKind::Queen
    } else {
        PieceKind::King
    }
}

/// What a cell of the grid holds on an empty board.
pub open spec fn empty_square(cell: ChessCell) -> Square {
    if cell.on_board() {
        Square::Empty
    } else {
        Square::Aether
    }
}

/// What a cell of the grid holds at the start of a game.
pub open spec fn opening_square(cell: ChessCell) -> Square {
    if !cell.on_board() {
        Square::Aether
    } else if cell.0 == RANK_1 {
        Square::Full(Piece { color: PieceColor::White, kind: back_rank_kind(cell.1) })
    } else if cell.0 == RANK_2 {
        Square::Full(Piece { color: PieceColor::White, kind: PieceKind::Pawn })
    } else if cell.0 == RANK_7 {
        Square::Full(Piece { color: PieceColor::Black, kind: PieceKind::Pawn })
    } else if cell.0 == RANK_8 {
        Square::Full(Piece { color: PieceColor::Black, kind: back_rank_kind(cell.1) })
    } else {
        Square::Empty
    }
}

/// What the cell holds on the given grid.
pub open spec fn square_at(board: Seq<Square>, cell: ChessCell) -> Square {
    board[cell.grid_index()]
}

/// The grid with the given cell overwritten.
pub open spec fn put(board: Seq<Square>, cell: ChessCell, square: Square) -> Seq<Square> {
    board.update(cell.grid_index(), square)
}

/// The grid has 144 squares, and its sentinels are exactly the squares
/// outside the playing area.
pub open spec fn grid_wf(board: Seq<Square>) -> bool {
    &&& board.len() == 144
    &&& forall|cell: ChessCell|
        cell.in_grid() ==> (#[trigger] square_at(board, cell) is Aether <==> !cell.on_board())
}

impl ChessBoard {
    pub open spec fn spec_square(&self, cell: ChessCell) -> Square {
        square_at(self@, cell)
    }

    /// The sentinels are exactly the squares outside the playing area.
    pub open spec fn wf(&self) -> bool {
        grid_wf(self@)
    }

    /// What the given cell holds.
    #[inline]
    pub fn square(&self, square: ChessCell) -> (r: &Square)
        requires
            square.grid_index() < 144,
        ensures
            *r == self.spec_square(square),
    {
        &self.0[square.0 * 12 + square.1]
    }

    /// The given cell, to be written.
    #[inline]
    pub fn square_mut(&mut self, square: ChessCell) -> (r: &mut Square)
        requires
            square.grid_index() < 144,
        ensures
            *r == old(self).spec_square(square),
            final(self)@ == put(old(self)@, square, *final(r)),
            square.in_grid() ==> forall|cell: ChessCell|
                cell.in_grid() ==> #[trigger] final(self).spec_square(cell) == (if cell == square {
                    *final(r)
                } else {
                    old(self).spec_square(cell)
                }),
    {
        &mut self.0[square.0 * 12 + square.1]
    }

    /// The board without pieces: empty squares in the playing area and
    /// sentinels around it.
    pub fn empty() -> (r: ChessBoard)
        ensures
            r.wf(),
            forall|cell: ChessCell|
                cell.in_grid() ==> #[trigger] r.spec_square(cell) == empty_square(cell),
    {
        let mut chess_board = ChessBoard([Square::Aether;144]);
        let mut rank: usize = RANK_1;
        while rank <= RANK_8
            invariant
                RANK_1 <= rank <= RANK_8 + 1,
                forall|cell: ChessCell|
                    cell.in_grid() ==> #[trigger] chess_board.spec_square(cell) == (if cell.0
                        < rank {
                        empty_square(cell)
                    } else {
                        Square::Aether
                    }),
            decreases RANK_8 + 1 - rank,
        {
            let mut file: usize = A_FILE;
            while file <= H_FILE
                invariant
                    RANK_1 <= rank <= RANK_8,
                    A_FILE <= file <= H_FILE + 1,
                    forall|cell: ChessCell|
                        cell.in_grid() ==> #[trigger] chess_board.spec_square(cell) == (if cell.0
                            < rank || (cell.0 == rank && A_FILE <= cell.1 < file) {
                            empty_square(cell)
                        } else {
                            Square::Aether
                        }),
                decreases H_FILE + 1 - file,
            {
                *chess_board.square_mut(ChessCell(rank, file)) = Square::Empty;
                file += 1;
            }
            rank += 1;
        }
        proof {
            assert forall|cell: ChessCell| cell.in_grid() implies (#[trigger] square_at(
                chess_board@,
                cell,
            ) is Aether <==> !cell.on_board()) by {
                assert(chess_board.spec_square(cell) == empty_square(cell));
            }
        }
        chess_board
    }

    /// The board at the start of a game.
    pub fn new() -> (r: ChessBoard)
        ensures
            r.wf(),
            forall|cell: ChessCell|
                cell.in_grid() ==> #[trigger] r.spec_square(cell) == opening_square(cell),
    {
        let mut chess_board = ChessBoard::empty();
        let mut file: usize = A_FILE;
        while file <= H_FILE
            invariant
                A_FILE <= file <= H_FILE + 1,
                forall|cell: ChessCell|
                    cell.in_grid() ==> #[trigger] chess_board.spec_square(cell) == (if (cell.0
                        == RANK_2 || cell.0 == RANK_7) && A_FILE <= cell.1 < file {
                        opening_square(cell)
                    } else {
                        empty_square(cell)
                    }),
            decreases H_FILE + 1 - file,
        {
            *chess_board.square_mut(ChessCell(RANK_2, file)) = Square::Full(
                Piece::pawn(PieceColor::White),
            );
            *chess_board.square_mut(ChessCell(RANK_7, file)) = Square::Full(
                Piece::pawn(PieceColor::Black),
            );
            file += 1;
        }
        let ghost pawns = chess_board;
        *chess_board.square_mut(ChessCell(RANK_1, A_FILE)) = Square::Full(
            Piece::rook(PieceColor::White),
        );
        *chess_board.square_mut(ChessCell(RANK_1, B_FILE)) = Square::Full(
            Piece::knight(PieceColor::White),
        );
        *chess_board.square_mut(ChessCell(RANK_1, C_FILE)) = Square::Full(
            Piece::bishop(PieceColor::White),
        );
        *chess_board.square_mut(ChessCell(RANK_1, D_FILE)) = Square::Full(
            Piece::queen(PieceColor::White),
        );
        *chess_board.square_mut(ChessCell(RANK_1, E_FILE)) = Square::Full(
            Piece::king(PieceColor::White),
        );
        *chess_board.square_mut(ChessCell(RANK_1, F_FILE)) = Square::Full(
            Piece::bishop(PieceColor::White),
        );
        *chess_board.square_mut(ChessCell(RANK_1, G_FILE)) = Square::Full(
            Piece::knight(PieceColor::White),
        );
        *chess_board.square_mut(ChessCell(RANK_1, H_FILE)) = Square::Full(
            Piece::rook(PieceColor::White),
        );
        let ghost white = chess_board;
        assert forall|cell: ChessCell| cell.in_grid() implies #[trigger] white.spec_square(cell)
            == (if cell.0 == RANK_1 {
            opening_square(cell)
        } else {
            pawns.spec_square(cell)
        }) by {}
        *chess_board.square_mut(ChessCell(RANK_8, A_FILE)) = Square::Full(
            Piece::rook(PieceColor::Black),
        );
        *chess_board.square_mut(ChessCell(RANK_8, B_FILE)) = Square::Full(
            Piece::knight(PieceColor::Black),
        );
        *chess_board.square_mut(ChessCell(RANK_8, C_FILE)) = Square::Full(
            Piece::bishop(PieceColor::Black),
        );
        *chess_board.square_mut(ChessCell(RANK_8, D_FILE)) = Square::Full(
            Piece::queen(PieceColor::Black),
        );
        *chess_board.square_mut(ChessCell(RANK_8, E_FILE)) = Square::Full(
            Piece::king(PieceColor::Black),
        );
        *chess_board.square_mut(ChessCell(RANK_8, F_FILE)) = Square::Full(
            Piece::bishop(PieceColor::Black),
        );
        *chess_board.square_mut(ChessCell(RANK_8, G_FILE)) = Square::Full(
            Piece::knight(PieceColor::Black),
        );
        *chess_board.square_mut(ChessCell(RANK_8, H_FILE)) = Square::Full(
            Piece::rook(PieceColor::Black),
        );
        assert forall|cell: ChessCell| cell.in_grid() implies #[trigger] chess_board.spec_square(
            cell,
        ) == (if cell.0 == RANK_8 {
            opening_square(cell)
        } else {
            white.spec_square(cell)
        }) by {}
        proof {
            assert forall|cell: ChessCell| cell.in_grid() implies (#[trigger] square_at(
                chess_board@,
                cell,
            ) is Aether <==> !cell.on_board()) by {
                assert(chess_board.spec_square(cell) == opening_square(cell));
            }
        }
        chess_board
    }
}

} // verus!
