//! Taking a move back, and the law that taking back the move just made
//! restores the position exactly.

use vstd::prelude::*;
use crate::board_elements::{bit_is_set, ChessCell, ChessMove, Piece, PieceColor, PieceKind, Square};
use crate::board_state::{BoardState, MoveEntropy};
use crate::chess_board::{grid_wf, put};
use crate::constants::{a1, a8, c1, d1, d8, f1, f8, g1, g8, h1, h8};
use crate::position::{abs_diff, castling_type_by_dest, lemma_index_round_trip, lemma_put, Position};

verus! {

/// What stood on the destination of a move before it was made.
pub open spec fn uncaptured(last_capture: Option<Piece>) -> Square {
    match last_capture {
        Some(piece) => Square::Full(piece),
        None => Square::Empty,
    }
}

impl Position {
    /// The piece that made the move that led to this position: a pawn
    /// where the move was a promotion, and otherwise the piece on the
    /// destination of the move.
    pub open spec fn unmover(self, mov: ChessMove) -> Piece {
        if mov.promotion is Some {
            Piece { color: self.to_move.spec_opposite(), kind: PieceKind::Pawn }
        } else {
            self.square(mov.dest)->Full_0
        }
    }

    /// Whether the move that led to this position was castling.
    pub open spec fn was_castle(self, mov: ChessMove) -> bool {
        self.unmover(mov).kind == PieceKind::King && abs_diff(mov.start.1, mov.dest.1) == 2
    }

    /// Whether the move that led to this position captured en passant: a
    /// pawn went to another file, onto what was the en passant target.
    pub open spec fn was_en_passant(self, mov: ChessMove, target: Option<ChessCell>) -> bool {
        self.unmover(mov).kind == PieceKind::Pawn && Some(mov.dest) == target && abs_diff(
            mov.start.1,
            mov.dest.1,
        ) == 1
    }

    /// Whether the move of the record can be taken back on this board.
    pub open spec fn undoable(self, record: MoveEntropy) -> bool {
        match record.last_move {
            None => false,
            Some(mov) => {
                &&& mov.start.on_board()
                &&& mov.dest.on_board()
                &&& self.square(mov.dest) is Full
                &&& self.was_castle(mov) ==> {
                    &&& mov.dest == castling_type_by_dest(mov.dest).king_dest()
                    &&& mov.start == castling_type_by_dest(mov.dest).king_home()
                    &&& self.square(castling_type_by_dest(mov.dest).rook_dest()) is Full
                }
            },
        }
    }

    /// Board and bitboards after the piece of the side that is not to
    /// move has gone back from the destination of `mov` to its start, and
    /// what it captured stands on the destination again.
    pub open spec fn unrelocated(
        self,
        mov: ChessMove,
        piece: Piece,
        last_capture: Option<Piece>,
    ) -> Position {
        let mover = self.to_move.spec_opposite();
        let enemy = self.to_move;
        let returned = self.bitboard_of(mover).without(mov.dest.spec_as_index()).with(
            mov.start.spec_as_index(),
        );
        let restored = if last_capture is Some {
            self.bitboard_of(enemy).with(mov.dest.spec_as_index())
        } else {
            self.bitboard_of(enemy)
        };
        Position {
            board: put(
                put(self.board, mov.dest, uncaptured(last_capture)),
                mov.start,
                Square::Full(piece),
            ),
            ..self.with_bitboard(mover, returned).with_bitboard(enemy, restored)
        }
    }

    /// Board and bitboards after a pawn of the side to move has come back
    /// onto `cell`.
    pub open spec fn revived(self, cell: ChessCell) -> Position {
        let enemy = self.to_move;
        Position {
            board: put(
                self.board,
                cell,
                Square::Full(Piece { color: enemy, kind: PieceKind::Pawn }),
            ),
            ..self.with_bitboard(enemy, self.bitboard_of(enemy).with(cell.spec_as_index()))
        }
    }

    /// The position before the move of `record`, which is the record of
    /// this position; `previous` is the record of the position before.
    ///
    /// The pieces go back: the mover to its start, as a pawn where it was
    /// promoted; what it captured onto the destination; a pawn captured en
    /// passant onto its cell; the rook of a castling move into its corner.
    /// Everything that the board does not tell is taken from `previous`:
    /// king locations, last move, en passant target, evaluation, castling
    /// rights and hash.
    pub open spec fn unmake(self, record: MoveEntropy, previous: MoveEntropy) -> Position {
        let mov = record.last_move->Some_0;
        let mover = self.to_move.spec_opposite();
        let piece = self.unmover(mov);
        let castling_type = castling_type_by_dest(mov.dest);
        let back = self.unrelocated(mov, piece, record.last_capture);
        let revived = if self.was_en_passant(mov, previous.en_passant) {
            back.revived(ChessCell(mov.start.0, mov.dest.1))
        } else {
            back
        };
        let uncastled = if self.was_castle(mov) {
            revived.unrelocated(
                ChessMove {
                    start: castling_type.rook_home(),
                    dest: castling_type.rook_dest(),
                    promotion: None,
                },
                revived.square(castling_type.rook_dest())->Full_0,
                None,
            )
        } else {
            revived
        };
        Position {
            board: uncastled.board,
            to_move: mover,
            white_bitboard: uncastled.white_bitboard,
            black_bitboard: uncastled.black_bitboard,
            white_king_location: previous.white_king_location,
            black_king_location: previous.black_king_location,
            last_move: previous.last_move,
            en_passant: previous.en_passant,
            eval: previous.eval,
            castling_rights: previous.castling_rights,
            zobrist_key: previous.zobrist_key,
        }
    }
}

impl BoardState {
    /// Brings the bitboards up to date with a piece of the side that is
    /// not to move going from the start of `mov` to its destination, and
    /// with what it had captured coming back onto the start of `mov`.
    pub fn downgrade_bitboards(&mut self, mov: ChessMove, last_capture: Option<Piece>)
        requires
            mov.start.on_board(),
            mov.dest.on_board(),
        ensures
            final(self)@ == old(self)@.with_bitboard(
                old(self).to_move.spec_opposite(),
                old(self)@.bitboard_of(old(self).to_move.spec_opposite()).without(
                    mov.start.spec_as_index(),
                ).with(mov.dest.spec_as_index()),
            ).with_bitboard(
                old(self).to_move,
                if last_capture is Some {
                    old(self)@.bitboard_of(old(self).to_move).with(mov.start.spec_as_index())
                } else {
                    old(self)@.bitboard_of(old(self).to_move)
                },
            ),
            final(self).entropy_stack == old(self).entropy_stack,
    {
        match self.to_move {
            PieceColor::Black => {
                self.white_bitboard.remove_piece(mov.start.as_index());
                self.white_bitboard.add_piece(mov.dest.as_index());
                if last_capture.is_some() {
                    self.black_bitboard.add_piece(mov.start.as_index());
                }
            },
            PieceColor::White => {
                self.black_bitboard.remove_piece(mov.start.as_index());
                self.black_bitboard.add_piece(mov.dest.as_index());
                if last_capture.is_some() {
                    self.white_bitboard.add_piece(mov.start.as_index());
                }
            },
        }
    }

    /// Puts a piece back from the destination of `mov` to its start, and
    /// what it captured onto the destination.
    fn unmove_piece(&mut self, mov: ChessMove, piece: Piece, last_capture: Option<Piece>)
        requires
            mov.start.on_board(),
            mov.dest.on_board(),
        ensures
            final(self)@ == old(self)@.unrelocated(mov, piece, last_capture),
            final(self).entropy_stack == old(self).entropy_stack,
    {
        *self.board.square_mut(mov.dest) = match last_capture {
            Some(captured_piece) => Square::Full(captured_piece),
            None => Square::Empty,
        };
        *self.board.square_mut(mov.start) = Square::Full(piece);
        self.downgrade_bitboards(
            ChessMove { start: mov.dest, dest: mov.start, promotion: None },
            last_capture,
        );
        proof {
            assert(self@ =~= old(self)@.unrelocated(mov, piece, last_capture));
        }
    }

    /// Takes back the move that led to this position. The turn passes
    /// back, the pieces go back, and everything else is read from the
    /// record of the position before, which is the top record from now on.
    #[verifier::rlimit(40)]
    pub fn unmake_move(&mut self)
        requires
            old(self).history().len() >= 2,
            old(self)@.undoable(old(self).history().last()),
        ensures
            final(self)@ == old(self)@.unmake(
                old(self).history().last(),
                old(self).history()[old(self).history().len() - 2],
            ),
            final(self).history() == old(self).history().drop_last(),
    {
        let ghost before = self@;
        let record = self.entropy_stack.pop();
        let previous = self.entropy_stack.top();
        let mov = record.last_move.unwrap();
        let start = mov.start;
        let dest = mov.dest;
        let placed_piece = self.board.square(dest).piece().unwrap();
        let mover = self.to_move.opposite();
        let moving_piece = if mov.promotion.is_some() {
            Piece::pawn(mover)
        } else {
            placed_piece
        };
        self.unmove_piece(mov, moving_piece, record.last_capture);
        let ghost back = self@;
        proof {
            assert(back == before.unrelocated(mov, moving_piece, record.last_capture));
        }
        if moving_piece.kind == PieceKind::Pawn && Some(dest) == previous.en_passant && (if start.1
            >= dest.1 {
            start.1 - dest.1
        } else {
            dest.1 - start.1
        }) == 1 {
            let victim = ChessCell(start.0, dest.1);
            *self.board.square_mut(victim) = Square::Full(Piece::pawn(self.to_move));
            match self.to_move {
                PieceColor::White => self.white_bitboard.add_piece(victim.as_index()),
                PieceColor::Black => self.black_bitboard.add_piece(victim.as_index()),
            }
            proof {
                assert(self@ =~= back.revived(victim));
            }
        }
        let ghost revived = self@;
        if moving_piece.kind == PieceKind::King {
            // A king that had moved two files had castled.
            if (if start.1 >= dest.1 {
                start.1 - dest.1
            } else {
                dest.1 - start.1
            }) == 2 {
                let (rook_home, rook_dest) = if dest == g1() {
                    (h1(), f1())
                } else if dest == c1() {
                    (a1(), d1())
                } else if dest == g8() {
                    (h8(), f8())
                } else {
                    (a8(), d8())
                };
                proof {
                    lemma_put(before.board, dest, uncaptured(record.last_capture));
                    lemma_put(
                        put(before.board, dest, uncaptured(record.last_capture)),
                        start,
                        Square::Full(moving_piece),
                    );
                    assert(self@.square(rook_dest) == before.square(rook_dest));
                }
                let rook = self.board.square(rook_dest).piece().unwrap();
                self.unmove_piece(
                    ChessMove { start: rook_home, dest: rook_dest, promotion: None },
                    rook,
                    None,
                );
            }
        }
        let ghost uncastled = self@;
        self.swap_to_move();
        self.white_king_location = previous.white_king_location;
        self.black_king_location = previous.black_king_location;
        self.last_move = previous.last_move;
        self.en_passant = previous.en_passant;
        self.eval = previous.eval;
        self.castling_rights = previous.castling_rights;
        self.zobrist_key = previous.zobrist_key;
        proof {
            assert(self@ =~= before.unmake(
                old(self).history().last(),
                old(self).history()[old(self).history().len() - 2],
            ));
        }
    }
}

proof fn lemma_bits_there_and_back(bits: u64, start: u64, dest: u64)
    by (bit_vector)
    requires
        start < 64,
        dest < 64,
        start != dest,
        bit_is_set(bits, start),
        !bit_is_set(bits, dest),
    ensures
        ((((bits & !(1u64 << start)) | (1u64 << dest)) & !(1u64 << dest)) | (1u64 << start))
            == bits,
{
}

proof fn lemma_bits_off_and_on(bits: u64, index: u64)
    by (bit_vector)
    requires
        index < 64,
    ensures
        bit_is_set(bits, index) ==> (bits & !(1u64 << index)) | (1u64 << index) == bits,
        !bit_is_set(bits, index) ==> bits & !(1u64 << index) == bits,
{
}

impl Position {
    /// Going there and back leaves the bitboard of the side to move as it
    /// was.
    proof fn lemma_mover_bits(self, start: ChessCell, dest: ChessCell)
        requires
            self.pieces_consistent(),
            start.on_board(),
            dest.on_board(),
            self.square(start).spec_is_color(self.to_move),
            !self.square(dest).spec_is_color(self.to_move),
        ensures
            self.bitboard_of(self.to_move).without(start.spec_as_index()).with(
                dest.spec_as_index(),
            ).without(dest.spec_as_index()).with(start.spec_as_index()) == self.bitboard_of(
                self.to_move,
            ),
    {
        lemma_index_round_trip(start, 0);
        lemma_index_round_trip(dest, 0);
        assert(self.bitboard_of(self.to_move).spec_contains(start.spec_as_index()));
        assert(!self.bitboard_of(self.to_move).spec_contains(dest.spec_as_index()));
        lemma_bits_there_and_back(
            self.bitboard_of(self.to_move).0,
            start.spec_as_index() as u64,
            dest.spec_as_index() as u64,
        );
    }

    /// Taking a piece of the other side off a cell and putting one back
    /// leaves the bitboard of that side as it was, and taking one off an
    /// empty cell changes nothing.
    proof fn lemma_enemy_bits(self, cell: ChessCell)
        requires
            self.pieces_consistent(),
            cell.on_board(),
        ensures
            self.square(cell).spec_is_color(self.to_move.spec_opposite()) ==> self.bitboard_of(
                self.to_move.spec_opposite(),
            ).without(cell.spec_as_index()).with(cell.spec_as_index()) == self.bitboard_of(
                self.to_move.spec_opposite(),
            ),
        !self.square(cell).spec_is_color(self.to_move.spec_opposite()) ==> self.bitboard_of(
                self.to_move.spec_opposite(),
            ).without(cell.spec_as_index()) == self.bitboard_of(self.to_move.spec_opposite()),
    {
        lemma_index_round_trip(cell, 0);
        let enemy = self.to_move.spec_opposite();
        assert(self.bitboard_of(enemy).spec_contains(cell.spec_as_index()) <==> self.square(
            cell,
        ).spec_is_color(enemy));
        lemma_bits_off_and_on(self.bitboard_of(enemy).0, cell.spec_as_index() as u64);
    }

    /// Going there and back leaves board and bitboards as they were.
    proof fn lemma_relocated_back(
        self,
        start: ChessCell,
        dest: ChessCell,
        placed: Piece,
        after: Position,
    )
        requires
            self.pieces_consistent(),
            start.on_board(),
            dest.on_board(),
            self.square(start).spec_is_color(self.to_move),
            !self.square(dest).spec_is_color(self.to_move),
            after.board == self.relocated(start, dest, placed).board,
            after.white_bitboard == self.relocated(start, dest, placed).white_bitboard,
            after.black_bitboard == self.relocated(start, dest, placed).black_bitboard,
            after.to_move == self.to_move.spec_opposite(),
        ensures
            after.unrelocated(
                ChessMove { start, dest, promotion: None },
                self.square(start)->Full_0,
                self.square(dest).spec_piece(),
            ).board == self.board,
            after.unrelocated(
                ChessMove { start, dest, promotion: None },
                self.square(start)->Full_0,
                self.square(dest).spec_piece(),
            ).white_bitboard == self.white_bitboard,
            after.unrelocated(
                ChessMove { start, dest, promotion: None },
                self.square(start)->Full_0,
                self.square(dest).spec_piece(),
            ).black_bitboard == self.black_bitboard,
    {
        let mov = ChessMove { start, dest, promotion: None };
        let piece = self.square(start)->Full_0;
        let capture = self.square(dest).spec_piece();
        let back = after.unrelocated(mov, piece, capture);
        assert(grid_wf(self.board));
        assert(self.square(dest) is Aether <==> !dest.on_board());
        assert(self.square(dest) == uncaptured(capture));
        assert(back.board =~= self.board) by {
            assert(start.grid_index() != dest.grid_index());
        }
        self.lemma_mover_bits(start, dest);
        self.lemma_enemy_bits(dest);
    }
}

impl Position {
    proof fn lemma_unmake_pieces(self, mov: ChessMove)
        requires
            self.wf(),
            self.permits(mov),
        ensures
            self.apply_move(mov).undoable(self.apply_move(mov).entropy(self.captured(mov))),
            self.apply_move(mov).unmover(mov) == self.mover(mov),
            self.apply_move(mov).unmake(
                self.apply_move(mov).entropy(self.captured(mov)),
                self.entropy(None),
            ).board == self.board,
            self.apply_move(mov).unmake(
                self.apply_move(mov).entropy(self.captured(mov)),
                self.entropy(None),
            ).white_bitboard == self.white_bitboard,
            self.apply_move(mov).unmake(
                self.apply_move(mov).entropy(self.captured(mov)),
                self.entropy(None),
            ).black_bitboard == self.black_bitboard,
    {
        let after = self.apply_move(mov);
        let record = after.entropy(self.captured(mov));
        let piece = self.mover(mov);
        let capture = self.captured(mov);
        let castling_type = castling_type_by_dest(mov.dest);
        let rook_home = castling_type.rook_home();
        let rook_dest = castling_type.rook_dest();
        let victim = ChessCell(mov.start.0, mov.dest.1);
        let plain = ChessMove { start: mov.start, dest: mov.dest, promotion: None };
        self.lemma_apply_move_wf(mov);
        assert(after.square(mov.dest) == self.square_after(mov, mov.dest));
        assert(after.unmover(mov) == piece);
        assert(self.square(mov.dest) is Aether <==> !mov.dest.on_board());
        assert(after.was_castle(mov) == self.is_castle(mov));
        assert(after.was_en_passant(mov, self.en_passant) == self.is_en_passant_capture(mov));
        let back = after.unrelocated(mov, piece, capture);
        assert(back == after.unrelocated(plain, piece, capture));
        if self.is_castle(mov) {
            let rook = self.square(rook_home)->Full_0;
            let castled = self.relocated(rook_home, rook_dest, rook);
            self.lemma_relocated(rook_home, rook_dest, rook);
            assert(after.square(rook_dest) == self.square_after(mov, rook_dest));
            castled.lemma_relocated_back(mov.start, mov.dest, piece, after);
            self.lemma_relocated_back(rook_home, rook_dest, rook, back);
            assert(back.square(rook_dest) == castled.square(rook_dest));
        } else if self.is_en_passant_capture(mov) {
            assert(victim == self.en_passant_victim(mov.dest));
            let taken = self.cleared(victim);
            self.lemma_cleared(victim);
            taken.lemma_relocated_back(mov.start, mov.dest, self.placed(mov), after);
            self.lemma_enemy_bits(victim);
            let revived = back.revived(victim);
            assert(revived.board =~= self.board);
        } else {
            self.lemma_relocated_back(mov.start, mov.dest, self.placed(mov), after);
        }
    }

    /// A move that may be made, once made and then taken back, leaves the
    /// position as it was: board, bitboards, king locations, castling
    /// rights, en passant target, evaluation, hash, last move and side to
    /// move.
    pub proof fn lemma_make_unmake(self, mov: ChessMove, last_capture: Option<Piece>)
        requires
            self.wf(),
            self.permits(mov),
        ensures
            self.apply_move(mov).undoable(self.apply_move(mov).entropy(self.captured(mov))),
            self.apply_move(mov).unmake(
                self.apply_move(mov).entropy(self.captured(mov)),
                self.entropy(last_capture),
            ) == self,
    {
        self.lemma_unmake_pieces(mov);
        let after = self.apply_move(mov);
        let record = after.entropy(self.captured(mov));
        assert(after.unmake(record, self.entropy(last_capture)).board == after.unmake(
            record,
            self.entropy(None),
        ).board);
        assert(after.unmake(record, self.entropy(last_capture)) =~= self);
    }
}

} // verus!
