//! Reading and writing the fields that a position keeps both in itself
//! and in the top record of its stack.

use vstd::prelude::*;
use crate::board_elements::{CastlingRights, CastlingType, ChessMove, Piece, PieceColor};
use crate::board_state::{BoardState, MoveEntropy};
use crate::position::{seen_by, Position};

verus! {

impl BoardState {
    /// The top record.
    pub open spec fn top_record(&self) -> MoveEntropy {
        self.history().last()
    }

    /// The history with its top record replaced.
    pub open spec fn with_record(&self, record: MoveEntropy) -> Seq<MoveEntropy> {
        self.history().drop_last().push(record)
    }

    /// The move that led to this position, if one did.
    #[inline]
    pub fn last_move(&self) -> (r: Option<ChessMove>)
        requires
            self.entropy_stack.wf(),
        ensures
            r == self.top_record().last_move,
            self.synced() ==> r == self.last_move,
    {
        self.entropy_stack.last_move()
    }

    /// What the move that led to this position captured on its
    /// destination.
    #[inline]
    pub fn last_capture(&self) -> (r: Option<Piece>)
        requires
            self.entropy_stack.wf(),
        ensures
            r == self.top_record().last_capture,
    {
        self.entropy_stack.last_capture()
    }

    /// The evaluation of the top record as the side to move sees it.
    #[inline]
    pub fn eval(&self) -> (r: i32)
        requires
            self.entropy_stack.wf(),
            self.top_record().eval > i32::MIN,
        ensures
            r == seen_by(self.to_move, self.top_record().eval as int),
            self.synced() ==> r == self@.pov_eval(),
    {
        let eval = self.entropy_stack.eval();
        proof {
            match self.to_move {
                PieceColor::White => assert(eval * 1 == eval),
                PieceColor::Black => assert(eval * (-1) == -eval),
            }
        }
        eval * self.to_move.signum()
    }

    /// The castling rights that are still held.
    #[inline]
    pub fn castling_rights(&self) -> (r: CastlingRights)
        requires
            self.entropy_stack.wf(),
        ensures
            r == self.top_record().castling_rights,
            self.synced() ==> r == self.castling_rights,
    {
        self.entropy_stack.castling_rights()
    }

    /// Forgets the en passant target.
    #[inline]
    pub fn clear_en_passant_square(&mut self)
        requires
            old(self).entropy_stack.wf(),
        ensures
            final(self)@ == (Position { en_passant: None, ..old(self)@ }),
            final(self).history() == old(self).with_record(
                MoveEntropy { en_passant: None, ..old(self).top_record() },
            ),
    {
        self.en_passant = None;
        self.entropy_stack.top_mut().en_passant = None;
    }

    /// Writes the move that led to this position.
    #[inline]
    pub fn set_last_move(&mut self, mov: ChessMove)
        requires
            old(self).entropy_stack.wf(),
        ensures
            final(self)@ == (Position { last_move: Some(mov), ..old(self)@ }),
            final(self).history() == old(self).with_record(
                MoveEntropy { last_move: Some(mov), ..old(self).top_record() },
            ),
    {
        self.last_move = Some(mov);
        self.entropy_stack.set_last_move(mov)
    }

    /// Writes what the move that led to this position captured.
    #[inline]
    pub fn set_last_capture(&mut self, captured_piece: Option<Piece>)
        requires
            old(self).entropy_stack.wf(),
        ensures
            final(self)@ == old(self)@,
            final(self).history() == old(self).with_record(
                MoveEntropy { last_capture: captured_piece, ..old(self).top_record() },
            ),
    {
        self.entropy_stack.set_last_capture(captured_piece)
    }

    /// Writes the evaluation, White's pieces counted positive.
    pub fn set_eval(&mut self, eval: i32)
        requires
            old(self).entropy_stack.wf(),
        ensures
            final(self)@ == (Position { eval, ..old(self)@ }),
            final(self).history() == old(self).with_record(
                MoveEntropy { eval, ..old(self).top_record() },
            ),
    {
        self.eval = eval;
        self.entropy_stack.top_mut().eval = eval
    }

    /// Writes the castling rights.
    pub fn set_castling_rights(&mut self, castling_rights: CastlingRights)
        requires
            old(self).entropy_stack.wf(),
        ensures
            final(self)@ == (Position { castling_rights, ..old(self)@ }),
            final(self).history() == old(self).with_record(
                MoveEntropy { castling_rights, ..old(self).top_record() },
            ),
    {
        self.castling_rights = castling_rights;
        self.entropy_stack.top_mut().castling_rights = castling_rights
    }

    /// Gives up one castling right.
    pub fn remove_castling_right(&mut self, castling_type: CastlingType)
        requires
            old(self).entropy_stack.wf(),
        ensures
            final(self)@ == (Position {
                castling_rights: old(self).castling_rights.without(castling_type),
                ..old(self)@
            }),
            final(self).history() == old(self).with_record(
                MoveEntropy {
                    castling_rights: old(self).top_record().castling_rights.without(castling_type),
                    ..old(self).top_record()
                },
            ),
    {
        self.castling_rights.remove_castling_right(castling_type);
        self.entropy_stack.top_mut().castling_rights.remove_castling_right(castling_type)
    }

    /// Gives up both castling rights of a colour.
    pub fn remove_color_castling_rights(&mut self, color: PieceColor)
        requires
            old(self).entropy_stack.wf(),
        ensures
            final(self)@ == (Position {
                castling_rights: old(self).castling_rights.without_color(color),
                ..old(self)@
            }),
            final(self).history() == old(self).with_record(
                MoveEntropy {
                    castling_rights: old(self).top_record().castling_rights.without_color(color),
                    ..old(self).top_record()
                },
            ),
    {
        self.castling_rights.remove_color_castling_rights(color);
        self.entropy_stack.top_mut().castling_rights.remove_color_castling_rights(color)
    }
}

} // verus!
