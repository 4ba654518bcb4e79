//! What holds of games: of positions reached by one move after another.

use vstd::prelude::*;
use crate::board_elements::{CastlingType, ChessCell, ChessMove, PieceColor, PieceKind};
use crate::position::{lemma_index_round_trip, Position};

verus! {

impl Position {
    /// The position after the first `n` of the given moves.
    pub open spec fn apply_moves(self, moves: Seq<ChessMove>, n: nat) -> Position
        decreases n,
    {
        if n == 0 {
            self
        } else {
            self.apply_moves(moves, (n - 1) as nat).apply_move(moves[n - 1])
        }
    }

    /// Whether each of the first `n` moves may be made in the position in
    /// which its turn comes.
    pub open spec fn permits_moves(self, moves: Seq<ChessMove>, n: nat) -> bool
        decreases n,
    {
        if n == 0 {
            true
        } else {
            self.permits_moves(moves, (n - 1) as nat) && self.apply_moves(
                moves,
                (n - 1) as nat,
            ).permits(moves[n - 1])
        }
    }

    /// In every position reached from a position whose cache agrees with
    /// its board, by moves that may be made, the cache agrees with the
    /// board. The bits of each bitboard are exactly the cells that hold a
    /// piece of its colour, and no cell is in both bitboards.
    pub proof fn lemma_game_wf(self, moves: Seq<ChessMove>, n: nat)
        requires
            self.wf(),
            n <= moves.len(),
            self.permits_moves(moves, n),
        ensures
            self.apply_moves(moves, n).wf(),
            forall|index: usize|
                index < 64 ==> !(#[trigger] self.apply_moves(
                    moves,
                    n,
                ).white_bitboard.spec_contains(index) && self.apply_moves(
                    moves,
                    n,
                ).black_bitboard.spec_contains(index)),
        decreases n,
    {
        if n > 0 {
            self.lemma_game_wf(moves, (n - 1) as nat);
            self.apply_moves(moves, (n - 1) as nat).lemma_apply_move_wf(moves[n - 1]);
        }
        let reached = self.apply_moves(moves, n);
        assert forall|index: usize| index < 64 implies !(
        #[trigger] reached.white_bitboard.spec_contains(index)
            && reached.black_bitboard.spec_contains(index)) by {
            assert(reached.bitboard_of(PieceColor::White).spec_contains(index) <==> reached.square(
                ChessCell::spec_from_index(index),
            ).spec_is_color(PieceColor::White));
            assert(reached.bitboard_of(PieceColor::Black).spec_contains(index) <==> reached.square(
                ChessCell::spec_from_index(index),
            ).spec_is_color(PieceColor::Black));
        }
    }

    /// Two positions with the same board, the same side to move, the same
    /// castling rights and the same en passant target have the same hash,
    /// where the hash of each is up to date.
    pub proof fn lemma_same_position_same_hash(self, other: Position)
        requires
            self.hash_consistent(),
            other.hash_consistent(),
            self.board == other.board,
            self.to_move == other.to_move,
            self.castling_rights == other.castling_rights,
            self.en_passant == other.en_passant,
        ensures
            self.zobrist_key == other.zobrist_key,
    {
    }

    /// Two sequences of moves from one position that arrive at the same
    /// board, side to move, castling rights and en passant target arrive
    /// at the same hash. With an empty second sequence: a sequence that
    /// comes back to the position from which it started comes back to its
    /// hash.
    pub proof fn lemma_transposition(self, first: Seq<ChessMove>, second: Seq<ChessMove>)
        requires
            self.wf(),
            self.permits_moves(first, first.len()),
            self.permits_moves(second, second.len()),
            self.apply_moves(first, first.len()).board == self.apply_moves(
                second,
                second.len(),
            ).board,
            self.apply_moves(first, first.len()).to_move == self.apply_moves(
                second,
                second.len(),
            ).to_move,
            self.apply_moves(first, first.len()).castling_rights == self.apply_moves(
                second,
                second.len(),
            ).castling_rights,
            self.apply_moves(first, first.len()).en_passant == self.apply_moves(
                second,
                second.len(),
            ).en_passant,
        ensures
            self.apply_moves(first, first.len()).zobrist_key == self.apply_moves(
                second,
                second.len(),
            ).zobrist_key,
    {
        self.lemma_game_wf(first, first.len());
        self.lemma_game_wf(second, second.len());
    }

    /// A castling right that is not held is not held after any number of
    /// further moves, whatever stands on the home squares by then.
    pub proof fn lemma_rights_never_return(
        self,
        moves: Seq<ChessMove>,
        n: nat,
        castling_type: CastlingType,
    )
        requires
            !self.castling_rights.spec_has(castling_type),
        ensures
            !self.apply_moves(moves, n).castling_rights.spec_has(castling_type),
        decreases n,
    {
        if n > 0 {
            self.lemma_rights_never_return(moves, (n - 1) as nat, castling_type);
            self.apply_moves(moves, (n - 1) as nat).lemma_rights_after(moves[n - 1]);
        }
    }

    /// After a move of the king its side holds no right; after a move of
    /// a rook from its corner, or of any piece onto a corner, the right of
    /// that corner is not held; and none of this is undone by any number
    /// of further moves.
    pub proof fn lemma_rights_revoked_for_good(
        self,
        mov: ChessMove,
        moves: Seq<ChessMove>,
        n: nat,
        castling_type: CastlingType,
    )
        requires
            (self.mover(mov).kind == PieceKind::King && castling_type.color() == self.mover(
                mov,
            ).color) || (self.mover(mov).kind == PieceKind::Rook && mov.start
                == castling_type.rook_home()) || mov.dest == castling_type.rook_home(),
        ensures
            !self.apply_move(mov).apply_moves(moves, n).castling_rights.spec_has(castling_type),
    {
        self.lemma_rights_after(mov);
        self.apply_move(mov).lemma_rights_never_return(moves, n, castling_type);
    }
}

impl Position {
    /// Whether each of the first `n` moves is a legal move in the position
    /// in which its turn comes.
    pub open spec fn legal_game(self, moves: Seq<ChessMove>, n: nat) -> bool
        decreases n,
    {
        if n == 0 {
            true
        } else {
            self.legal_game(moves, (n - 1) as nat) && self.apply_moves(
                moves,
                (n - 1) as nat,
            ).legal_moves().contains(moves[n - 1])
        }
    }

    /// Every legal move is a move of the generator after which the
    /// mover's king is not attacked.
    pub proof fn lemma_legal_move(self, mov: ChessMove)
        requires
            self.legal_moves().contains(mov),
        ensures
            self.pseudo_moves().contains(mov),
            self.apply_move(mov).is_valid(),
    {
        let pseudo = self.pseudo_moves();
        self.lemma_legal_among_holds(pseudo, pseudo.len());
        self.lemma_legal_among_members(pseudo, pseudo.len());
        let legal = self.legal_moves();
        let k = choose|k: int| 0 <= k < legal.len() && legal[k] == mov;
        assert(self.apply_move(legal[k]).is_valid());
    }

    /// The legal moves among the first `n` moves of a list are moves of
    /// the list.
    pub proof fn lemma_legal_among_members(self, moves: Seq<ChessMove>, n: nat)
        requires
            n <= moves.len(),
        ensures
            forall|k: int|
                0 <= k < self.legal_among(moves, n).len() ==> moves.contains(
                    #[trigger] self.legal_among(moves, n)[k],
                ),
        decreases n,
    {
        if n > 0 {
            self.lemma_legal_among_members(moves, (n - 1) as nat);
            let all = self.legal_among(moves, n);
            assert forall|k: int| 0 <= k < all.len() implies moves.contains(#[trigger] all[k]) by {
                if k == self.legal_among(moves, (n - 1) as nat).len() {
                    assert(moves[n - 1] == all[k]);
                }
            }
        }
    }

    /// A game of legal moves from a position that a legal move has led to
    /// stays among such positions: every position of the game has a cache
    /// that agrees with its board, and in none of them can the side to
    /// move capture a king. The position at the start of a game is such a
    /// position, so that this holds of every position that a game
    /// reaches.
    pub proof fn lemma_legal_game(self, moves: Seq<ChessMove>, n: nat)
        requires
            self.wf(),
            self.is_valid(),
            n <= moves.len(),
            self.legal_game(moves, n),
        ensures
            self.permits_moves(moves, n),
            self.apply_moves(moves, n).wf(),
            self.apply_moves(moves, n).is_valid(),
        decreases n,
    {
        if n > 0 {
            self.lemma_legal_game(moves, (n - 1) as nat);
            let before = self.apply_moves(moves, (n - 1) as nat);
            let mov = moves[n - 1];
            before.lemma_legal_move(mov);
            let pseudo = before.pseudo_moves();
            let k = choose|k: int| 0 <= k < pseudo.len() && pseudo[k] == mov;
            before.lemma_pseudo_move_permitted(k);
            before.lemma_apply_move_wf(mov);
        }
    }
}

/// The cells of the playing area and the dense indices below 64
/// correspond one to one, and no cell outside the playing area has the
/// index of a cell inside.
pub proof fn lemma_cells_and_indices(cell: ChessCell, other: ChessCell, index: usize)
    ensures
        cell.on_board() ==> cell.spec_as_index() < 64 && ChessCell::spec_from_index(
            cell.spec_as_index(),
        ) == cell,
        index < 64 ==> ChessCell::spec_from_index(index).on_board() && ChessCell::spec_from_index(
            index,
        ).spec_as_index() == index,
        cell.on_board() && other.on_board() && cell.spec_as_index() == other.spec_as_index()
            ==> cell == other,
        index >= 64 ==> !ChessCell::spec_from_index(index).on_board(),
{
    lemma_index_round_trip(cell, index);
}

} // verus!
