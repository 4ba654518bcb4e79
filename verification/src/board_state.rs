//! The position: the board with everything that is cached beside it, and
//! the operations that keep the cache true move by move.

use vstd::prelude::*;
use vstd::string::StringSliceAdditionalSpecFns;
use crate::board_elements::{
    bit_is_set, BitBoard, CastlingRights, CastlingType, ChessCell, ChessMove, Piece, PieceColor,
    PieceKind, Square,
};
use crate::chess_board::{ChessBoard, empty_square, grid_wf, opening_square, put, square_at};
use crate::constants::{
    a1, a8, BLACK_STARTING_BITBOARD, BOARD_END, BOARD_START, c1, d1, d8, e1, e8, E_FILE, f1, f8, g1,
    g8, h1, h8, RANK_1, RANK_8, WHITE_STARTING_BITBOARD,
};
use crate::evaluation::{evaluate, evaluate_piece};
use crate::fen::{
    board_from_fen, castling_rights_from_fen, en_passant_square_from_fen, FenError, FenFields,
    fields_of, last_king_upto, lemma_last_king, spec_from_fen, to_move_from_fen,
};
use crate::move_generation::{
    generate_moves, generate_pseudo_moves_for_piece, piece_moves, reaches_target,
};
use crate::move_scoring::positional_value_delta;
use crate::position::{
    abs_diff, board_hash, board_score, castling_type_by_dest, cells_of, en_passant_hash,
    lemma_board_score_bounds, lemma_cells_of, lemma_index_round_trip, lemma_player_hashes,
    lemma_put, lemma_score_put, lemma_xor_laws, pieces_strings, player_hash_upto, Position,
    position_hash, revoked, right_hash, rights_hash, seen_by, side_hash, square_score,
};
use crate::ray_attacks::attack_mask;
use crate::zobrist_hashing::ZobristOracle;

verus! {

/// How a finished game ended.
#[derive(Debug, Clone, Copy, PartialEq, Eq, Structural)]
pub enum GameResult {
    Winner(PieceColor),
    Draw,
}

/// What a move destroys: the part of a position that cannot be read off
/// the board once the next move has been made, and with it the move that
/// led to the position and what that move captured.
#[derive(Debug, Clone, Copy, PartialEq, Eq, Structural)]
pub struct MoveEntropy {
    pub last_move: Option<ChessMove>,
    pub last_capture: Option<Piece>,
    pub eval: i32,
    pub castling_rights: CastlingRights,
    pub en_passant: Option<ChessCell>,
    pub zobrist_key: u64,
    pub white_king_location: ChessCell,
    pub black_king_location: ChessCell,
}

impl Default for MoveEntropy {
    fn default() -> (r: MoveEntropy)
        ensures
            r == MoveEntropy::blank(),
    {
        MoveEntropy {
            last_move: None,
            last_capture: None,
            eval: 0,
            castling_rights: CastlingRights::default(),
            en_passant: None,
            zobrist_key: 0,
            white_king_location: ChessCell(0, 0),
            black_king_location: ChessCell(0, 0),
        }
    }
}

impl MoveEntropy {
    /// The record of a position without a past.
    pub open spec fn blank() -> MoveEntropy {
        MoveEntropy {
            last_move: None,
            last_capture: None,
            eval: 0,
            castling_rights: CastlingRights::none(),
            en_passant: None,
            zobrist_key: 0,
            white_king_location: ChessCell(0, 0),
            black_king_location: ChessCell(0, 0),
        }
    }

    /// The record of a position reached by `mov`, which captured `capture`.
    /// The en passant target, the hash and the king locations start out
    /// blank.
    pub fn new(
        mov: ChessMove,
        capture: Option<Piece>,
        eval: i32,
        castling_rights: CastlingRights,
    ) -> (r: MoveEntropy)
        ensures
            r == (MoveEntropy {
                last_move: Some(mov),
                last_capture: capture,
                eval,
                castling_rights,
                en_passant: None,
                zobrist_key: 0,
                white_king_location: ChessCell(0, 0),
                black_king_location: ChessCell(0, 0),
            }),
    {
        MoveEntropy {
            last_move: Some(mov),
            last_capture: capture,
            eval,
            castling_rights,
            en_passant: None,
            zobrist_key: 0,
            white_king_location: ChessCell(0, 0),
            black_king_location: ChessCell(0, 0),
        }
    }
}

/// The records of the positions of a game, the current one on top. The
/// bottom record belongs to the position from which the game started; a
/// position keeps it on its stack.
#[derive(Debug, Clone, PartialEq, Eq)]
pub struct EntropyStack {
    pub stack: Vec<MoveEntropy>,
}

impl View for EntropyStack {
    type V = Seq<MoveEntropy>;

    open spec fn view(&self) -> Seq<MoveEntropy> {
        self.stack@
    }
}

impl EntropyStack {
    /// The stack holds a record.
    pub open spec fn wf(&self) -> bool {
        self@.len() >= 1
    }

    pub open spec fn spec_top(&self) -> MoveEntropy {
        self@.last()
    }

    /// The stack with one blank record.
    pub fn new() -> (r: EntropyStack)
        ensures
            r@ == seq![MoveEntropy::blank()],
    {
        let mut stack: Vec<MoveEntropy> = Vec::new();
        stack.push(MoveEntropy::default());
        assert(stack@ =~= seq![MoveEntropy::blank()]);
        EntropyStack { stack }
    }

    /// Takes the top record off the stack.
    pub fn pop(&mut self) -> (r: MoveEntropy)
        requires
            old(self)@.len() >= 1,
        ensures
            r == old(self)@.last(),
            final(self)@ == old(self)@.drop_last(),
            old(self)@.len() >= 2 ==> final(self).wf(),
    {
        let r = self.stack.pop();
        r.unwrap()
    }

    /// The top record.
    #[verifier::when_used_as_spec(spec_top)]
    pub fn top(&self) -> (r: MoveEntropy)
        requires
            self.wf(),
        ensures
            r == self.spec_top(),
    {
        self.stack[self.stack.len() - 1]
    }

    /// The top record, to be written.
    pub fn top_mut(&mut self) -> (r: &mut MoveEntropy)
        requires
            old(self).wf(),
        ensures
            *r == old(self).spec_top(),
            final(self)@ == old(self)@.drop_last().push(*final(r)),
    {
        let last = self.stack.len() - 1;
        let ghost before = self.stack@;
        let r = &mut self.stack[last];
        proof {
            assert(before.update(last as int, *final(r)) =~= before.drop_last().push(*final(r)));
        }
        r
    }

    /// The move of the top record.
    pub fn last_move(&self) -> (r: Option<ChessMove>)
        requires
            self.wf(),
        ensures
            r == self.spec_top().last_move,
    {
        self.top().last_move
    }

    /// The capture of the top record.
    pub fn last_capture(&self) -> (r: Option<Piece>)
        requires
            self.wf(),
        ensures
            r == self.spec_top().last_capture,
    {
        self.top().last_capture
    }

    /// The evaluation of the top record.
    pub fn eval(&self) -> (r: i32)
        requires
            self.wf(),
        ensures
            r == self.spec_top().eval,
    {
        self.top().eval
    }

    /// The castling rights of the top record.
    pub fn castling_rights(&self) -> (r: CastlingRights)
        requires
            self.wf(),
        ensures
            r == self.spec_top().castling_rights,
    {
        self.top().castling_rights
    }

    /// Writes the move of the top record.
    pub fn set_last_move(&mut self, mov: ChessMove)
        requires
            old(self).wf(),
        ensures
            final(self)@ == old(self)@.drop_last().push(
                MoveEntropy { last_move: Some(mov), ..old(self).spec_top() },
            ),
    {
        self.top_mut().last_move = Some(mov);
    }

    /// Writes the capture of the top record.
    pub fn set_last_capture(&mut self, captured_piece: Option<Piece>)
        requires
            old(self).wf(),
        ensures
            final(self)@ == old(self)@.drop_last().push(
                MoveEntropy { last_capture: captured_piece, ..old(self).spec_top() },
            ),
    {
        self.top_mut().last_capture = captured_piece;
    }

    /// Opens the record of the position that `mov` leads to. The new
    /// record starts as a copy of the current one, with `mov` and its
    /// capture written in.
    pub fn push(&mut self, mov: ChessMove, capture: Option<Piece>)
        requires
            old(self).wf(),
        ensures
            final(self)@ == old(self)@.push(
                MoveEntropy {
                    last_move: Some(mov),
                    last_capture: capture,
                    ..old(self).spec_top()
                },
            ),
    {
        let top = self.top();
        let mut entry = MoveEntropy::new(mov, capture, top.eval, top.castling_rights);
        entry.en_passant = top.en_passant;
        entry.zobrist_key = top.zobrist_key;
        entry.white_king_location = top.white_king_location;
        entry.black_king_location = top.black_king_location;
        self.stack.push(entry);
    }
}

/// A position of a game, with the records of the positions before it.
#[derive(Clone, PartialEq, Eq, Debug)]
pub struct BoardState {
    pub board: ChessBoard,
    pub to_move: PieceColor,
    /// The cells on which White's pieces stand.
    pub white_bitboard: BitBoard,
    /// The cells on which Black's pieces stand.
    pub black_bitboard: BitBoard,
    pub white_king_location: ChessCell,
    pub black_king_location: ChessCell,
    pub last_move: Option<ChessMove>,
    pub en_passant: Option<ChessCell>,
    /// The score of the board, White's pieces counted positive.
    pub eval: i32,
    pub castling_rights: CastlingRights,
    pub zobrist_key: u64,
    pub entropy_stack: EntropyStack,
}

impl View for BoardState {
    type V = Position;

    open spec fn view(&self) -> Position {
        Position {
            board: self.board@,
            to_move: self.to_move,
            white_bitboard: self.white_bitboard,
            black_bitboard: self.black_bitboard,
            white_king_location: self.white_king_location,
            black_king_location: self.black_king_location,
            last_move: self.last_move,
            en_passant: self.en_passant,
            eval: self.eval,
            castling_rights: self.castling_rights,
            zobrist_key: self.zobrist_key,
        }
    }
}

impl Position {
    /// The record of this position, given what the move that led to it
    /// captured.
    pub open spec fn entropy(self, last_capture: Option<Piece>) -> MoveEntropy {
        MoveEntropy {
            last_move: self.last_move,
            last_capture,
            eval: self.eval,
            castling_rights: self.castling_rights,
            en_passant: self.en_passant,
            zobrist_key: self.zobrist_key,
            white_king_location: self.white_king_location,
            black_king_location: self.black_king_location,
        }
    }
}

impl BoardState {
    /// The records of the game so far, the one of this position last.
    pub open spec fn history(&self) -> Seq<MoveEntropy> {
        self.entropy_stack@
    }

    /// The top record is the record of this position.
    pub open spec fn synced(&self) -> bool {
        &&& self.history().len() >= 1
        &&& self.history().last() == self@.entropy(self.history().last().last_capture)
    }

    /// The cache agrees with the board, and the top record with both.
    pub open spec fn wf(&self) -> bool {
        self@.wf() && self.synced()
    }

    /// A copy of the position with a past of its own: its stack holds the
    /// record of the position and nothing before it. Moves tried on the
    /// copy leave this position alone.
    pub fn scratch(&self) -> (r: BoardState)
        ensures
            r@ == self@,
            r.history() == seq![self@.entropy(None)],
            r.synced(),
    {
        let mut entropy_stack = EntropyStack::new();
        let top = entropy_stack.top_mut();
        top.last_move = self.last_move;
        top.eval = self.eval;
        top.castling_rights = self.castling_rights;
        top.en_passant = self.en_passant;
        top.zobrist_key = self.zobrist_key;
        top.white_king_location = self.white_king_location;
        top.black_king_location = self.black_king_location;
        let r = BoardState {
            board: self.board,
            to_move: self.to_move,
            white_bitboard: self.white_bitboard,
            black_bitboard: self.black_bitboard,
            white_king_location: self.white_king_location,
            black_king_location: self.black_king_location,
            last_move: self.last_move,
            en_passant: self.en_passant,
            eval: self.eval,
            castling_rights: self.castling_rights,
            zobrist_key: self.zobrist_key,
            entropy_stack,
        };
        proof {
            assert(r.history() =~= seq![self@.entropy(None)]);
        }
        r
    }

    /// Passes the turn.
    #[inline]
    pub fn swap_to_move(&mut self)
        ensures
            *final(self) == (BoardState {
                to_move: old(self).to_move.spec_opposite(),
                ..*old(self)
            }),
    {
        match self.to_move {
            PieceColor::White => self.to_move = PieceColor::Black,
            PieceColor::Black => self.to_move = PieceColor::White,
        }
    }

    /// The recorded location of the king of the given colour.
    pub fn king_location_of(&self, color: PieceColor) -> (r: ChessCell)
        ensures
            r == self@.king_location_of(color),
    {
        match color {
            PieceColor::White => self.white_king_location,
            PieceColor::Black => self.black_king_location,
        }
    }

    /// The cells on which the pieces of the given colour stand, in
    /// ascending order of their dense index.
    pub fn get_piece_positions(&self, color: PieceColor) -> (r: Vec<ChessCell>)
        ensures
            r@ == self@.piece_positions(color),
    {
        let mut piece_positions: Vec<ChessCell> = Vec::new();
        let bitboard = match color {
            PieceColor::White => self.white_bitboard,
            PieceColor::Black => self.black_bitboard,
        };
        let mut position: usize = 0;
        while position < 64
            invariant
                position <= 64,
                bitboard == self@.bitboard_of(color),
                piece_positions@ == cells_of(bitboard.0, position as nat),
            decreases 64 - position,
        {
            if bitboard.contains(position) {
                piece_positions.push(ChessCell::from_index(position));
            }
            position += 1;
        }
        piece_positions
    }

    /// The ways of castling for which the given colour still holds the
    /// right: king side first, then queen side.
    pub fn available_castling_types(&self, color: PieceColor) -> (r: Vec<CastlingType>)
        ensures
            r@ == self@.available_castling_types(color),
    {
        let mut castling_types: Vec<CastlingType> = Vec::new();
        match color {
            PieceColor::White => {
                if self.castling_rights.white_king_side_castling {
                    castling_types.push(CastlingType::WhiteKingSide)
                }
                if self.castling_rights.white_queen_side_castling {
                    castling_types.push(CastlingType::WhiteQueenSide)
                }
            },
            PieceColor::Black => {
                if self.castling_rights.black_king_side_castling {
                    castling_types.push(CastlingType::BlackKingSide)
                }
                if self.castling_rights.black_queen_side_castling {
                    castling_types.push(CastlingType::BlackQueenSide)
                }
            },
        }
        assert(castling_types@ =~= self@.available_castling_types(color));
        castling_types
    }
}

/// Whether one of the moves ends on `target`.
fn any_move_reaches(moves: &Vec<ChessMove>, target: ChessCell) -> (r: bool)
    ensures
        r == reaches_target(moves@, target),
{
    let mut index: usize = 0;
    while index < moves.len()
        invariant
            index <= moves.len(),
            forall|k: int| 0 <= k < index ==> (#[trigger] moves@[k]).dest != target,
        decreases moves.len() - index,
    {
        if moves[index].dest == target {
            return true;
        }
        index += 1;
    }
    false
}

impl BoardState {
    /// The pieces of the given colour that would reach `target_square` on
    /// an empty board, each with its cell.
    pub fn ray_attackers(&self, target_square: ChessCell, color: PieceColor) -> (r: Vec<
        (Piece, ChessCell),
    >)
        requires
            grid_wf(self@.board),
            self@.bitboards_consistent(),
            target_square.on_board(),
        ensures
            r@ == self@.ray_attackers(target_square, color),
            forall|k: int| 0 <= k < r@.len() ==> (#[trigger] r@[k]).1.on_board(),
    {
        let target_idx = target_square.as_index();
        let mut ray_attackers: Vec<(Piece, ChessCell)> = Vec::new();
        let positions = self.get_piece_positions(color);
        proof {
            lemma_cells_of(self@.bitboard_of(color).0, 64);
        }
        let mut index: usize = 0;
        while index < positions.len()
            invariant
                index <= positions.len(),
                grid_wf(self@.board),
                self@.bitboards_consistent(),
                target_square.on_board(),
                target_idx == target_square.spec_as_index(),
                positions@ == self@.piece_positions(color),
                forall|k: int|
                    0 <= k < positions@.len() ==> {
                        let cell = #[trigger] positions@[k];
                        cell.on_board() && cell.spec_as_index() < 64 && bit_is_set(
                            self@.bitboard_of(color).0,
                            cell.spec_as_index() as u64,
                        )
                    },
                ray_attackers@ == self@.ray_attackers_among(
                    target_square,
                    positions@,
                    index as nat,
                ),
                forall|k: int|
                    0 <= k < ray_attackers@.len() ==> (#[trigger] ray_attackers@[k]).1.on_board(),
            decreases positions.len() - index,
        {
            let attacker = positions[index];
            proof {
                lemma_index_round_trip(attacker, 0);
                assert(self@.bitboard_of(color).spec_contains(attacker.spec_as_index()));
            }
            let attacker_idx = attacker.as_index();
            let attacking_square = *self.board.square(attacker);
            let attacking_piece = attacking_square.piece().unwrap();
            let attacked_squares = attack_mask(attacking_piece, attacker_idx);
            if (attacked_squares >> (target_idx as u64)) & 1 == 1 {
                ray_attackers.push((attacking_piece, attacker));
            }
            index += 1;
        }
        ray_attackers
    }

    /// Whether a piece of the given colour attacks `target_square`.
    ///
    /// The attack tables pick the candidates; for each of them its moves on
    /// the board as it is decide, so that a piece in between blocks the
    /// attack.
    pub fn square_is_attacked(&self, target_square: ChessCell, attacker: PieceColor) -> (r: bool)
        requires
            grid_wf(self@.board),
            self@.bitboards_consistent(),
            target_square.on_board(),
        ensures
            r == self@.square_is_attacked(target_square, attacker),
    {
        let ray_attackers = self.ray_attackers(target_square, attacker);
        if ray_attackers.len() == 0 {
            return false;
        }
        let mut index: usize = 0;
        while index < ray_attackers.len()
            invariant
                index <= ray_attackers.len(),
                grid_wf(self@.board),
                ray_attackers@ == self@.ray_attackers(target_square, attacker),
                forall|k: int|
                    0 <= k < ray_attackers@.len() ==> (#[trigger] ray_attackers@[k]).1.on_board(),
                forall|k: int|
                    0 <= k < index ==> !reaches_target(
                        #[trigger] piece_moves(
                            self@.board,
                            ray_attackers@[k].0,
                            ray_attackers@[k].1,
                        ),
                        target_square,
                    ),
            decreases ray_attackers.len() - index,
        {
            let (piece, position) = ray_attackers[index];
            let mut enemy_moves: Vec<ChessMove> = Vec::new();
            generate_pseudo_moves_for_piece(piece, self, position, &mut enemy_moves);
            assert(enemy_moves@ =~= piece_moves(self@.board, piece, position));
            if any_move_reaches(&enemy_moves, target_square) {
                return true;
            }
            index += 1;
        }
        false
    }

    /// Whether the position is one that a legal move can have led to: the
    /// king of the side that is not to move is not attacked.
    pub fn is_valid_move(&self) -> (r: bool)
        requires
            self@.pieces_consistent(),
            self@.king_location_of(self.to_move.spec_opposite()).on_board(),
        ensures
            r == self@.is_valid(),
    {
        let king_location = self.king_location_of(self.to_move.opposite());
        !self.square_is_attacked(king_location, self.to_move)
    }
}

proof fn lemma_xor_position(
    board_before: u64,
    rights_before: u64,
    en_passant_before: u64,
    side_before: u64,
    pieces: u64,
    rights_delta: u64,
    en_passant_after: u64,
    side_delta: u64,
)
    by (bit_vector)
    ensures
        ((((board_before ^ rights_before) ^ en_passant_before) ^ side_before) ^ (pieces ^ (((
        side_delta ^ en_passant_before) ^ en_passant_after) ^ rights_delta))) == (((board_before
            ^ pieces) ^ (rights_before ^ rights_delta)) ^ en_passant_after) ^ (side_before
            ^ side_delta),
{
}

/// The strings of the given castling rights, combined.
pub open spec fn rights_strings(types: Seq<CastlingType>, n: nat) -> u64
    decreases n,
{
    if n == 0 {
        0
    } else {
        rights_strings(types, (n - 1) as nat) ^ ZobristOracle::spec_castling_right_bitstring(
            types[n - 1],
        )
    }
}

/// The string of a right on which two sets of rights disagree, and zero
/// where they agree.
pub open spec fn right_delta(a: CastlingRights, b: CastlingRights, t: CastlingType) -> u64 {
    if a.spec_has(t) != b.spec_has(t) {
        ZobristOracle::spec_castling_right_bitstring(t)
    } else {
        0
    }
}

proof fn lemma_xor_four(a: u64, b: u64, c: u64, d: u64, w: u64, x: u64, y: u64, z: u64)
    by (bit_vector)
    ensures
        (a ^ w) ^ (b ^ x) ^ (c ^ y) ^ (d ^ z) == (a ^ b ^ c ^ d) ^ ((((0 ^ w) ^ x) ^ y) ^ z),
{
}

/// The hash of one set of castling rights is the hash of another,
/// combined with the strings of the rights on which they disagree.
#[verifier::rlimit(40)]
proof fn lemma_rights_hash_diff(a: CastlingRights, b: CastlingRights)
    ensures
        rights_hash(a) == rights_hash(b) ^ rights_strings(
            a.spec_diff_from(b),
            a.spec_diff_from(b).len(),
        ),
{
    let wk = CastlingType::WhiteKingSide;
    let wq = CastlingType::WhiteQueenSide;
    let bk = CastlingType::BlackKingSide;
    let bq = CastlingType::BlackQueenSide;
    let diff = a.spec_diff_from(b);
    let d1 = right_delta(a, b, wk);
    let d2 = right_delta(a, b, wq);
    let d3 = right_delta(a, b, bk);
    let d4 = right_delta(a, b, bq);
    lemma_xor_four(
        right_hash(b, wk),
        right_hash(b, wq),
        right_hash(b, bk),
        right_hash(b, bq),
        d1,
        d2,
        d3,
        d4,
    );
    lemma_xor_laws(ZobristOracle::spec_castling_right_bitstring(wk), 0, 0);
    lemma_xor_laws(ZobristOracle::spec_castling_right_bitstring(wq), 0, 0);
    lemma_xor_laws(ZobristOracle::spec_castling_right_bitstring(bk), 0, 0);
    lemma_xor_laws(ZobristOracle::spec_castling_right_bitstring(bq), 0, 0);
    lemma_xor_laws(0, 0, 0);
    assert(right_hash(a, wk) == right_hash(b, wk) ^ d1);
    assert(right_hash(a, wq) == right_hash(b, wq) ^ d2);
    assert(right_hash(a, bk) == right_hash(b, bk) ^ d3);
    assert(right_hash(a, bq) == right_hash(b, bq) ^ d4);
    let s1 = if a.spec_has(wk) != b.spec_has(wk) {
        seq![wk]
    } else {
        Seq::<CastlingType>::empty()
    };
    let s2 = if a.spec_has(wq) != b.spec_has(wq) {
        s1.push(wq)
    } else {
        s1
    };
    let s3 = if a.spec_has(bk) != b.spec_has(bk) {
        s2.push(bk)
    } else {
        s2
    };
    let s4 = if a.spec_has(bq) != b.spec_has(bq) {
        s3.push(bq)
    } else {
        s3
    };
    assert(diff =~= s4);
    lemma_rights_strings_push(s1, wk, a.spec_has(wk) != b.spec_has(wk), Seq::empty());
    lemma_rights_strings_push(s2, wq, a.spec_has(wq) != b.spec_has(wq), s1);
    lemma_rights_strings_push(s3, bk, a.spec_has(bk) != b.spec_has(bk), s2);
    lemma_rights_strings_push(s4, bq, a.spec_has(bq) != b.spec_has(bq), s3);
    assert(rights_strings(s1, s1.len()) == 0 ^ d1);
    assert(rights_strings(s4, s4.len()) == (((0 ^ d1) ^ d2) ^ d3) ^ d4);
}

proof fn lemma_rights_strings_prefix(longer: Seq<CastlingType>, shorter: Seq<CastlingType>, n: nat)
    requires
        n <= shorter.len() <= longer.len(),
        forall|i: int| 0 <= i < shorter.len() ==> longer[i] == shorter[i],
    ensures
        rights_strings(longer, n) == rights_strings(shorter, n),
    decreases n,
{
    if n > 0 {
        lemma_rights_strings_prefix(longer, shorter, (n - 1) as nat);
    }
}

proof fn lemma_rights_strings_push(
    next: Seq<CastlingType>,
    t: CastlingType,
    pushed: bool,
    before: Seq<CastlingType>,
)
    requires
        next == (if pushed {
            before.push(t)
        } else {
            before
        }),
    ensures
        rights_strings(next, next.len()) == rights_strings(before, before.len()) ^ (if pushed {
            ZobristOracle::spec_castling_right_bitstring(t)
        } else {
            0
        }),
{
    lemma_xor_laws(rights_strings(before, before.len()), 0, 0);
    if pushed {
        lemma_rights_strings_prefix(next, before, before.len());
    }
}

/// The distance between two coordinates.
fn distance(a: usize, b: usize) -> (r: usize)
    ensures
        r == abs_diff(a, b),
{
    if a >= b {
        a - b
    } else {
        b - a
    }
}

/// The string of the file of an en passant target, and zero without one.
pub open spec fn file_string(file: Option<usize>) -> u64 {
    match file {
        Some(file) => ZobristOracle::spec_en_passant_bitstring(file),
        None => 0,
    }
}

/// What a move changes in the hash beside the strings of the pieces that
/// it moves: the string for the side to move, the strings of the old and
/// the new en passant file, and the strings of the castling rights that
/// it removes.
pub open spec fn move_strings(
    previous_en_passant_file: Option<usize>,
    new_en_passant_file: Option<usize>,
    removed_castling_rights: Seq<CastlingType>,
) -> u64 {
    ((ZobristOracle::spec_black_to_move_bitstring() ^ file_string(previous_en_passant_file))
        ^ file_string(new_en_passant_file)) ^ rights_strings(
        removed_castling_rights,
        removed_castling_rights.len(),
    )
}

impl BoardState {
    /// Adds to the evaluation a gain of the side to move.
    pub fn increment_eval(&mut self, eval_increment: i32)
        requires
            eval_increment > i32::MIN,
            i32::MIN <= old(self).eval + seen_by(old(self).to_move, eval_increment as int)
                <= i32::MAX,
        ensures
            final(self).eval == old(self).eval + seen_by(old(self).to_move, eval_increment as int),
            *final(self) == (BoardState { eval: final(self).eval, ..*old(self) }),
    {
        proof {
            match self.to_move {
                PieceColor::White => assert(eval_increment * 1 == eval_increment),
                PieceColor::Black => assert(eval_increment * (-1) == -eval_increment),
            }
        }
        self.eval += eval_increment * self.to_move.signum()
    }

    /// The evaluation as the side to move sees it.
    pub fn pov_eval(&self) -> (r: i32)
        requires
            self.eval > i32::MIN,
        ensures
            r == seen_by(self.to_move, self.eval as int),
    {
        proof {
            match self.to_move {
                PieceColor::White => assert(self.eval * 1 == self.eval),
                PieceColor::Black => assert(self.eval * (-1) == -self.eval),
            }
        }
        self.eval * self.to_move.signum()
    }

    #[inline]
    fn update_king_position(&mut self, dest: ChessCell)
        ensures
            *final(self) == (match old(self).to_move {
                PieceColor::White => BoardState { white_king_location: dest, ..*old(self) },
                PieceColor::Black => BoardState { black_king_location: dest, ..*old(self) },
            }),
    {
        match self.to_move {
            PieceColor::White => self.white_king_location = dest,
            PieceColor::Black => self.black_king_location = dest,
        }
    }

    fn remove_from_bitboard(&mut self, square: ChessCell)
        requires
            square.on_board(),
        ensures
            final(self)@ == old(self)@.with_bitboard(
                old(self).to_move.spec_opposite(),
                old(self)@.bitboard_of(old(self).to_move.spec_opposite()).without(
                    square.spec_as_index(),
                ),
            ),
            final(self).entropy_stack == old(self).entropy_stack,
    {
        match self.to_move {
            PieceColor::White => self.black_bitboard.remove_piece(square.as_index()),
            PieceColor::Black => self.white_bitboard.remove_piece(square.as_index()),
        }
    }

    fn update_bitboards(&mut self, mov: ChessMove)
        requires
            mov.start.on_board(),
            mov.dest.on_board(),
        ensures
            final(self)@ == old(self)@.with_bitboard(
                old(self).to_move,
                old(self)@.bitboard_of(old(self).to_move).without(mov.start.spec_as_index()).with(
                    mov.dest.spec_as_index(),
                ),
            ).with_bitboard(
                old(self).to_move.spec_opposite(),
                old(self)@.bitboard_of(old(self).to_move.spec_opposite()).without(
                    mov.dest.spec_as_index(),
                ),
            ),
            final(self).entropy_stack == old(self).entropy_stack,
    {
        match self.to_move {
            PieceColor::White => {
                self.white_bitboard.remove_piece(mov.start.as_index());
                self.white_bitboard.add_piece(mov.dest.as_index());
                self.black_bitboard.remove_piece(mov.dest.as_index());
            },
            PieceColor::Black => {
                self.black_bitboard.remove_piece(mov.start.as_index());
                self.black_bitboard.add_piece(mov.dest.as_index());
                self.white_bitboard.remove_piece(mov.dest.as_index());
            },
        }
    }

    /// Takes the pawn that is captured en passant off the board, and adds
    /// its worth to the mover's gain.
    pub fn kill_en_passant_piece(&mut self, square: ChessCell, eval_increment: &mut i32)
        requires
            old(self)@.pieces_consistent(),
            square.on_board(),
            old(self)@.square(square).spec_is_color(old(self).to_move.spec_opposite()),
            i32::MIN + 20_140 <= *old(eval_increment) <= i32::MAX - 20_140,
        ensures
            final(self)@ == old(self)@.cleared(square),
            final(self)@.pieces_consistent(),
            *final(eval_increment) == *old(eval_increment) + seen_by(
                old(self).to_move,
                board_score(final(self)@.board) - board_score(old(self)@.board),
            ),
            final(self).entropy_stack == old(self).entropy_stack,
    {
        let ghost before = self@;
        let index = square.as_index();
        let trespasser = self.board.square(square).piece().unwrap();
        *eval_increment += evaluate_piece(trespasser, index);
        *self.board.square_mut(square) = Square::Empty;
        self.remove_from_bitboard(square);
        proof {
            before.lemma_cleared(square);
            lemma_score_put(before.board, square, Square::Empty, 64);
            assert(self@ =~= before.cleared(square));
        }
    }

    /// Moves the piece on the start of `mov` to its destination, or puts
    /// the piece promoted to there, and adds to the mover's gain what the
    /// move wins in material and placement. Returns the captured piece, if
    /// any.
    pub fn move_piece(&mut self, mov: ChessMove, eval_increment: &mut i32) -> (r: Option<Piece>)
        requires
            old(self)@.pieces_consistent(),
            mov.start.on_board(),
            mov.dest.on_board(),
            old(self)@.square(mov.start).spec_is_color(old(self).to_move),
            !old(self)@.square(mov.dest).spec_is_color(old(self).to_move),
            mov.promotion is Some ==> mov.promotion->Some_0.color == old(self).to_move,
            i32::MIN + 20_140 <= *old(eval_increment) <= i32::MAX - 20_140,
        ensures
            final(self)@ == old(self)@.relocated(mov.start, mov.dest, old(self)@.placed(mov)),
            final(self)@.pieces_consistent(),
            *final(eval_increment) == *old(eval_increment) + seen_by(
                old(self).to_move,
                board_score(final(self)@.board) - board_score(old(self)@.board),
            ),
            r == old(self)@.captured(mov),
            final(self).entropy_stack == old(self).entropy_stack,
    {
        let ghost before = self@;
        let start_index = mov.start.as_index();
        let dest_index = mov.dest.as_index();
        let moving_piece = self.board.square(mov.start).piece().unwrap();
        let captured_piece = self.board.square(mov.dest).piece();
        if let Some(captured_piece) = captured_piece {
            *eval_increment += evaluate_piece(captured_piece, dest_index);
        }
        *self.board.square_mut(mov.start) = Square::Empty;

        let ghost placed = before.placed(mov);
        if let Some(promoted_piece) = mov.promotion {
            *self.board.square_mut(mov.dest) = Square::Full(promoted_piece);
            *eval_increment += evaluate_piece(promoted_piece, dest_index) - evaluate_piece(
                moving_piece,
                start_index,
            );
        } else {
            *self.board.square_mut(mov.dest) = Square::Full(moving_piece);
            *eval_increment += positional_value_delta(moving_piece, mov);
        }
        self.update_bitboards(mov);
        proof {
            before.lemma_relocated(mov.start, mov.dest, placed);
            let middle = put(before.board, mov.start, Square::Empty);
            lemma_put(before.board, mov.start, Square::Empty);
            lemma_score_put(before.board, mov.start, Square::Empty, 64);
            lemma_score_put(middle, mov.dest, Square::Full(placed), 64);
            assert(square_at(middle, mov.dest) == before.square(mov.dest));
            crate::evaluation::lemma_positional_value_bounds(moving_piece, start_index);
            crate::evaluation::lemma_positional_value_bounds(moving_piece, dest_index);
            crate::evaluation::lemma_positional_value_bounds(placed, dest_index);
            if let Some(captured) = captured_piece {
                crate::evaluation::lemma_positional_value_bounds(captured, dest_index);
            }
            assert(board_score(self@.board) - board_score(before.board) == square_score(
                Square::Full(placed),
                dest_index,
            ) - square_score(before.square(mov.dest), dest_index) - square_score(
                Square::Full(moving_piece),
                start_index,
            ));
            assert(self@ =~= before.relocated(mov.start, mov.dest, placed));
        }
        captured_piece
    }

    /// Moves the rook of a castling move from its corner to the cell
    /// beside the king's destination.
    fn resolve_castling(&mut self, mov: ChessMove, eval_increment: &mut i32) -> (r: ChessMove)
        requires
            old(self)@.pieces_consistent(),
            mov.dest == castling_type_by_dest(mov.dest).king_dest(),
            old(self)@.square(castling_type_by_dest(mov.dest).rook_home()).spec_is_color(
                old(self).to_move,
            ),
            !old(self)@.square(castling_type_by_dest(mov.dest).rook_dest()).spec_is_color(
                old(self).to_move,
            ),
            i32::MIN + 20_140 <= *old(eval_increment) <= i32::MAX - 20_140,
        ensures
            r == (ChessMove {
                start: castling_type_by_dest(mov.dest).rook_home(),
                dest: castling_type_by_dest(mov.dest).rook_dest(),
                promotion: None,
            }),
            final(self)@ == old(self)@.relocated(
                r.start,
                r.dest,
                old(self)@.square(r.start)->Full_0,
            ),
            final(self)@.pieces_consistent(),
            *final(eval_increment) == *old(eval_increment) + seen_by(
                old(self).to_move,
                board_score(final(self)@.board) - board_score(old(self)@.board),
            ),
            final(self).entropy_stack == old(self).entropy_stack,
    {
        let (rook_start, rook_dest) = if mov.dest == g1() {
            (h1(), f1())
        } else if mov.dest == c1() {
            (a1(), d1())
        } else if mov.dest == g8() {
            (h8(), f8())
        } else {
            (a8(), d8())
        };
        let rook_move = ChessMove { start: rook_start, dest: rook_dest, promotion: None };
        self.move_piece(rook_move, eval_increment);
        rook_move
    }

    /// Brings the hash up to date with a move: with the strings of the
    /// pieces that it moved, and with what it changed beside the pieces.
    fn set_zobrist_key_from_move(
        &mut self,
        mov: ChessMove,
        moving_piece: Piece,
        captured_piece: Option<Piece>,
        rook_move: Option<ChessMove>,
        en_passant_victim: Option<ChessCell>,
        previous_en_passant_file: Option<usize>,
        new_en_passant_file: Option<usize>,
        removed_castling_rights: Vec<CastlingType>,
    )
        requires
            mov.start.on_board(),
            mov.dest.on_board(),
            rook_move is Some ==> rook_move->Some_0.start.on_board()
                && rook_move->Some_0.dest.on_board(),
            en_passant_victim is Some ==> en_passant_victim->Some_0.on_board(),
            previous_en_passant_file is Some ==> BOARD_START
                <= previous_en_passant_file->Some_0 <= BOARD_END,
            new_en_passant_file is Some ==> BOARD_START <= new_en_passant_file->Some_0
                <= BOARD_END,
        ensures
            final(self).zobrist_key == old(self).zobrist_key ^ (pieces_strings(
                mov,
                moving_piece,
                captured_piece,
                rook_move,
                en_passant_victim,
            ) ^ move_strings(
                previous_en_passant_file,
                new_en_passant_file,
                removed_castling_rights@,
            )),
            *final(self) == (BoardState { zobrist_key: final(self).zobrist_key, ..*old(self) }),
    {
        let placed = match mov.promotion {
            Some(promoted_piece) => promoted_piece,
            None => moving_piece,
        };
        let mut pieces: u64 = ZobristOracle::piece_bitstring(moving_piece, mov.start.as_index())
            ^ ZobristOracle::piece_bitstring(placed, mov.dest.as_index());
        proof {
            lemma_xor_laws(pieces, 0, 0);
        }
        if let Some(captured_piece) = captured_piece {
            pieces ^= ZobristOracle::piece_bitstring(captured_piece, mov.dest.as_index());
        }
        proof {
            lemma_xor_laws(pieces, 0, 0);
        }
        if let Some(rook_move) = rook_move {
            let rook = Piece::rook(moving_piece.color);
            pieces ^= ZobristOracle::piece_bitstring(rook, rook_move.start.as_index())
                ^ ZobristOracle::piece_bitstring(rook, rook_move.dest.as_index());
        }
        proof {
            lemma_xor_laws(pieces, 0, 0);
        }
        if let Some(victim) = en_passant_victim {
            pieces ^= ZobristOracle::piece_bitstring(
                Piece::pawn(moving_piece.color.opposite()),
                victim.as_index(),
            );
        }
        assert(pieces == pieces_strings(
            mov,
            moving_piece,
            captured_piece,
            rook_move,
            en_passant_victim,
        ));

        let mut incremented_zobrist_key: u64 = ZobristOracle::black_to_move_bitstring();
        proof {
            lemma_xor_laws(incremented_zobrist_key, 0, 0);
        }
        if let Some(old_file) = previous_en_passant_file {
            incremented_zobrist_key ^= ZobristOracle::en_passant_bitstring(old_file);
        }
        proof {
            lemma_xor_laws(incremented_zobrist_key, 0, 0);
        }
        if let Some(new_file) = new_en_passant_file {
            incremented_zobrist_key ^= ZobristOracle::en_passant_bitstring(new_file);
        }
        let ghost base = (ZobristOracle::spec_black_to_move_bitstring() ^ file_string(
            previous_en_passant_file,
        )) ^ file_string(new_en_passant_file);
        proof {
            lemma_xor_laws(base, 0, 0);
        }
        let mut index: usize = 0;
        while index < removed_castling_rights.len()
            invariant
                index <= removed_castling_rights.len(),
                incremented_zobrist_key == base ^ rights_strings(
                    removed_castling_rights@,
                    index as nat,
                ),
            decreases removed_castling_rights.len() - index,
        {
            let castling_right = removed_castling_rights[index];
            proof {
                lemma_xor_laws(
                    base,
                    rights_strings(removed_castling_rights@, index as nat),
                    ZobristOracle::spec_castling_right_bitstring(castling_right),
                );
            }
            incremented_zobrist_key ^= ZobristOracle::castling_right_bitstring(castling_right);
            index += 1;
        }
        self.zobrist_key ^= pieces ^ incremented_zobrist_key;
    }

    /// Moves the pieces that the move moves: the rook where the move is
    /// castling, the pawn captured en passant off the board, and the
    /// mover. Returns what the mover captures on its destination, what the
    /// mover's side gains in material and placement, the rook's move and
    /// the cell of the pawn captured en passant.
    fn move_pieces(&mut self, mov: ChessMove, moving_piece: Piece) -> (r: (
        Option<Piece>,
        i32,
        Option<ChessMove>,
        Option<ChessCell>,
    ))
        requires
            old(self)@.pieces_consistent(),
            old(self)@.en_passant_consistent(),
            old(self)@.permits(mov),
            moving_piece == old(self)@.mover(mov),
        ensures
            final(self)@ == old(self)@.pieces_after(mov),
            r.0 == old(self)@.captured(mov),
            r.1 == seen_by(
                old(self).to_move,
                board_score(final(self)@.board) - board_score(old(self)@.board),
            ),
            r.2 == old(self)@.rook_move(mov),
            r.3 == old(self)@.victim_cell(mov),
            final(self).entropy_stack == old(self).entropy_stack,
    {
        let ghost before = self@;
        let ghost castling_type = castling_type_by_dest(mov.dest);
        let start = mov.start;
        let dest = mov.dest;
        let mut eval_increment: i32 = 0;
        let mut rook_move: Option<ChessMove> = None;
        let mut en_passant_victim: Option<ChessCell> = None;
        proof {
            lemma_board_score_bounds(before.board, 64);
        }
        // A king that moves two files castles.
        if moving_piece.kind == PieceKind::King && distance(start.1, dest.1) == 2 {
            rook_move = Some(self.resolve_castling(mov, &mut eval_increment));
            proof {
                before.lemma_relocated(
                    castling_type.rook_home(),
                    castling_type.rook_dest(),
                    before.square(castling_type.rook_home())->Full_0,
                );
            }
        }
        let ghost castled = self@;
        proof {
            lemma_board_score_bounds(castled.board, 64);
            assert(castled.square(start) == before.square(start));
            assert(castled.square(dest) == before.square(dest));
        }
        if Some(dest) == self.en_passant && moving_piece.kind == PieceKind::Pawn && distance(
            start.1,
            dest.1,
        ) == 1 {
            let en_passant_capture = ChessCell(start.0, dest.1);
            proof {
                assert(castled == before);
                assert(en_passant_capture == before.en_passant_victim(dest));
            }
            self.kill_en_passant_piece(en_passant_capture, &mut eval_increment);
            en_passant_victim = Some(en_passant_capture);
            proof {
                before.lemma_cleared(en_passant_capture);
            }
        }
        let ghost taken = self@;
        proof {
            lemma_board_score_bounds(taken.board, 64);
            assert(taken.square(start) == before.square(start));
            assert(taken.square(dest) == before.square(dest));
            assert(taken.placed(mov) == before.placed(mov));
        }
        let captured_piece = self.move_piece(mov, &mut eval_increment);
        (captured_piece, eval_increment, rook_move, en_passant_victim)
    }

    /// Gives up the castling rights that a move of the given piece ends.
    fn revoke_castling_rights(&mut self, mov: ChessMove, moving_piece: Piece)
        ensures
            *final(self) == (BoardState {
                castling_rights: revoked(old(self).castling_rights, moving_piece, mov),
                ..*old(self)
            }),
    {
        if moving_piece.kind == PieceKind::King {
            self.castling_rights.remove_color_castling_rights(moving_piece.color);
        }
        // A rook that leaves its corner.
        if moving_piece.kind == PieceKind::Rook && CastlingType::is_rook_home(mov.start) {
            self.castling_rights.remove_castling_right(CastlingType::of_rook_home(mov.start))
        }
        // A rook that may be captured in its corner.
        if CastlingType::is_rook_home(mov.dest) {
            self.castling_rights.remove_castling_right(CastlingType::of_rook_home(mov.dest))
        }
    }

    /// Brings up to date what a move changes beside the pieces and the
    /// hash: the last move, the castling rights, the king's location, the
    /// en passant target, the evaluation and the side to move.
    #[verifier::rlimit(40)]
    fn settle(
        &mut self,
        mov: ChessMove,
        moving_piece: Piece,
        eval_increment: i32,
        Ghost(before): Ghost<Position>,
    )
        requires
            old(self)@ == before.pieces_after(mov),
            moving_piece == before.mover(mov),
            moving_piece.color == before.to_move,
            -1_000_000 <= before.eval <= 1_000_000,
            -1_000_000 <= board_score(before.pieces_after(mov).board) <= 1_000_000,
            before.eval == board_score(before.board),
            eval_increment == seen_by(
                before.to_move,
                board_score(before.pieces_after(mov).board) - board_score(before.board),
            ),
        ensures
            final(self)@ == (Position {
                zobrist_key: before.zobrist_key,
                ..before.apply_move(mov)
            }),
            final(self).entropy_stack == old(self).entropy_stack,
    {
        let start = mov.start;
        let dest = mov.dest;
        self.last_move = Some(mov);
        self.revoke_castling_rights(mov, moving_piece);
        if moving_piece.kind == PieceKind::King {
            self.update_king_position(dest);
        }
        self.en_passant = None;
        if moving_piece.kind == PieceKind::Pawn && distance(start.0, dest.0) == 2 {
            let ep_rank = self.to_move.en_passant_rank();
            let en_passant_square = ChessCell(ep_rank, dest.1);
            self.en_passant = Some(en_passant_square);
        }
        self.increment_eval(eval_increment);
        self.swap_to_move();
        proof {
            assert(self@ =~= (Position {
                zobrist_key: before.zobrist_key,
                ..before.apply_move(mov)
            }));
        }
    }

    /// Makes a move: moves the piece, and with it the rook where the move
    /// is castling; takes off the board what the move captures, be it on
    /// the destination or en passant; gives up the castling rights that
    /// the move ends; sets the en passant target; brings bitboards, king
    /// locations, evaluation and hash up to date; passes the turn; and
    /// opens the record of the new position.
    #[verifier::rlimit(40)]
    pub fn make_move(&mut self, mov: ChessMove)
        requires
            old(self).wf(),
            old(self)@.permits(mov),
        ensures
            final(self)@ == old(self)@.apply_move(mov),
            final(self).wf(),
            final(self).history() == old(self).history().push(
                final(self)@.entropy(old(self)@.captured(mov)),
            ),
            final(self)@.castling_rights.is_subset_of(old(self)@.castling_rights),
            final(self)@.undoable(final(self).history().last()),
            final(self)@.unmake(final(self).history().last(), old(self).history().last()) == old(
                self,
            )@,
    {
        let ghost before = self@;
        let ghost after = before.apply_move(mov);
        proof {
            before.lemma_apply_move_wf(mov);
            before.lemma_rights_after(mov);
            before.lemma_make_unmake(mov, old(self).history().last().last_capture);
            lemma_board_score_bounds(before.board, 64);
            lemma_board_score_bounds(after.board, 64);
        }
        // What the hash needs to know of the position before the move.
        let en_passant_file_before = match self.en_passant {
            Some(cell) => Some(cell.1),
            None => None,
        };
        let castling_rights_before = self.castling_rights;
        let moving_piece = self.board.square(mov.start).piece().unwrap();

        let (captured_piece, eval_increment, rook_move, en_passant_victim) = self.move_pieces(
            mov,
            moving_piece,
        );
        self.settle(mov, moving_piece, eval_increment, Ghost(before));

        let en_passant_file_after = match self.en_passant {
            Some(cell) => Some(cell.1),
            None => None,
        };
        let removed_castling_rights = self.castling_rights.diff_from(castling_rights_before);
        proof {
            if rook_move is Some {
                assert(before.is_castle(mov));
            }
            if en_passant_victim is Some {
                assert(en_passant_victim->Some_0 == before.en_passant_victim(mov.dest));
            }
        }
        self.set_zobrist_key_from_move(
            mov,
            moving_piece,
            captured_piece,
            rook_move,
            en_passant_victim,
            en_passant_file_before,
            en_passant_file_after,
            removed_castling_rights,
        );
        proof {
            lemma_key_after(before, mov, self.zobrist_key, removed_castling_rights@);
            assert(self@ =~= after);
        }
        self.open_record(mov, captured_piece);
    }

    /// Opens the record of the position that `mov` has led to.
    fn open_record(&mut self, mov: ChessMove, captured_piece: Option<Piece>)
        requires
            old(self).entropy_stack.wf(),
            old(self).last_move == Some(mov),
        ensures
            final(self)@ == old(self)@,
            final(self).history() == old(self).history().push(
                old(self)@.entropy(captured_piece),
            ),
            final(self).synced(),
    {
        self.entropy_stack.push(mov, captured_piece);
        let eval = self.eval;
        let castling_rights = self.castling_rights;
        let en_passant = self.en_passant;
        let zobrist_key = self.zobrist_key;
        let white_king_location = self.white_king_location;
        let black_king_location = self.black_king_location;
        let top = self.entropy_stack.top_mut();
        top.eval = eval;
        top.castling_rights = castling_rights;
        top.en_passant = en_passant;
        top.zobrist_key = zobrist_key;
        top.white_king_location = white_king_location;
        top.black_king_location = black_king_location;
        proof {
            assert(self.history() =~= old(self).history().push(old(self)@.entropy(captured_piece)));
        }
    }
}

impl BoardState {
    /// Whether the side to move has no legal move.
    pub fn is_terminal(&self) -> (r: bool)
        requires
            self@.wf(),
            self@.is_valid(),
        ensures
            r == (self@.legal_moves().len() == 0),
    {
        let moves = generate_moves(self);
        moves.len() == 0
    }

    /// The score of a position without a legal move, as the side to move
    /// sees it: half of the least `i32` where its king is attacked, which
    /// is mate, and zero where it is not, which is a draw.
    pub fn terminal_eval(&self) -> (r: i32)
        requires
            self@.pieces_consistent(),
            self@.king_location_of(self.to_move).on_board(),
        ensures
            r == self@.terminal_eval(),
    {
        if self.square_is_attacked(self.king_location_of(self.to_move), self.to_move.opposite()) {
            i32::MIN / 2
        } else {
            0
        }
    }

    /// How the game ended in a position without a legal move: the side
    /// that attacks the king of the side to move has won, and where that
    /// king is not attacked the game is drawn.
    pub fn get_game_winner(&self) -> (r: GameResult)
        requires
            self@.pieces_consistent(),
            self@.king_location_of(self.to_move).on_board(),
        ensures
            r == (if self@.in_check() {
                GameResult::Winner(self.to_move.spec_opposite())
            } else {
                GameResult::Draw
            }),
    {
        let potentially_mated_king = self.king_location_of(self.to_move);
        if self.square_is_attacked(potentially_mated_king, self.to_move.opposite()) {
            GameResult::Winner(self.to_move.opposite())
        } else {
            GameResult::Draw
        }
    }
}

proof fn lemma_xor_rights(a: u64, b: u64, c: u64, d: u64)
    by (bit_vector)
    ensures
        ((a ^ b) ^ c) ^ d == ((0 ^ a) ^ b) ^ ((0 ^ c) ^ d),
{
}

/// The hash of the castling rights is made of the strings of the rights
/// that White holds and of those that Black holds.
proof fn lemma_rights_hash_by_color(position: Position)
    ensures
        rights_hash(position.castling_rights) == rights_strings(
            position.available_castling_types(PieceColor::White),
            position.available_castling_types(PieceColor::White).len(),
        ) ^ rights_strings(
            position.available_castling_types(PieceColor::Black),
            position.available_castling_types(PieceColor::Black).len(),
        ),
{
    let rights = position.castling_rights;
    let wk = CastlingType::WhiteKingSide;
    let wq = CastlingType::WhiteQueenSide;
    let bk = CastlingType::BlackKingSide;
    let bq = CastlingType::BlackQueenSide;
    let none = Seq::<CastlingType>::empty();
    let w1 = if rights.spec_has(wk) {
        none.push(wk)
    } else {
        none
    };
    let w2 = if rights.spec_has(wq) {
        w1.push(wq)
    } else {
        w1
    };
    let b1 = if rights.spec_has(bk) {
        none.push(bk)
    } else {
        none
    };
    let b2 = if rights.spec_has(bq) {
        b1.push(bq)
    } else {
        b1
    };
    assert(position.available_castling_types(PieceColor::White) =~= w2);
    assert(position.available_castling_types(PieceColor::Black) =~= b2);
    lemma_rights_strings_push(w1, wk, rights.spec_has(wk), none);
    lemma_rights_strings_push(w2, wq, rights.spec_has(wq), w1);
    lemma_rights_strings_push(b1, bk, rights.spec_has(bk), none);
    lemma_rights_strings_push(b2, bq, rights.spec_has(bq), b1);
    lemma_xor_rights(
        right_hash(rights, wk),
        right_hash(rights, wq),
        right_hash(rights, bk),
        right_hash(rights, bq),
    );
}

/// No bit of the bitboards of an empty board is set, and the bitboards
/// with which a game starts hold the two ranks of each side.
proof fn lemma_starting_bits(index: u64)
    by (bit_vector)
    requires
        index < 64,
    ensures
        bit_is_set(0xFFFFu64, index) <==> index < 16,
        bit_is_set(0xFFFF_0000_0000_0000u64, index) <==> index >= 48,
        !bit_is_set(0u64, index),
{
}

impl BoardState {
    /// Combines the strings of the pieces of one colour.
    fn player_hash(&self, color: PieceColor) -> (r: u64)
        requires
            self@.pieces_consistent(),
        ensures
            r == player_hash_upto(self@.board, color, 64),
    {
        let ghost board = self@.board;
        let bitboard = match color {
            PieceColor::White => self.white_bitboard,
            PieceColor::Black => self.black_bitboard,
        };
        let mut key: u64 = 0;
        let mut index: usize = 0;
        while index < 64
            invariant
                index <= 64,
                board == self@.board,
                self@.pieces_consistent(),
                bitboard == self@.bitboard_of(color),
                key == player_hash_upto(board, color, index as nat),
            decreases 64 - index,
        {
            proof {
                lemma_index_round_trip(ChessCell(0, 0), index);
                assert(self@.bitboard_of(color).spec_contains(index) <==> self@.square(
                    ChessCell::spec_from_index(index),
                ).spec_is_color(color));
                lemma_xor_laws(key, 0, 0);
            }
            if bitboard.contains(index) {
                let piece_position = ChessCell::from_index(index);
                let piece = self.board.square(piece_position).piece().unwrap();
                key ^= ZobristOracle::piece_bitstring(piece, index);
            }
            index += 1;
        }
        key
    }

    /// Combines the strings of the castling rights that one colour holds.
    fn player_rights_hash(&self, color: PieceColor) -> (r: u64)
        ensures
            r == rights_strings(
                self@.available_castling_types(color),
                self@.available_castling_types(color).len(),
            ),
    {
        let types = self.available_castling_types(color);
        let mut key: u64 = 0;
        let mut index: usize = 0;
        while index < types.len()
            invariant
                index <= types.len(),
                key == rights_strings(types@, index as nat),
            decreases types.len() - index,
        {
            key ^= ZobristOracle::castling_right_bitstring(types[index]);
            index += 1;
        }
        key
    }

    /// Computes the hash of the position from nothing.
    fn set_zobrist_key_from_scratch(&mut self)
        requires
            old(self)@.pieces_consistent(),
            old(self).en_passant is Some ==> BOARD_START <= old(self).en_passant->Some_0.1
                <= BOARD_END,
        ensures
            final(self).zobrist_key == position_hash(
                old(self)@.board,
                old(self).castling_rights,
                old(self).en_passant,
                old(self).to_move,
            ),
            *final(self) == (BoardState { zobrist_key: final(self).zobrist_key, ..*old(self) }),
    {
        let mut zobrist_key: u64 = self.player_hash(PieceColor::White) ^ self.player_hash(
            PieceColor::Black,
        );
        proof {
            lemma_player_hashes(self@.board, 64);
            lemma_rights_hash_by_color(self@);
        }
        zobrist_key ^= self.player_rights_hash(PieceColor::White) ^ self.player_rights_hash(
            PieceColor::Black,
        );
        proof {
            lemma_xor_laws(zobrist_key, 0, 0);
        }
        if let Some(en_passant) = self.en_passant {
            let file = en_passant.1;
            zobrist_key ^= ZobristOracle::en_passant_bitstring(file);
        }
        proof {
            lemma_xor_laws(zobrist_key, 0, 0);
        }
        if self.to_move == PieceColor::Black {
            zobrist_key ^= ZobristOracle::black_to_move_bitstring();
        }
        self.zobrist_key = zobrist_key;
    }

    /// The grid of a board without pieces.
    pub open spec fn spec_empty_board() -> Seq<Square> {
        Seq::new(144, |i: int| empty_square(ChessCell((i / 12) as usize, (i % 12) as usize)))
    }

    /// A position on an empty board, White to move, with every castling
    /// right and without kings: the recorded king locations lie outside
    /// the grid. It serves to look at the moves of single pieces.
    pub fn empty_game() -> (r: BoardState)
        ensures
            r@.pieces_consistent(),
            forall|cell: ChessCell|
                cell.in_grid() ==> #[trigger] r@.square(cell) == empty_square(cell),
            r.to_move == PieceColor::White,
            r.white_bitboard == BitBoard(0),
            r.black_bitboard == BitBoard(0),
            r.white_king_location == ChessCell(100, 100),
            r.black_king_location == ChessCell(100, 100),
            r.last_move is None,
            r.en_passant is None,
            r.eval == 0,
            forall|t: CastlingType| r.castling_rights.spec_has(t),
            r.zobrist_key == 0,
            r.history() == seq![MoveEntropy::blank()],
    {
        let board = ChessBoard::empty();
        let r = BoardState {
            board,
            to_move: PieceColor::White,
            white_bitboard: BitBoard(0),
            black_bitboard: BitBoard(0),
            white_king_location: ChessCell(100, 100),
            black_king_location: ChessCell(100, 100),
            last_move: None,
            en_passant: None,
            eval: 0,
            castling_rights: CastlingRights::all_castling_rights(),
            zobrist_key: 0,
            entropy_stack: EntropyStack::new(),
        };
        proof {
            assert forall|cell: ChessCell| cell.in_grid() implies #[trigger] r@.square(cell)
                == empty_square(cell) by {
                assert(board.spec_square(cell) == empty_square(cell));
            }
            assert forall|index: usize, color: PieceColor| index < 64 implies (
            #[trigger] r@.bitboard_of(color).spec_contains(index) <==> r@.square(
                ChessCell::spec_from_index(index),
            ).spec_is_color(color)) by {
                lemma_starting_bits(index as u64);
                lemma_index_round_trip(ChessCell(0, 0), index);
                assert(r@.square(ChessCell::spec_from_index(index)) == empty_square(
                    ChessCell::spec_from_index(index),
                ));
            }
        }
        r
    }

    /// The position at the start of a game.
    pub fn new_game() -> (r: BoardState)
        ensures
            r.wf(),
            r@.is_valid(),
            forall|cell: ChessCell|
                cell.in_grid() ==> #[trigger] r@.square(cell) == opening_square(cell),
            r.to_move == PieceColor::White,
            r.white_bitboard == BitBoard(WHITE_STARTING_BITBOARD),
            r.black_bitboard == BitBoard(BLACK_STARTING_BITBOARD),
            r.white_king_location == ChessCell(RANK_1, E_FILE),
            r.black_king_location == ChessCell(RANK_8, E_FILE),
            r.last_move is None,
            r.en_passant is None,
            forall|t: CastlingType| r.castling_rights.spec_has(t),
            r.history() == seq![r@.entropy(None)],
    {
        let board = ChessBoard::new();
        let mut board_state = BoardState {
            board,
            to_move: PieceColor::White,
            white_bitboard: BitBoard(WHITE_STARTING_BITBOARD),
            black_bitboard: BitBoard(BLACK_STARTING_BITBOARD),
            white_king_location: e1(),
            black_king_location: e8(),
            last_move: None,
            en_passant: None,
            eval: 0,
            castling_rights: CastlingRights::all_castling_rights(),
            zobrist_key: 0,
            entropy_stack: EntropyStack::new(),
        };
        proof {
            assert forall|cell: ChessCell| cell.in_grid() implies #[trigger] board_state@.square(
                cell,
            ) == opening_square(cell) by {
                assert(board.spec_square(cell) == opening_square(cell));
            }
            assert forall|index: usize, color: PieceColor| index < 64 implies (
            #[trigger] board_state@.bitboard_of(color).spec_contains(index)
                <==> board_state@.square(ChessCell::spec_from_index(index)).spec_is_color(
                color,
            )) by {
                lemma_starting_bits(index as u64);
                lemma_index_round_trip(ChessCell(0, 0), index);
                assert(board_state@.square(ChessCell::spec_from_index(index)) == opening_square(
                    ChessCell::spec_from_index(index),
                ));
            }
        }
        let ghost placed = board_state@;
        board_state.eval = evaluate(&board_state);
        proof {
            placed.lemma_same_pieces(board_state@);
        }
        board_state.set_zobrist_key_from_scratch();
        let r = board_state.scratch();
        proof {
            assert forall|cell: ChessCell| cell.in_grid() implies #[trigger] r@.square(cell)
                == opening_square(cell) by {
                assert(board.spec_square(cell) == opening_square(cell));
            }
            placed.lemma_same_pieces(r@);
            assert(r@.kings_placed()) by {
                assert(r@.square(ChessCell(RANK_1, E_FILE)) == opening_square(
                    ChessCell(RANK_1, E_FILE),
                ));
                assert(r@.square(ChessCell(RANK_8, E_FILE)) == opening_square(
                    ChessCell(RANK_8, E_FILE),
                ));
            }
            assert(r@.castling_consistent()) by {
                assert forall|t: CastlingType| #[trigger]
                    r@.castling_rights.spec_has(t) implies r@.castling_pieces_home(t) by {
                    assert(r@.square(t.king_home()) == opening_square(t.king_home()));
                    assert(r@.square(t.rook_home()) == opening_square(t.rook_home()));
                }
            }
            r@.lemma_opening_is_valid();
        }
        r
    }
}

/// The bitboards of the pieces on the board: White's, then Black's.
pub fn get_bitboards(board: &ChessBoard) -> (r: (BitBoard, BitBoard))
    ensures
        forall|index: usize|
            index < 64 ==> (#[trigger] r.0.spec_contains(index) <==> board.spec_square(
                ChessCell::spec_from_index(index),
            ).spec_is_color(PieceColor::White)),
        forall|index: usize|
            index < 64 ==> (#[trigger] r.1.spec_contains(index) <==> board.spec_square(
                ChessCell::spec_from_index(index),
            ).spec_is_color(PieceColor::Black)),
{
    let mut white_bitboard = BitBoard(0);
    let mut black_bitboard = BitBoard(0);
    let mut position: usize = 0;
    proof {
        assert forall|index: usize| index < 64 implies !white_bitboard.spec_contains(index)
            && !black_bitboard.spec_contains(index) by {
            lemma_starting_bits(index as u64);
        }
    }
    while position < 64
        invariant
            position <= 64,
            forall|index: usize|
                index < 64 ==> (#[trigger] white_bitboard.spec_contains(index) <==> index
                    < position && board.spec_square(
                    ChessCell::spec_from_index(index),
                ).spec_is_color(PieceColor::White)),
            forall|index: usize|
                index < 64 ==> (#[trigger] black_bitboard.spec_contains(index) <==> index
                    < position && board.spec_square(
                    ChessCell::spec_from_index(index),
                ).spec_is_color(PieceColor::Black)),
        decreases 64 - position,
    {
        let cell = ChessCell::from_index(position);
        if let Square::Full(piece) = *board.square(cell) {
            match piece.color {
                PieceColor::White => white_bitboard.add_piece(position),
                PieceColor::Black => black_bitboard.add_piece(position),
            }
        }
        position += 1;
    }
    (white_bitboard, black_bitboard)
}

/// The locations of the two kings, White's first.
fn find_kings(board: &ChessBoard) -> (r: Result<(ChessCell, ChessCell), FenError>)
    ensures
        match r {
            Ok((white, black)) => last_king_upto(board@, PieceColor::White, 64) == Some(white)
                && last_king_upto(board@, PieceColor::Black, 64) == Some(black),
            Err(error) => error == FenError::MissingKing && (last_king_upto(
                board@,
                PieceColor::White,
                64,
            ) is None || last_king_upto(board@, PieceColor::Black, 64) is None),
        },
{
    let mut white_king_location: Option<ChessCell> = None;
    let mut black_king_location: Option<ChessCell> = None;
    let mut position: usize = 0;
    while position < 64
        invariant
            position <= 64,
            white_king_location == last_king_upto(board@, PieceColor::White, position as nat),
            black_king_location == last_king_upto(board@, PieceColor::Black, position as nat),
        decreases 64 - position,
    {
        let cell = ChessCell::from_index(position);
        let square = *board.square(cell);
        if let Square::Full(piece) = square {
            if piece.kind == PieceKind::King {
                match piece.color {
                    PieceColor::White => white_king_location = Some(cell),
                    PieceColor::Black => black_king_location = Some(cell),
                }
            }
        }
        position += 1;
    }
    if white_king_location.is_none() || black_king_location.is_none() {
        return Err(FenError::MissingKing);
    }
    Ok((white_king_location.unwrap(), black_king_location.unwrap()))
}

impl BoardState {
    /// Reads a position from its written form.
    ///
    /// In the position read, bitboards, king locations, evaluation and
    /// hash agree with the board. Whether the castling rights and the en
    /// passant target agree with it as well is not looked at here.
    pub fn from_fen(fen: &str) -> (r: Result<BoardState, FenError>)
        ensures
            match r {
                Ok(state) => {
                    &&& spec_from_fen(fen.spec_bytes()) is Ok
                    &&& state@.board == spec_from_fen(fen.spec_bytes())->Ok_0.board
                    &&& state.white_king_location == spec_from_fen(
                        fen.spec_bytes(),
                    )->Ok_0.white_king_location
                    &&& state.black_king_location == spec_from_fen(
                        fen.spec_bytes(),
                    )->Ok_0.black_king_location
                    &&& state.to_move == spec_from_fen(fen.spec_bytes())->Ok_0.to_move
                    &&& state.castling_rights == spec_from_fen(
                        fen.spec_bytes(),
                    )->Ok_0.castling_rights
                    &&& state.en_passant == spec_from_fen(fen.spec_bytes())->Ok_0.en_passant
                    &&& state.last_move is None
                    &&& state@.pieces_consistent()
                    &&& state@.kings_placed()
                    &&& state@.eval_consistent()
                    &&& state@.hash_consistent()
                    &&& state.history() == seq![state@.entropy(None)]
                    &&& state.wf() <==> state@.en_passant_consistent()
                        && state@.castling_consistent()
                },
                Err(error) => spec_from_fen(fen.spec_bytes()) == Err::<FenFields, FenError>(error),
            },
    {
        let fen_parts = fields_of(fen.as_bytes());
        if fen_parts.len() != 6 {
            return Err(FenError::FieldCount);
        }
        let board = match board_from_fen(fen_parts[0].as_slice()) {
            Ok(board) => board,
            Err(error) => {
                return Err(error);
            },
        };
        let (white_king_location, black_king_location) = match find_kings(&board) {
            Ok(kings) => kings,
            Err(error) => {
                return Err(error);
            },
        };
        let to_move = match to_move_from_fen(fen_parts[1].as_slice()) {
            Ok(to_move) => to_move,
            Err(error) => {
                return Err(error);
            },
        };
        let castling_rights = match castling_rights_from_fen(fen_parts[2].as_slice()) {
            Ok(castling_rights) => castling_rights,
            Err(error) => {
                return Err(error);
            },
        };
        let en_passant = match en_passant_square_from_fen(fen_parts[3].as_slice()) {
            Ok(en_passant) => en_passant,
            Err(error) => {
                return Err(error);
            },
        };
        let (white_bitboard, black_bitboard) = get_bitboards(&board);
        let mut board_state = BoardState {
            board,
            to_move,
            white_bitboard,
            black_bitboard,
            white_king_location,
            black_king_location,
            last_move: None,
            en_passant,
            eval: 0,
            castling_rights,
            zobrist_key: 0,
            entropy_stack: EntropyStack::new(),
        };
        let ghost placed = board_state@;
        proof {
            assert forall|index: usize, color: PieceColor| index < 64 implies (
            #[trigger] placed.bitboard_of(color).spec_contains(index) <==> placed.square(
                ChessCell::spec_from_index(index),
            ).spec_is_color(color)) by {
                assert(white_bitboard.spec_contains(index) <==> board.spec_square(
                    ChessCell::spec_from_index(index),
                ).spec_is_color(PieceColor::White));
                assert(black_bitboard.spec_contains(index) <==> board.spec_square(
                    ChessCell::spec_from_index(index),
                ).spec_is_color(PieceColor::Black));
            }
            lemma_last_king(board@, PieceColor::White, 64);
            lemma_last_king(board@, PieceColor::Black, 64);
            lemma_board_score_bounds(board@, 64);
        }
        let seen = evaluate(&board_state);
        proof {
            match to_move {
                PieceColor::White => assert(seen * 1 == seen),
                PieceColor::Black => assert(seen * (-1) == -seen),
            }
        }
        board_state.eval = seen * board_state.to_move.signum();
        proof {
            placed.lemma_same_pieces(board_state@);
        }
        board_state.set_zobrist_key_from_scratch();
        let r = board_state.scratch();
        proof {
            placed.lemma_same_pieces(r@);
            assert(r@.kings_placed()) by {
                assert forall|color: PieceColor|
                    (#[trigger] r@.king_location_of(color)).on_board() && r@.square(
                        r@.king_location_of(color),
                    ) == Square::Full(Piece { color, kind: PieceKind::King }) by {}
            }
        }
        Ok(r)
    }

    /// Whether castling rights and en passant target agree with the
    /// board: each right that is held finds its king and its rook at
    /// home, and an en passant target is an empty cell right behind an
    /// enemy pawn. A position read from its written form is ready for the
    /// generator and for `make_move` where this holds.
    pub fn special_moves_consistent(&self) -> (r: bool)
        ensures
            r == (self@.en_passant_consistent() && self@.castling_consistent()),
    {
        let en_passant_consistent = match self.en_passant {
            None => true,
            Some(target) => {
                if target.is_aether() {
                    false
                } else {
                    let victim = ChessCell(self.to_move.en_passant_attacking_rank(), target.1);
                    target.0 == self.to_move.opposite().en_passant_rank() && self.board.square(
                        target,
                    ).is_empty() && *self.board.square(victim) == Square::Full(
                        Piece::pawn(self.to_move.opposite()),
                    )
                }
            },
        };
        let castling_consistent = self.castling_pieces_home(CastlingType::WhiteKingSide)
            && self.castling_pieces_home(CastlingType::WhiteQueenSide)
            && self.castling_pieces_home(CastlingType::BlackKingSide)
            && self.castling_pieces_home(CastlingType::BlackQueenSide);
        proof {
            if castling_consistent {
                assert forall|castling_type: CastlingType| #[trigger]
                    self@.castling_rights.spec_has(
                        castling_type,
                    ) implies self@.castling_pieces_home(castling_type) by {}
            }
        }
        en_passant_consistent && castling_consistent
    }

    /// Whether the right to castle in the given way is not held, or king
    /// and rook stand where it needs them.
    fn castling_pieces_home(&self, castling_type: CastlingType) -> (r: bool)
        ensures
            r == (self@.castling_rights.spec_has(castling_type) ==> self@.castling_pieces_home(
                castling_type,
            )),
    {
        if !self.castling_rights.has(castling_type) {
            return true;
        }
        let (color, king_home, rook_home) = match castling_type {
            CastlingType::WhiteKingSide => (PieceColor::White, e1(), h1()),
            CastlingType::WhiteQueenSide => (PieceColor::White, e1(), a1()),
            CastlingType::BlackKingSide => (PieceColor::Black, e8(), h8()),
            CastlingType::BlackQueenSide => (PieceColor::Black, e8(), a8()),
        };
        self.king_location_of(color) == king_home && *self.board.square(king_home)
            == Square::Full(Piece::king(color)) && *self.board.square(rook_home) == Square::Full(
            Piece::rook(color),
        )
    }
}

/// The hash that a move leaves behind, once the strings of the pieces and
/// the strings of everything else have been worked in, is the hash of the
/// new position computed from nothing.
proof fn lemma_key_after(before: Position, mov: ChessMove, key: u64, removed: Seq<CastlingType>)
    requires
        before.wf(),
        before.permits(mov),
        removed == before.apply_move(mov).castling_rights.spec_diff_from(before.castling_rights),
        key == before.zobrist_key ^ (pieces_strings(
            mov,
            before.mover(mov),
            before.captured(mov),
            before.rook_move(mov),
            before.victim_cell(mov),
        ) ^ move_strings(
            match before.en_passant {
                Some(cell) => Some(cell.1),
                None => None,
            },
            match before.apply_move(mov).en_passant {
                Some(cell) => Some(cell.1),
                None => None,
            },
            removed,
        )),
    ensures
        key == before.apply_move(mov).zobrist_key,
{
    let after = before.apply_move(mov);
    before.lemma_board_hash_after(mov);
    lemma_rights_hash_diff(after.castling_rights, before.castling_rights);
    lemma_xor_laws(ZobristOracle::spec_black_to_move_bitstring(), 0, 0);
    lemma_xor_position(
        board_hash(before.board),
        rights_hash(before.castling_rights),
        en_passant_hash(before.en_passant),
        side_hash(before.to_move),
        pieces_strings(
            mov,
            before.mover(mov),
            before.captured(mov),
            before.rook_move(mov),
            before.victim_cell(mov),
        ),
        rights_strings(removed, removed.len()),
        en_passant_hash(after.en_passant),
        ZobristOracle::spec_black_to_move_bitstring(),
    );
}

} // verus!
