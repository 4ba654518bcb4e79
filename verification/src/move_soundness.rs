//! What holds of every move that the generator produces: where it starts
//! and ends, what it may capture, and that in a position which a legal
//! move has led to it may be made.

use vstd::prelude::*;
use crate::board_elements::{
    bit_is_set, CastlingType, ChessCell, ChessMove, Piece, PieceColor, PieceKind, Square,
};
use crate::board_state::BoardState;
use crate::chess_board::{back_rank_kind, empty_square, grid_wf, opening_square, square_at};
use crate::constants::{E_FILE, RANK_1, RANK_2, RANK_8};
use crate::move_generation::{
    jump_moves, pawn_steps, piece_moves, plain_move, promoted, promotions_of, ray, ray_moves,
    reaches_target, shift, spec_bishop_moves, spec_king_moves, spec_knight_moves, spec_pawn_moves,
    spec_queen_moves, spec_rook_moves,
};
use crate::position::{
    abs_diff, castling_type_by_dest, lemma_cells_of, lemma_index_round_trip, Position,
};
use crate::ray_attacks::{
    bishop_reach, destinations, king_reach, knight_reach, lemma_attack_mask, reaches, rook_reach,
    spec_attack_mask, white_pawn_reach,
};

verus! {

/// Whether `cell` lies ahead of `from` in the given direction: on the same
/// line, and on the side to which the direction points.
pub open spec fn ahead(from: ChessCell, cell: ChessCell, ranks: int, files: int) -> bool {
    &&& ranks == 1 ==> cell.0 > from.0
    &&& ranks == -1 ==> cell.0 < from.0
    &&& ranks == 0 ==> cell.0 == from.0
    &&& files == 1 ==> cell.1 > from.1
    &&& files == -1 ==> cell.1 < from.1
    &&& files == 0 ==> cell.1 == from.1
    &&& ranks != 0 && ranks == files ==> cell.0 - from.0 == cell.1 - from.1
    &&& ranks != 0 && ranks == -files ==> cell.0 - from.0 == from.1 - cell.1
}

/// Every move of a ray starts on `from`, is no promotion, and ends ahead
/// of `from` on a cell of the playing area that is empty or holds an enemy
/// piece.
pub proof fn lemma_ray_moves(
    board: Seq<Square>,
    color: PieceColor,
    from: ChessCell,
    at: ChessCell,
    ranks: int,
    files: int,
    steps: nat,
)
    requires
        grid_wf(board),
        from.on_board(),
        at.on_board(),
        -1 <= ranks <= 1,
        -1 <= files <= 1,
        ranks != 0 || files != 0,
        at == from || ahead(from, at, ranks, files),
    ensures
        forall|k: int|
            0 <= k < ray_moves(board, color, from, at, ranks, files, steps).len() ==> {
                let mov = #[trigger] ray_moves(board, color, from, at, ranks, files, steps)[k];
                &&& mov.start == from
                &&& mov.promotion is None
                &&& mov.dest.on_board()
                &&& ahead(from, mov.dest, ranks, files)
                &&& square_at(board, mov.dest).spec_is_empty_or_enemy_of(color)
            },
    decreases steps,
{
    if steps > 0 {
        let dest = shift(at, ranks, files);
        assert(dest.in_grid());
        assert(square_at(board, dest) is Aether <==> !dest.on_board());
        if square_at(board, dest) is Empty {
            lemma_ray_moves(board, color, from, dest, ranks, files, (steps - 1) as nat);
        }
    }
}

/// Every move of a jumping piece starts on `from`, is no promotion, and
/// ends on a cell of the mask that is empty or holds an enemy piece.
pub proof fn lemma_jump_moves(
    board: Seq<Square>,
    color: PieceColor,
    from: ChessCell,
    mask: u64,
    n: nat,
)
    requires
        n <= 64,
    ensures
        forall|k: int|
            0 <= k < jump_moves(board, color, from, mask, n).len() ==> {
                let mov = #[trigger] jump_moves(board, color, from, mask, n)[k];
                &&& mov.start == from
                &&& mov.promotion is None
                &&& mov.dest.on_board()
                &&& mov.dest.spec_as_index() < 64
                &&& bit_is_set(mask, mov.dest.spec_as_index() as u64)
                &&& square_at(board, mov.dest).spec_is_empty_or_enemy_of(color)
            },
    decreases n,
{
    if n > 0 {
        lemma_jump_moves(board, color, from, mask, (n - 1) as nat);
        lemma_index_round_trip(from, (n - 1) as usize);
    }
}

/// The promotions of a list of steps are the steps themselves, each with a
/// piece of the given colour to promote to.
pub proof fn lemma_promoted(moves: Seq<ChessMove>, color: PieceColor, n: nat)
    requires
        n <= moves.len(),
    ensures
        forall|k: int|
            0 <= k < promoted(moves, color, n).len() ==> {
                let mov = #[trigger] promoted(moves, color, n)[k];
                exists|i: int|
                    0 <= i < n && mov.start == moves[i].start && mov.dest == moves[i].dest
                        && mov.promotion is Some && mov.promotion->Some_0.color == color
            },
    decreases n,
{
    if n > 0 {
        lemma_promoted(moves, color, (n - 1) as nat);
        let rest = promoted(moves, color, (n - 1) as nat);
        let all = promoted(moves, color, n);
        assert forall|k: int| 0 <= k < all.len() implies {
            let mov = #[trigger] all[k];
            exists|i: int|
                0 <= i < n && mov.start == moves[i].start && mov.dest == moves[i].dest
                    && mov.promotion is Some && mov.promotion->Some_0.color == color
        } by {
            let mov = all[k];
            if k < rest.len() {
                assert(mov == rest[k]);
                let i = choose|i: int|
                    0 <= i < n - 1 && mov.start == moves[i].start && mov.dest == moves[i].dest
                        && mov.promotion is Some && mov.promotion->Some_0.color == color;
                assert(0 <= i < n);
            } else {
                assert(mov == promotions_of(moves[n - 1], color)[k - rest.len()]);
                assert(mov.start == moves[n - 1].start);
            }
        }
    }
}

/// What holds of a move of a pawn, by where it ends.
pub open spec fn pawn_move_shape(
    board: Seq<Square>,
    color: PieceColor,
    from: ChessCell,
    mov: ChessMove,
) -> bool {
    let forward = color.spec_signum() as int;
    &&& mov.start == from
    &&& mov.dest.on_board()
    &&& if mov.dest.1 != from.1 {
        &&& abs_diff(mov.dest.1, from.1) == 1
        &&& mov.dest.0 == from.0 + forward
        &&& square_at(board, mov.dest).spec_is_enemy_of(color)
    } else {
        &&& square_at(board, mov.dest) == Square::Empty
        &&& mov.dest.0 == from.0 + forward || {
            &&& mov.dest.0 == from.0 + 2 * forward
            &&& from.0 == color.spec_pawn_starting_rank()
            &&& square_at(board, shift(from, forward, 0)) == Square::Empty
        }
    }
    &&& match mov.promotion {
        Some(promoted) => promoted.color == color && from.0 == color.spec_promotion_rank(),
        None => true,
    }
}

/// Every move of a pawn has the shape of a pawn's move.
#[verifier::rlimit(40)]
pub proof fn lemma_pawn_moves(board: Seq<Square>, color: PieceColor, from: ChessCell, k: int)
    requires
        grid_wf(board),
        from.on_board(),
        0 <= k < spec_pawn_moves(board, color, from).len(),
    ensures
        pawn_move_shape(board, color, from, spec_pawn_moves(board, color, from)[k]),
{
    let steps = pawn_steps(board, color, from);
    let forward = color.spec_signum() as int;
    let left_cap = shift(from, forward, -1);
    let right_cap = shift(from, forward, 1);
    let one_forward = shift(from, forward, 0);
    let two_forward = shift(from, 2 * forward, 0);
    assert(left_cap.in_grid() && right_cap.in_grid() && one_forward.in_grid());
    assert(square_at(board, left_cap) is Aether <==> !left_cap.on_board());
    assert(square_at(board, right_cap) is Aether <==> !right_cap.on_board());
    assert(square_at(board, one_forward) is Aether <==> !one_forward.on_board());
    if from.0 == color.spec_pawn_starting_rank() {
        assert(two_forward.in_grid());
        assert(square_at(board, two_forward) is Aether <==> !two_forward.on_board());
    }
    assert forall|i: int| 0 <= i < steps.len() implies pawn_move_shape(
        board,
        color,
        from,
        #[trigger] steps[i],
    ) && steps[i].promotion is None by {}
    if from.0 == color.spec_promotion_rank() {
        lemma_promoted(steps, color, steps.len());
        let mov = promoted(steps, color, steps.len())[k];
        let i = choose|i: int|
            0 <= i < steps.len() && mov.start == steps[i].start && mov.dest == steps[i].dest
                && mov.promotion is Some && mov.promotion->Some_0.color == color;
        assert(pawn_move_shape(board, color, from, steps[i]));
    }
}

/// What holds of a move of a piece by the rules of its movement: it
/// starts on the piece's cell and ends elsewhere in the playing area, on a
/// cell that is empty or holds an enemy piece; only a pawn promotes; a
/// king moves one file at most; and the attack table of the piece holds
/// the destination, unless the move is a pawn's step onto an empty cell.
pub open spec fn piece_move_shape(
    board: Seq<Square>,
    piece: Piece,
    from: ChessCell,
    mov: ChessMove,
) -> bool {
    &&& mov.start == from
    &&& mov.dest.on_board()
    &&& mov.dest != from
    &&& square_at(board, mov.dest).spec_is_empty_or_enemy_of(piece.color)
    &&& mov.promotion is Some ==> piece.kind == PieceKind::Pawn
    &&& piece.kind == PieceKind::Pawn ==> pawn_move_shape(board, piece.color, from, mov)
    &&& piece.kind == PieceKind::King ==> abs_diff(mov.dest.1, from.1) <= 1
    &&& piece.kind != PieceKind::Pawn || square_at(board, mov.dest) is Full ==> bit_is_set(
        spec_attack_mask(piece, from.spec_as_index()),
        mov.dest.spec_as_index() as u64,
    )
}

#[verifier::rlimit(40)]
proof fn lemma_ray_shape(
    board: Seq<Square>,
    piece: Piece,
    from: ChessCell,
    ranks: int,
    files: int,
    k: int,
)
    requires
        grid_wf(board),
        from.on_board(),
        -1 <= ranks <= 1,
        -1 <= files <= 1,
        ranks != 0 || files != 0,
        piece.kind == PieceKind::Queen || (piece.kind == PieceKind::Rook && (ranks == 0 || files
            == 0)) || (piece.kind == PieceKind::Bishop && ranks != 0 && files != 0),
        0 <= k < ray(board, piece.color, from, ranks, files).len(),
    ensures
        piece_move_shape(board, piece, from, ray(board, piece.color, from, ranks, files)[k]),
{
    lemma_ray_moves(board, piece.color, from, from, ranks, files, 8);
    let mov = ray(board, piece.color, from, ranks, files)[k];
    let a = from.spec_as_index() as u64;
    let b = mov.dest.spec_as_index() as u64;
    lemma_attack_mask(piece, from.spec_as_index(), b);
    assert(ahead(from, mov.dest, ranks, files));
    assert(a / 8 == from.0 - 2 && a % 8 == from.1 - 2);
    assert(b / 8 == mov.dest.0 - 2 && b % 8 == mov.dest.1 - 2);
    if ranks == 0 || files == 0 {
        assert(rook_reach(a, b));
    } else {
        assert(bishop_reach(a, b));
    }
}

/// Splits an index into a concatenation of four lists.
proof fn lemma_four_parts<T>(a: Seq<T>, b: Seq<T>, c: Seq<T>, d: Seq<T>, k: int)
    requires
        0 <= k < (a + b + c + d).len(),
    ensures
        (a + b + c + d)[k] == (if k < a.len() {
            a[k]
        } else if k < a.len() + b.len() {
            b[k - a.len()]
        } else if k < a.len() + b.len() + c.len() {
            c[k - a.len() - b.len()]
        } else {
            d[k - a.len() - b.len() - c.len()]
        }),
{
}

proof fn lemma_bishop_shape(board: Seq<Square>, piece: Piece, from: ChessCell, k: int)
    requires
        grid_wf(board),
        from.on_board(),
        piece.kind == PieceKind::Bishop || piece.kind == PieceKind::Queen,
        0 <= k < spec_bishop_moves(board, piece.color, from).len(),
    ensures
        piece_move_shape(board, piece, from, spec_bishop_moves(board, piece.color, from)[k]),
{
    let a = ray(board, piece.color, from, -1, -1);
    let b = ray(board, piece.color, from, -1, 1);
    let c = ray(board, piece.color, from, 1, -1);
    let d = ray(board, piece.color, from, 1, 1);
    lemma_four_parts(a, b, c, d, k);
    if k < a.len() {
        lemma_ray_shape(board, piece, from, -1, -1, k);
    } else if k < a.len() + b.len() {
        lemma_ray_shape(board, piece, from, -1, 1, k - a.len());
    } else if k < a.len() + b.len() + c.len() {
        lemma_ray_shape(board, piece, from, 1, -1, k - a.len() - b.len());
    } else {
        lemma_ray_shape(board, piece, from, 1, 1, k - a.len() - b.len() - c.len());
    }
}

proof fn lemma_rook_shape(board: Seq<Square>, piece: Piece, from: ChessCell, k: int)
    requires
        grid_wf(board),
        from.on_board(),
        piece.kind == PieceKind::Rook || piece.kind == PieceKind::Queen,
        0 <= k < spec_rook_moves(board, piece.color, from).len(),
    ensures
        piece_move_shape(board, piece, from, spec_rook_moves(board, piece.color, from)[k]),
{
    let a = ray(board, piece.color, from, -1, 0);
    let b = ray(board, piece.color, from, 0, -1);
    let c = ray(board, piece.color, from, 0, 1);
    let d = ray(board, piece.color, from, 1, 0);
    lemma_four_parts(a, b, c, d, k);
    if k < a.len() {
        lemma_ray_shape(board, piece, from, -1, 0, k);
    } else if k < a.len() + b.len() {
        lemma_ray_shape(board, piece, from, 0, -1, k - a.len());
    } else if k < a.len() + b.len() + c.len() {
        lemma_ray_shape(board, piece, from, 0, 1, k - a.len() - b.len());
    } else {
        lemma_ray_shape(board, piece, from, 1, 0, k - a.len() - b.len() - c.len());
    }
}

proof fn lemma_jump_shape(board: Seq<Square>, piece: Piece, from: ChessCell, k: int)
    requires
        grid_wf(board),
        from.on_board(),
        piece.kind == PieceKind::Knight || piece.kind == PieceKind::King,
        0 <= k < piece_moves(board, piece, from).len(),
    ensures
        piece_move_shape(board, piece, from, piece_moves(board, piece, from)[k]),
{
    let mask = spec_attack_mask(piece, from.spec_as_index());
    assert(mask == spec_attack_mask(
        Piece { color: piece.color, kind: piece.kind },
        from.spec_as_index(),
    ));
    lemma_jump_moves(board, piece.color, from, mask, 64);
    let mov = piece_moves(board, piece, from)[k];
    assert(mov == jump_moves(board, piece.color, from, mask, 64)[k]);
    let a = from.spec_as_index() as u64;
    let b = mov.dest.spec_as_index() as u64;
    lemma_attack_mask(piece, from.spec_as_index(), b);
    assert(a / 8 == from.0 - 2 && a % 8 == from.1 - 2);
    assert(b / 8 == mov.dest.0 - 2 && b % 8 == mov.dest.1 - 2);
    assert(reaches(piece, a, b));
}

proof fn lemma_pawn_shape(board: Seq<Square>, piece: Piece, from: ChessCell, k: int)
    requires
        grid_wf(board),
        from.on_board(),
        piece.kind == PieceKind::Pawn,
        0 <= k < piece_moves(board, piece, from).len(),
    ensures
        piece_move_shape(board, piece, from, piece_moves(board, piece, from)[k]),
{
    lemma_pawn_moves(board, piece.color, from, k);
    let mov = piece_moves(board, piece, from)[k];
    let a = from.spec_as_index() as u64;
    let b = mov.dest.spec_as_index() as u64;
    lemma_attack_mask(piece, from.spec_as_index(), b);
    assert(a / 8 == from.0 - 2 && a % 8 == from.1 - 2);
    assert(b / 8 == mov.dest.0 - 2 && b % 8 == mov.dest.1 - 2);
}

/// Every move of a piece by the rules of its movement has the shape of
/// such a move.
pub proof fn lemma_piece_moves(board: Seq<Square>, piece: Piece, from: ChessCell, k: int)
    requires
        grid_wf(board),
        from.on_board(),
        0 <= k < piece_moves(board, piece, from).len(),
    ensures
        piece_move_shape(board, piece, from, piece_moves(board, piece, from)[k]),
{
    match piece.kind {
        PieceKind::Pawn => lemma_pawn_shape(board, piece, from, k),
        PieceKind::Knight => lemma_jump_shape(board, piece, from, k),
        PieceKind::King => lemma_jump_shape(board, piece, from, k),
        PieceKind::Bishop => lemma_bishop_shape(board, piece, from, k),
        PieceKind::Rook => lemma_rook_shape(board, piece, from, k),
        PieceKind::Queen => {
            let bishop = spec_bishop_moves(board, piece.color, from);
            if k < bishop.len() {
                lemma_bishop_shape(board, piece, from, k);
            } else {
                lemma_rook_shape(board, piece, from, k - bishop.len());
            }
        },
    }
}

impl Position {
    /// Every move of the pieces on the given cells is a move of one of
    /// those pieces.
    pub proof fn lemma_moves_of_pieces(self, cells: Seq<ChessCell>, n: nat, k: int)
        requires
            n <= cells.len(),
            0 <= k < self.moves_of_pieces(cells, n).len(),
        ensures
            exists|i: int, j: int|
                0 <= i < n && self.square(cells[i]) is Full && 0 <= j < piece_moves(
                    self.board,
                    self.square(cells[i])->Full_0,
                    cells[i],
                ).len() && self.moves_of_pieces(cells, n)[k] == #[trigger] piece_moves(
                    self.board,
                    self.square(cells[i])->Full_0,
                    cells[i],
                )[j],
        decreases n,
    {
        if n > 0 {
            let rest = self.moves_of_pieces(cells, (n - 1) as nat);
            if k < rest.len() {
                self.lemma_moves_of_pieces(cells, (n - 1) as nat, k);
                let (i, j) = choose|i: int, j: int|
                    0 <= i < n - 1 && self.square(cells[i]) is Full && 0 <= j < piece_moves(
                        self.board,
                        self.square(cells[i])->Full_0,
                        cells[i],
                    ).len() && rest[k] == #[trigger] piece_moves(
                        self.board,
                        self.square(cells[i])->Full_0,
                        cells[i],
                    )[j];
                assert(self.moves_of_pieces(cells, n)[k] == piece_moves(
                    self.board,
                    self.square(cells[i])->Full_0,
                    cells[i],
                )[j]);
            } else {
                let i = n - 1;
                let j = k - rest.len();
                assert(self.square(cells[i]) is Full);
                assert(self.moves_of_pieces(cells, n)[k] == piece_moves(
                    self.board,
                    self.square(cells[i])->Full_0,
                    cells[i],
                )[j]);
            }
        }
    }

    /// A piece on one of the given cells whose table holds the target is
    /// among the candidates.
    pub proof fn lemma_ray_attackers_member(
        self,
        target: ChessCell,
        cells: Seq<ChessCell>,
        n: nat,
        i: int,
    )
        requires
            0 <= i < n <= cells.len(),
            self.square(cells[i]) is Full,
            bit_is_set(
                spec_attack_mask(self.square(cells[i])->Full_0, cells[i].spec_as_index()),
                target.spec_as_index() as u64,
            ),
        ensures
            exists|k: int|
                0 <= k < self.ray_attackers_among(target, cells, n).len()
                    && #[trigger] self.ray_attackers_among(target, cells, n)[k] == (
                    self.square(cells[i])->Full_0,
                    cells[i],
                ),
        decreases n,
    {
        let all = self.ray_attackers_among(target, cells, n);
        if i < n - 1 {
            self.lemma_ray_attackers_member(target, cells, (n - 1) as nat, i);
            let rest = self.ray_attackers_among(target, cells, (n - 1) as nat);
            let k = choose|k: int|
                0 <= k < rest.len() && #[trigger] rest[k] == (
                    self.square(cells[i])->Full_0,
                    cells[i],
                );
            assert(all[k] == rest[k]);
        } else {
            assert(all[all.len() - 1] == (self.square(cells[i])->Full_0, cells[i]));
        }
    }

    /// A piece that has a move onto an occupied cell attacks that cell.
    pub proof fn lemma_capture_is_attack(self, from: ChessCell, j: int)
        requires
            self.pieces_consistent(),
            from.on_board(),
            self.square(from) is Full,
            0 <= j < piece_moves(self.board, self.square(from)->Full_0, from).len(),
            self.square(piece_moves(self.board, self.square(from)->Full_0, from)[j].dest) is Full,
        ensures
            self.square_is_attacked(
                piece_moves(self.board, self.square(from)->Full_0, from)[j].dest,
                self.square(from)->Full_0.color,
            ),
    {
        let piece = self.square(from)->Full_0;
        let moves = piece_moves(self.board, piece, from);
        let target = moves[j].dest;
        let cells = self.piece_positions(piece.color);
        lemma_piece_moves(self.board, piece, from, j);
        lemma_cells_of(self.bitboard_of(piece.color).0, 64);
        lemma_index_round_trip(from, 0);
        assert(self.bitboard_of(piece.color).spec_contains(from.spec_as_index()));
        assert(cells.contains(ChessCell::spec_from_index(from.spec_as_index())));
        let i = choose|i: int| 0 <= i < cells.len() && cells[i] == from;
        self.lemma_ray_attackers_member(target, cells, cells.len(), i);
        let candidates = self.ray_attackers(target, piece.color);
        let k = choose|k: int| 0 <= k < candidates.len() && #[trigger] candidates[k] == (piece, from);
        assert(reaches_target(piece_moves(self.board, candidates[k].0, candidates[k].1), target));
    }

    /// Every castling move of the given ways is the move of one of them
    /// that is open.
    pub proof fn lemma_castling_moves(self, types: Seq<CastlingType>, n: nat, k: int)
        requires
            n <= types.len(),
            0 <= k < self.castling_moves_among(types, n).len(),
        ensures
            exists|i: int|
                0 <= i < n && self.castling_open(types[i]) && self.castling_moves_among(types, n)[k]
                    == Position::castling_move(#[trigger] types[i]),
        decreases n,
    {
        if n > 0 {
            let rest = self.castling_moves_among(types, (n - 1) as nat);
            if k < rest.len() {
                self.lemma_castling_moves(types, (n - 1) as nat, k);
                let i = choose|i: int|
                    0 <= i < n - 1 && self.castling_open(types[i]) && rest[k]
                        == Position::castling_move(#[trigger] types[i]);
                assert(self.castling_moves_among(types, n)[k] == Position::castling_move(types[i]));
            } else {
                assert(self.castling_moves_among(types, n)[k] == Position::castling_move(
                    types[n - 1],
                ));
            }
        }
    }

    proof fn lemma_piece_move_permitted(self, from: ChessCell, j: int)
        requires
            self.wf(),
            self.is_valid(),
            from.on_board(),
            self.square(from) is Full,
            self.square(from)->Full_0.color == self.to_move,
            0 <= j < piece_moves(self.board, self.square(from)->Full_0, from).len(),
        ensures
            self.permits(piece_moves(self.board, self.square(from)->Full_0, from)[j]),
    {
        let piece = self.square(from)->Full_0;
        let mov = piece_moves(self.board, piece, from)[j];
        let enemy = self.to_move.spec_opposite();
        lemma_piece_moves(self.board, piece, from, j);
        assert(self.king_location_of(enemy).on_board());
        if mov.dest == self.king_location_of(enemy) {
            self.lemma_capture_is_attack(from, j);
        }
    }

    proof fn lemma_castling_move_permitted(self, castling_type: CastlingType)
        requires
            self.wf(),
            self.castling_rights.spec_has(castling_type),
            castling_type.color() == self.to_move,
            self.castling_open(castling_type),
        ensures
            self.permits(Position::castling_move(castling_type)),
    {
        let mov = Position::castling_move(castling_type);
        assert(self.castling_pieces_home(castling_type));
        assert(self.king_location_of(self.to_move.spec_opposite()).on_board());
        assert(castling_type_by_dest(mov.dest) == castling_type);
    }

    proof fn lemma_en_passant_move_permitted(self, k: int)
        requires
            self.wf(),
            0 <= k < self.en_passant_moves().len(),
        ensures
            self.permits(self.en_passant_moves()[k]),
    {
        let mov = self.en_passant_moves()[k];
        let target = self.en_passant->Some_0;
        let rank = self.to_move.spec_en_passant_attacking_rank();
        let left = ChessCell(rank, (target.1 - 1) as usize);
        let right = ChessCell(rank, (target.1 + 1) as usize);
        assert(self.king_location_of(self.to_move.spec_opposite()).on_board());
        assert(left.in_grid() && right.in_grid());
        assert(self.square(left) is Aether <==> !left.on_board());
        assert(self.square(right) is Aether <==> !right.on_board());
        assert(mov.dest == target);
        assert(mov.start == left || mov.start == right);
    }

    /// Every move that the generator produces in a position that a legal
    /// move has led to may be made.
    pub proof fn lemma_pseudo_move_permitted(self, k: int)
        requires
            self.wf(),
            self.is_valid(),
            0 <= k < self.pseudo_moves().len(),
        ensures
            self.permits(self.pseudo_moves()[k]),
    {
        let cells = self.piece_positions(self.to_move);
        let pieces = self.moves_of_pieces(cells, cells.len());
        let castling = self.castling_moves();
        let types = self.available_castling_types(self.to_move);
        if k < pieces.len() {
            self.lemma_moves_of_pieces(cells, cells.len(), k);
            let (i, j) = choose|i: int, j: int|
                0 <= i < cells.len() && self.square(cells[i]) is Full && 0 <= j < piece_moves(
                    self.board,
                    self.square(cells[i])->Full_0,
                    cells[i],
                ).len() && pieces[k] == #[trigger] piece_moves(
                    self.board,
                    self.square(cells[i])->Full_0,
                    cells[i],
                )[j];
            lemma_cells_of(self.bitboard_of(self.to_move).0, 64);
            let from = cells[i];
            lemma_index_round_trip(from, 0);
            assert(self.bitboard_of(self.to_move).spec_contains(from.spec_as_index()));
            self.lemma_piece_move_permitted(from, j);
        } else if k < pieces.len() + castling.len() {
            self.lemma_castling_moves(types, types.len(), k - pieces.len());
            let i = choose|i: int|
                0 <= i < types.len() && self.castling_open(types[i]) && castling[k - pieces.len()]
                    == Position::castling_move(#[trigger] types[i]);
            self.lemma_castling_move_permitted(types[i]);
        } else {
            self.lemma_en_passant_move_permitted(k - pieces.len() - castling.len());
        }
    }
}

impl Position {
    /// Whether the piece on `from` has a move onto `target` that is not a
    /// pawn's step forward.
    pub open spec fn takes_aim(self, from: ChessCell, target: ChessCell) -> bool {
        match self.square(from) {
            Square::Full(piece) => exists|k: int|
                0 <= k < piece_moves(self.board, piece, from).len() && (#[trigger] piece_moves(
                    self.board,
                    piece,
                    from,
                )[k]).dest == target && (piece.kind == PieceKind::Pawn ==> from.1 != target.1),
            _ => false,
        }
    }

    /// Every candidate stands on one of the given cells, and its table
    /// holds the target.
    pub proof fn lemma_ray_attackers_sound(
        self,
        target: ChessCell,
        cells: Seq<ChessCell>,
        n: nat,
        k: int,
    )
        requires
            n <= cells.len(),
            0 <= k < self.ray_attackers_among(target, cells, n).len(),
        ensures
            exists|i: int|
                0 <= i < n && #[trigger] cells[i] == self.ray_attackers_among(target, cells, n)[k].1
                    && self.square(cells[i]) == Square::Full(
                    self.ray_attackers_among(target, cells, n)[k].0,
                ) && bit_is_set(
                    spec_attack_mask(
                        self.ray_attackers_among(target, cells, n)[k].0,
                        cells[i].spec_as_index(),
                    ),
                    target.spec_as_index() as u64,
                ),
        decreases n,
    {
        if n > 0 {
            let rest = self.ray_attackers_among(target, cells, (n - 1) as nat);
            let all = self.ray_attackers_among(target, cells, n);
            if k < rest.len() {
                self.lemma_ray_attackers_sound(target, cells, (n - 1) as nat, k);
                let i = choose|i: int|
                    0 <= i < n - 1 && #[trigger] cells[i] == rest[k].1 && self.square(cells[i])
                        == Square::Full(rest[k].0) && bit_is_set(
                        spec_attack_mask(rest[k].0, cells[i].spec_as_index()),
                        target.spec_as_index() as u64,
                    );
                assert(all[k] == rest[k]);
                assert(cells[i] == all[k].1);
            } else {
                assert(cells[n - 1] == all[k].1);
            }
        }
    }

    /// What it means that a cell is attacked: a piece of the attacking
    /// colour has a move onto it, on the board as it is, that is not a
    /// pawn's step forward. The look into the attack tables only saves
    /// work: it never hides an attacker.
    #[verifier::rlimit(40)]
    pub proof fn lemma_attacked_directly(self, target: ChessCell, attacker: PieceColor)
        requires
            self.pieces_consistent(),
            target.on_board(),
        ensures
            self.square_is_attacked(target, attacker) <==> exists|from: ChessCell|
                from.on_board() && self.square(from).spec_is_color(attacker)
                    && #[trigger] self.takes_aim(from, target),
    {
        let cells = self.piece_positions(attacker);
        let candidates = self.ray_attackers(target, attacker);
        lemma_cells_of(self.bitboard_of(attacker).0, 64);
        if self.square_is_attacked(target, attacker) {
            let k = choose|k: int|
                0 <= k < candidates.len() && reaches_target(
                    #[trigger] piece_moves(self.board, candidates[k].0, candidates[k].1),
                    target,
                );
            self.lemma_ray_attackers_sound(target, cells, cells.len(), k);
            let i = choose|i: int|
                0 <= i < cells.len() && #[trigger] cells[i] == candidates[k].1 && self.square(
                    cells[i],
                ) == Square::Full(candidates[k].0) && bit_is_set(
                    spec_attack_mask(candidates[k].0, cells[i].spec_as_index()),
                    target.spec_as_index() as u64,
                );
            let from = cells[i];
            let piece = candidates[k].0;
            lemma_index_round_trip(from, 0);
            assert(self.bitboard_of(attacker).spec_contains(from.spec_as_index()));
            let moves = piece_moves(self.board, piece, from);
            let j = choose|j: int| 0 <= j < moves.len() && (#[trigger] moves[j]).dest == target;
            if piece.kind == PieceKind::Pawn {
                let a = from.spec_as_index() as u64;
                let b = target.spec_as_index() as u64;
                lemma_attack_mask(piece, from.spec_as_index(), b);
                assert(a / 8 == from.0 - 2 && a % 8 == from.1 - 2);
                assert(b / 8 == target.0 - 2 && b % 8 == target.1 - 2);
            }
            assert(self.takes_aim(from, target));
        }
        if exists|from: ChessCell|
            from.on_board() && self.square(from).spec_is_color(attacker)
                && #[trigger] self.takes_aim(from, target) {
            let from = choose|from: ChessCell|
                from.on_board() && self.square(from).spec_is_color(attacker)
                    && #[trigger] self.takes_aim(from, target);
            let piece = self.square(from)->Full_0;
            let moves = piece_moves(self.board, piece, from);
            let j = choose|j: int|
                0 <= j < moves.len() && (#[trigger] moves[j]).dest == target && (piece.kind
                    == PieceKind::Pawn ==> from.1 != target.1);
            lemma_piece_moves(self.board, piece, from, j);
            lemma_index_round_trip(from, 0);
            assert(self.bitboard_of(attacker).spec_contains(from.spec_as_index()));
            assert(cells.contains(ChessCell::spec_from_index(from.spec_as_index())));
            let i = choose|i: int| 0 <= i < cells.len() && cells[i] == from;
            self.lemma_ray_attackers_member(target, cells, cells.len(), i);
            let k = choose|k: int|
                0 <= k < candidates.len() && #[trigger] candidates[k] == (piece, from);
            assert(reaches_target(piece_moves(self.board, candidates[k].0, candidates[k].1), target));
        }
    }
}

/// Whether `dest` is reached from the cell after `at` by at most `steps`
/// steps in one direction over empty cells: every cell before `dest` is
/// empty.
pub open spec fn clear_path(
    board: Seq<Square>,
    at: ChessCell,
    dest: ChessCell,
    ranks: int,
    files: int,
    steps: nat,
) -> bool
    decreases steps,
{
    if steps == 0 {
        false
    } else {
        let next = shift(at, ranks, files);
        next == dest || (square_at(board, next) == Square::Empty && clear_path(
            board,
            next,
            dest,
            ranks,
            files,
            (steps - 1) as nat,
        ))
    }
}

/// A list of moves put behind another reaches a cell where one of the two
/// lists reaches it.
pub proof fn lemma_reaches_either(first: Seq<ChessMove>, second: Seq<ChessMove>, target: ChessCell)
    ensures
        reaches_target(first + second, target) <==> reaches_target(first, target)
            || reaches_target(second, target),
{
    let both = first + second;
    if reaches_target(both, target) {
        let k = choose|k: int| 0 <= k < both.len() && (#[trigger] both[k]).dest == target;
        if k < first.len() {
            assert(first[k].dest == target);
        } else {
            assert(second[k - first.len()].dest == target);
        }
    }
    if reaches_target(first, target) {
        let k = choose|k: int| 0 <= k < first.len() && (#[trigger] first[k]).dest == target;
        assert(both[k].dest == target);
    }
    if reaches_target(second, target) {
        let k = choose|k: int| 0 <= k < second.len() && (#[trigger] second[k]).dest == target;
        assert(both[k + first.len()].dest == target);
    }
}

/// The rule of the sliding pieces: a ray holds a move onto a cell exactly
/// where the cell is empty or holds an enemy piece and every cell on the
/// way to it is empty.
pub proof fn lemma_ray_rule(
    board: Seq<Square>,
    color: PieceColor,
    from: ChessCell,
    at: ChessCell,
    ranks: int,
    files: int,
    steps: nat,
    dest: ChessCell,
)
    ensures
        reaches_target(ray_moves(board, color, from, at, ranks, files, steps), dest) <==> clear_path(
            board,
            at,
            dest,
            ranks,
            files,
            steps,
        ) && square_at(board, dest).spec_is_empty_or_enemy_of(color),
    decreases steps,
{
    let moves = ray_moves(board, color, from, at, ranks, files, steps);
    if steps > 0 {
        let next = shift(at, ranks, files);
        let rest = ray_moves(board, color, from, next, ranks, files, (steps - 1) as nat);
        lemma_ray_rule(board, color, from, next, ranks, files, (steps - 1) as nat, dest);
        let here = seq![plain_move(from, next)];
        assert(reaches_target(here, dest) <==> next == dest) by {
            if next == dest {
                assert(here[0].dest == dest);
            }
        }
        match square_at(board, next) {
            Square::Aether => {},
            Square::Empty => {
                lemma_reaches_either(here, rest, dest);
            },
            Square::Full(piece) => {},
        }
    }
}

/// The rule of the jumping pieces: the moves hold a move onto a cell
/// exactly where the cell belongs to the mask and is empty or holds an
/// enemy piece.
pub proof fn lemma_jump_rule(
    board: Seq<Square>,
    color: PieceColor,
    from: ChessCell,
    mask: u64,
    n: nat,
    dest: ChessCell,
)
    requires
        n <= 64,
    ensures
        reaches_target(jump_moves(board, color, from, mask, n), dest) <==> dest.on_board()
            && dest.spec_as_index() < n && bit_is_set(mask, dest.spec_as_index() as u64)
            && square_at(board, dest).spec_is_empty_or_enemy_of(color),
    decreases n,
{
    let moves = jump_moves(board, color, from, mask, n);
    if n > 0 {
        let rest = jump_moves(board, color, from, mask, (n - 1) as nat);
        let target = ChessCell::spec_from_index((n - 1) as usize);
        lemma_jump_rule(board, color, from, mask, (n - 1) as nat, dest);
        lemma_index_round_trip(dest, (n - 1) as usize);
        if bit_is_set(mask, (n - 1) as u64) && square_at(board, target).spec_is_empty_or_enemy_of(
            color,
        ) {
            assert(moves == rest + seq![plain_move(from, target)]) by {
                assert(moves =~= rest + seq![plain_move(from, target)]);
            }
            lemma_reaches_either(rest, seq![plain_move(from, target)], dest);
            let here = seq![plain_move(from, target)];
            assert(reaches_target(here, dest) <==> target == dest) by {
                if target == dest {
                    assert(here[0].dest == dest);
                }
            }
        }
    }
}

/// The rule of the knight: a knight moves onto a cell exactly where the
/// cell is a knight's jump away and is empty or holds an enemy piece.
pub proof fn lemma_knight_rule(
    board: Seq<Square>,
    color: PieceColor,
    from: ChessCell,
    dest: ChessCell,
)
    requires
        from.on_board(),
    ensures
        reaches_target(spec_knight_moves(board, color, from), dest) <==> dest.on_board()
            && knight_reach(from.spec_as_index() as u64, dest.spec_as_index() as u64) && square_at(
            board,
            dest,
        ).spec_is_empty_or_enemy_of(color),
{
    let piece = Piece { color, kind: PieceKind::Knight };
    lemma_jump_rule(board, color, from, spec_attack_mask(piece, from.spec_as_index()), 64, dest);
    if dest.on_board() {
        lemma_attack_mask(piece, from.spec_as_index(), dest.spec_as_index() as u64);
    }
}

/// The rule of the king, castling apart: a king moves onto a cell
/// exactly where the cell is next to it and is empty or holds an enemy
/// piece.
pub proof fn lemma_king_rule(
    board: Seq<Square>,
    color: PieceColor,
    from: ChessCell,
    dest: ChessCell,
)
    requires
        from.on_board(),
    ensures
        reaches_target(spec_king_moves(board, color, from), dest) <==> dest.on_board()
            && king_reach(from.spec_as_index() as u64, dest.spec_as_index() as u64) && square_at(
            board,
            dest,
        ).spec_is_empty_or_enemy_of(color),
{
    let piece = Piece { color, kind: PieceKind::King };
    lemma_jump_rule(board, color, from, spec_attack_mask(piece, from.spec_as_index()), 64, dest);
    if dest.on_board() {
        lemma_attack_mask(piece, from.spec_as_index(), dest.spec_as_index() as u64);
    }
}

/// The rule of the bishop: a bishop moves onto a cell exactly where the
/// cell is empty or holds an enemy piece and is reached along one of the
/// four diagonals over empty cells.
pub proof fn lemma_bishop_rule(
    board: Seq<Square>,
    color: PieceColor,
    from: ChessCell,
    dest: ChessCell,
)
    ensures
        reaches_target(spec_bishop_moves(board, color, from), dest) <==> square_at(
            board,
            dest,
        ).spec_is_empty_or_enemy_of(color) && (clear_path(board, from, dest, -1, -1, 8)
            || clear_path(board, from, dest, -1, 1, 8) || clear_path(board, from, dest, 1, -1, 8)
            || clear_path(board, from, dest, 1, 1, 8)),
{
    let a = ray(board, color, from, -1, -1);
    let b = ray(board, color, from, -1, 1);
    let c = ray(board, color, from, 1, -1);
    let d = ray(board, color, from, 1, 1);
    lemma_ray_rule(board, color, from, from, -1, -1, 8, dest);
    lemma_ray_rule(board, color, from, from, -1, 1, 8, dest);
    lemma_ray_rule(board, color, from, from, 1, -1, 8, dest);
    lemma_ray_rule(board, color, from, from, 1, 1, 8, dest);
    lemma_reaches_either(a, b, dest);
    lemma_reaches_either(a + b, c, dest);
    lemma_reaches_either(a + b + c, d, dest);
}

/// The rule of the rook: a rook moves onto a cell exactly where the cell
/// is empty or holds an enemy piece and is reached along the rank or the
/// file over empty cells.
pub proof fn lemma_rook_rule(
    board: Seq<Square>,
    color: PieceColor,
    from: ChessCell,
    dest: ChessCell,
)
    ensures
        reaches_target(spec_rook_moves(board, color, from), dest) <==> square_at(
            board,
            dest,
        ).spec_is_empty_or_enemy_of(color) && (clear_path(board, from, dest, -1, 0, 8)
            || clear_path(board, from, dest, 0, -1, 8) || clear_path(board, from, dest, 0, 1, 8)
            || clear_path(board, from, dest, 1, 0, 8)),
{
    let a = ray(board, color, from, -1, 0);
    let b = ray(board, color, from, 0, -1);
    let c = ray(board, color, from, 0, 1);
    let d = ray(board, color, from, 1, 0);
    lemma_ray_rule(board, color, from, from, -1, 0, 8, dest);
    lemma_ray_rule(board, color, from, from, 0, -1, 8, dest);
    lemma_ray_rule(board, color, from, from, 0, 1, 8, dest);
    lemma_ray_rule(board, color, from, from, 1, 0, 8, dest);
    lemma_reaches_either(a, b, dest);
    lemma_reaches_either(a + b, c, dest);
    lemma_reaches_either(a + b + c, d, dest);
}

/// The rule of the queen: a queen moves where a bishop or a rook would.
pub proof fn lemma_queen_rule(
    board: Seq<Square>,
    color: PieceColor,
    from: ChessCell,
    dest: ChessCell,
)
    ensures
        reaches_target(spec_queen_moves(board, color, from), dest) <==> reaches_target(
            spec_bishop_moves(board, color, from),
            dest,
        ) || reaches_target(spec_rook_moves(board, color, from), dest),
{
    lemma_reaches_either(
        spec_bishop_moves(board, color, from),
        spec_rook_moves(board, color, from),
        dest,
    );
}

/// How many steps of a king lie between two cells.
pub open spec fn distance(a: ChessCell, b: ChessCell) -> int {
    if abs_diff(a.0, b.0) >= abs_diff(a.1, b.1) {
        abs_diff(a.0, b.0)
    } else {
        abs_diff(a.1, b.1)
    }
}

/// What a cell of the grid holds on a board without pieces.
proof fn lemma_empty_board_square(cell: ChessCell)
    requires
        cell.in_grid(),
    ensures
        square_at(BoardState::spec_empty_board(), cell) == empty_square(cell),
{
    let index = cell.grid_index();
    assert(index / 12 == cell.0 && index % 12 == cell.1);
}

/// One step towards a cell that lies ahead leads to a cell from which it
/// still lies ahead, one step nearer, and the other way round.
proof fn lemma_step_ahead(at: ChessCell, dest: ChessCell, ranks: int, files: int)
    requires
        at.on_board(),
        dest.on_board(),
        -1 <= ranks <= 1,
        -1 <= files <= 1,
        ranks != 0 || files != 0,
        shift(at, ranks, files) != dest,
    ensures
        ahead(at, dest, ranks, files) ==> shift(at, ranks, files).on_board() && ahead(
            shift(at, ranks, files),
            dest,
            ranks,
            files,
        ) && distance(shift(at, ranks, files), dest) == distance(at, dest) - 1,
        shift(at, ranks, files).on_board() && ahead(shift(at, ranks, files), dest, ranks, files)
            ==> ahead(at, dest, ranks, files) && distance(at, dest) == distance(
            shift(at, ranks, files),
            dest,
        ) + 1,
{
}

/// On a board without pieces the way to a cell of the playing area is
/// clear exactly where the cell lies ahead and not too far.
#[verifier::rlimit(40)]
proof fn lemma_clear_path_on_empty_board(
    at: ChessCell,
    dest: ChessCell,
    ranks: int,
    files: int,
    steps: nat,
)
    requires
        at.on_board(),
        dest.on_board(),
        -1 <= ranks <= 1,
        -1 <= files <= 1,
        ranks != 0 || files != 0,
    ensures
        clear_path(BoardState::spec_empty_board(), at, dest, ranks, files, steps) <==> ahead(
            at,
            dest,
            ranks,
            files,
        ) && distance(at, dest) <= steps,
    decreases steps,
{
    let board = BoardState::spec_empty_board();
    if steps > 0 {
        let next = shift(at, ranks, files);
        lemma_empty_board_square(next);
        if next == dest {
            assert(ahead(at, dest, ranks, files));
            assert(distance(at, dest) == 1);
        } else {
            lemma_step_ahead(at, dest, ranks, files);
            if next.on_board() {
                lemma_clear_path_on_empty_board(next, dest, ranks, files, (steps - 1) as nat);
            }
        }
    } else {
        if ahead(at, dest, ranks, files) {
            assert(distance(at, dest) >= 1);
        }
    }
}

/// Two cells of the playing area share a rank or a file exactly where
/// one lies ahead of the other in one of the four directions of a rook,
/// and they share a diagonal exactly where one lies ahead of the other in
/// one of the four directions of a bishop. They are less than eight steps
/// apart.
proof fn lemma_lines(from: ChessCell, dest: ChessCell)
    requires
        from.on_board(),
        dest.on_board(),
    ensures
        rook_reach(from.spec_as_index() as u64, dest.spec_as_index() as u64) <==> ahead(
            from,
            dest,
            -1,
            0,
        ) || ahead(from, dest, 0, -1) || ahead(from, dest, 0, 1) || ahead(from, dest, 1, 0),
        bishop_reach(from.spec_as_index() as u64, dest.spec_as_index() as u64) <==> ahead(
            from,
            dest,
            -1,
            -1,
        ) || ahead(from, dest, -1, 1) || ahead(from, dest, 1, -1) || ahead(from, dest, 1, 1),
        distance(from, dest) <= 8,
{
    let a = from.spec_as_index() as u64;
    let b = dest.spec_as_index() as u64;
    assert(a / 8 == from.0 - 2 && a % 8 == from.1 - 2);
    assert(b / 8 == dest.0 - 2 && b % 8 == dest.1 - 2);
}

proof fn lemma_rook_on_empty_board(color: PieceColor, from: ChessCell, dest: ChessCell)
    requires
        from.on_board(),
        dest.on_board(),
    ensures
        reaches_target(spec_rook_moves(BoardState::spec_empty_board(), color, from), dest)
            <==> rook_reach(from.spec_as_index() as u64, dest.spec_as_index() as u64),
{
    let board = BoardState::spec_empty_board();
    lemma_empty_board_square(dest);
    lemma_lines(from, dest);
    lemma_clear_path_on_empty_board(from, dest, -1, 0, 8);
    lemma_clear_path_on_empty_board(from, dest, 0, -1, 8);
    lemma_clear_path_on_empty_board(from, dest, 0, 1, 8);
    lemma_clear_path_on_empty_board(from, dest, 1, 0, 8);
    lemma_rook_rule(board, color, from, dest);
}

proof fn lemma_bishop_on_empty_board(color: PieceColor, from: ChessCell, dest: ChessCell)
    requires
        from.on_board(),
        dest.on_board(),
    ensures
        reaches_target(spec_bishop_moves(BoardState::spec_empty_board(), color, from), dest)
            <==> bishop_reach(from.spec_as_index() as u64, dest.spec_as_index() as u64),
{
    let board = BoardState::spec_empty_board();
    lemma_empty_board_square(dest);
    lemma_lines(from, dest);
    lemma_clear_path_on_empty_board(from, dest, -1, -1, 8);
    lemma_clear_path_on_empty_board(from, dest, -1, 1, 8);
    lemma_clear_path_on_empty_board(from, dest, 1, -1, 8);
    lemma_clear_path_on_empty_board(from, dest, 1, 1, 8);
    lemma_bishop_rule(board, color, from, dest);
}

/// On a board without pieces a knight, bishop, rook, queen or king moves
/// onto a cell of the playing area exactly where its attack table holds
/// the cell.
pub proof fn lemma_reach_on_empty_board(piece: Piece, from: ChessCell, dest: ChessCell)
    requires
        piece.kind != PieceKind::Pawn,
        from.on_board(),
        dest.on_board(),
    ensures
        reaches_target(piece_moves(BoardState::spec_empty_board(), piece, from), dest)
            <==> bit_is_set(
            spec_attack_mask(piece, from.spec_as_index()),
            dest.spec_as_index() as u64,
        ),
{
    let board = BoardState::spec_empty_board();
    let color = piece.color;
    lemma_attack_mask(piece, from.spec_as_index(), dest.spec_as_index() as u64);
    lemma_empty_board_square(dest);
    match piece.kind {
        PieceKind::Pawn => {},
        PieceKind::Knight => {
            lemma_knight_rule(board, color, from, dest);
        },
        PieceKind::King => {
            lemma_king_rule(board, color, from, dest);
        },
        PieceKind::Bishop => {
            lemma_bishop_on_empty_board(color, from, dest);
        },
        PieceKind::Rook => {
            lemma_rook_on_empty_board(color, from, dest);
        },
        PieceKind::Queen => {
            lemma_bishop_on_empty_board(color, from, dest);
            lemma_rook_on_empty_board(color, from, dest);
            lemma_queen_rule(board, color, from, dest);
        },
    }
}

/// The destinations of a knight, bishop, rook, queen or king on a board
/// without pieces are the cells of its attack table.
pub proof fn lemma_destinations_on_empty_board(piece: Piece, from: ChessCell, to: usize)
    requires
        piece.kind != PieceKind::Pawn,
        from.on_board(),
        to < 64,
    ensures
        destinations(piece_moves(BoardState::spec_empty_board(), piece, from)).contains(to)
            <==> bit_is_set(spec_attack_mask(piece, from.spec_as_index()), to as u64),
{
    let board = BoardState::spec_empty_board();
    let moves = piece_moves(board, piece, from);
    let cells = destinations(moves);
    let dest = ChessCell::spec_from_index(to);
    lemma_index_round_trip(dest, to);
    lemma_reach_on_empty_board(piece, from, dest);
    assert(grid_wf(board)) by {
        assert forall|cell: ChessCell| cell.in_grid() implies (#[trigger] square_at(
            board,
            cell,
        ) is Aether <==> !cell.on_board()) by {
            lemma_empty_board_square(cell);
        }
    }
    if cells.contains(to) {
        let k = choose|k: int| 0 <= k < cells.len() && cells[k] == to;
        lemma_piece_moves(board, piece, from, k);
        lemma_index_round_trip(moves[k].dest, to);
        assert(moves[k].dest == dest);
    }
    if reaches_target(moves, dest) {
        let k = choose|k: int| 0 <= k < moves.len() && (#[trigger] moves[k]).dest == dest;
        assert(cells[k] == to);
    }
}

impl Position {
    /// At the start of a game no White piece attacks the Black king: none
    /// of them stands on a line with it or a jump away from it.
    pub proof fn lemma_opening_is_valid(self)
        requires
            self.pieces_consistent(),
            self.to_move == PieceColor::White,
            self.black_king_location == ChessCell(RANK_8, E_FILE),
            forall|cell: ChessCell|
                cell.in_grid() ==> #[trigger] self.square(cell) == opening_square(cell),
        ensures
            self.is_valid(),
    {
        let target = ChessCell(RANK_8, E_FILE);
        let cells = self.piece_positions(PieceColor::White);
        let candidates = self.ray_attackers(target, PieceColor::White);
        lemma_cells_of(self.bitboard_of(PieceColor::White).0, 64);
        if candidates.len() > 0 {
            self.lemma_ray_attackers_sound(target, cells, cells.len(), 0);
            let i = choose|i: int|
                0 <= i < cells.len() && #[trigger] cells[i] == candidates[0].1 && self.square(
                    cells[i],
                ) == Square::Full(candidates[0].0) && bit_is_set(
                    spec_attack_mask(candidates[0].0, cells[i].spec_as_index()),
                    target.spec_as_index() as u64,
                );
            let from = cells[i];
            let piece = candidates[0].0;
            let a = from.spec_as_index() as u64;
            let b = target.spec_as_index() as u64;
            lemma_attack_mask(piece, from.spec_as_index(), b);
            lemma_index_round_trip(from, 0);
            assert(self.bitboard_of(PieceColor::White).spec_contains(from.spec_as_index()));
            assert(self.square(from) == opening_square(from));
            assert(self.square(from).spec_is_color(PieceColor::White));
            assert(a / 8 == from.0 - 2 && a % 8 == from.1 - 2);
            assert(b / 8 == 7 && b % 8 == 4);
            if from.0 == RANK_2 {
                assert(piece.kind == PieceKind::Pawn && piece.color == PieceColor::White);
                assert(!white_pawn_reach(a, b));
            } else {
                assert(from.0 == RANK_1);
                assert(a / 8 == 0);
                assert(piece.kind == back_rank_kind(from.1));
                assert(!knight_reach(a, b));
                assert(!king_reach(a, b));
                if piece.kind == PieceKind::Rook {
                    assert(a % 8 == 0 || a % 8 == 7);
                    assert(!rook_reach(a, b));
                } else if piece.kind == PieceKind::Bishop {
                    assert(a % 8 == 2 || a % 8 == 5);
                    assert(!bishop_reach(a, b));
                } else if piece.kind == PieceKind::Queen {
                    assert(a % 8 == 3);
                    assert(!rook_reach(a, b));
                    assert(!bishop_reach(a, b));
                }
            }
            assert(!reaches(piece, a, b));
        }
    }
}

} // verus!
