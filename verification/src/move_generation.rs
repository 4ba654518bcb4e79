//! The move generator: the moves of each kind of piece by the rules of its
//! movement alone, the special moves, and the filter that keeps the moves
//! after which the mover's king is not attacked.

use vstd::prelude::*;
use crate::board_elements::{
    bit_is_set, CastlingType, ChessCell, ChessMove, Piece, PieceColor, PieceKind, Square,
};
use crate::board_state::BoardState;
use crate::chess_board::{grid_wf, square_at};
use crate::position::{lemma_index_round_trip, Position};
use crate::ray_attacks::{attack_mask, spec_attack_mask};

verus! {

/// The move from `start` to `dest` without a promotion.
pub open spec fn plain_move(start: ChessCell, dest: ChessCell) -> ChessMove {
    ChessMove { start, dest, promotion: None }
}

/// The cell that lies the given number of ranks and files away.
pub open spec fn shift(cell: ChessCell, ranks: int, files: int) -> ChessCell {
    ChessCell((cell.0 + ranks) as usize, (cell.1 + files) as usize)
}

/// The moves of a sliding piece of the given colour that stands on `from`,
/// along one ray, from the cell after `at` onwards and for at most `steps`
/// cells: an empty cell is a destination and the walk goes on; a cell with
/// an enemy piece is a destination and the walk ends; a cell with an own
/// piece, or a sentinel, ends the walk.
pub open spec fn ray_moves(
    board: Seq<Square>,
    color: PieceColor,
    from: ChessCell,
    at: ChessCell,
    ranks: int,
    files: int,
    steps: nat,
) -> Seq<ChessMove>
    decreases steps,
{
    if steps == 0 {
        Seq::empty()
    } else {
        let dest = shift(at, ranks, files);
        match square_at(board, dest) {
            Square::Aether => Seq::empty(),
            Square::Empty => seq![plain_move(from, dest)] + ray_moves(
                board,
                color,
                from,
                dest,
                ranks,
                files,
                (steps - 1) as nat,
            ),
            Square::Full(piece) => if piece.color != color {
                seq![plain_move(from, dest)]
            } else {
                Seq::empty()
            },
        }
    }
}

/// The whole ray from `from` in one direction. Eight steps always reach a
/// sentinel.
pub open spec fn ray(
    board: Seq<Square>,
    color: PieceColor,
    from: ChessCell,
    ranks: int,
    files: int,
) -> Seq<ChessMove> {
    ray_moves(board, color, from, from, ranks, files, 8)
}

pub open spec fn spec_bishop_moves(board: Seq<Square>, color: PieceColor, from: ChessCell) -> Seq<
    ChessMove,
> {
    ray(board, color, from, -1, -1) + ray(board, color, from, -1, 1) + ray(
        board,
        color,
        from,
        1,
        -1,
    ) + ray(board, color, from, 1, 1)
}

pub open spec fn spec_rook_moves(board: Seq<Square>, color: PieceColor, from: ChessCell) -> Seq<
    ChessMove,
> {
    ray(board, color, from, -1, 0) + ray(board, color, from, 0, -1) + ray(board, color, from, 0, 1)
        + ray(board, color, from, 1, 0)
}

pub open spec fn spec_queen_moves(board: Seq<Square>, color: PieceColor, from: ChessCell) -> Seq<
    ChessMove,
> {
    spec_bishop_moves(board, color, from) + spec_rook_moves(board, color, from)
}

/// The moves of a jumping piece that stands on `from` to the cells of
/// `mask` with a dense index below `n`, in ascending order: a cell is a
/// destination where it is empty or holds an enemy piece.
pub open spec fn jump_moves(
    board: Seq<Square>,
    color: PieceColor,
    from: ChessCell,
    mask: u64,
    n: nat,
) -> Seq<ChessMove>
    decreases n,
{
    if n == 0 {
        Seq::empty()
    } else {
        let rest = jump_moves(board, color, from, mask, (n - 1) as nat);
        let target = ChessCell::spec_from_index((n - 1) as usize);
        if bit_is_set(mask, (n - 1) as u64) && square_at(board, target).spec_is_empty_or_enemy_of(
            color,
        ) {
            rest.push(plain_move(from, target))
        } else {
            rest
        }
    }
}

pub open spec fn spec_knight_moves(board: Seq<Square>, color: PieceColor, from: ChessCell) -> Seq<
    ChessMove,
> {
    jump_moves(
        board,
        color,
        from,
        spec_attack_mask(Piece { color, kind: PieceKind::Knight }, from.spec_as_index()),
        64,
    )
}

pub open spec fn spec_king_moves(board: Seq<Square>, color: PieceColor, from: ChessCell) -> Seq<
    ChessMove,
> {
    jump_moves(
        board,
        color,
        from,
        spec_attack_mask(Piece { color, kind: PieceKind::King }, from.spec_as_index()),
        64,
    )
}

/// The four promotions of one pawn move: to knight, bishop, rook and queen.
pub open spec fn promotions_of(mov: ChessMove, color: PieceColor) -> Seq<ChessMove> {
    seq![
        ChessMove { promotion: Some(Piece { color, kind: PieceKind::Knight }), ..mov },
        ChessMove { promotion: Some(Piece { color, kind: PieceKind::Bishop }), ..mov },
        ChessMove { promotion: Some(Piece { color, kind: PieceKind::Rook }), ..mov },
        ChessMove { promotion: Some(Piece { color, kind: PieceKind::Queen }), ..mov },
    ]
}

/// Each of the first `n` moves replaced by its four promotions.
pub open spec fn promoted(moves: Seq<ChessMove>, color: PieceColor, n: nat) -> Seq<ChessMove>
    decreases n,
{
    if n == 0 {
        Seq::empty()
    } else {
        promoted(moves, color, (n - 1) as nat) + promotions_of(moves[n - 1], color)
    }
}

/// The steps of a pawn before promotion is considered: the capture
/// towards the a-file, the capture towards the h-file, the single step,
/// and from the starting rank the double step.
pub open spec fn pawn_steps(board: Seq<Square>, color: PieceColor, from: ChessCell) -> Seq<
    ChessMove,
> {
    let forward = color.spec_signum() as int;
    let left_cap = shift(from, forward, -1);
    let right_cap = shift(from, forward, 1);
    let one_forward = shift(from, forward, 0);
    let two_forward = shift(from, 2 * forward, 0);
    (if square_at(board, left_cap).spec_is_enemy_of(color) {
        seq![plain_move(from, left_cap)]
    } else {
        Seq::empty()
    }) + (if square_at(board, right_cap).spec_is_enemy_of(color) {
        seq![plain_move(from, right_cap)]
    } else {
        Seq::empty()
    }) + (if square_at(board, one_forward).spec_is_empty() {
        seq![plain_move(from, one_forward)] + (if from.0 == color.spec_pawn_starting_rank()
            && square_at(board, two_forward).spec_is_empty() {
            seq![plain_move(from, two_forward)]
        } else {
            Seq::empty()
        })
    } else {
        Seq::empty()
    })
}

/// The moves of a pawn, en passant apart. From the rank before the last,
/// every step is a promotion and comes once for each piece to promote to.
pub open spec fn spec_pawn_moves(board: Seq<Square>, color: PieceColor, from: ChessCell) -> Seq<
    ChessMove,
> {
    let steps = pawn_steps(board, color, from);
    if from.0 == color.spec_promotion_rank() {
        promoted(steps, color, steps.len())
    } else {
        steps
    }
}

/// The moves of a piece that stands on `from`, by the rules of its
/// movement alone. Castling and en passant are not among them.
pub open spec fn piece_moves(board: Seq<Square>, piece: Piece, from: ChessCell) -> Seq<ChessMove> {
    match piece.kind {
        PieceKind::Pawn => spec_pawn_moves(board, piece.color, from),
        PieceKind::Knight => spec_knight_moves(board, piece.color, from),
        PieceKind::Bishop => spec_bishop_moves(board, piece.color, from),
        PieceKind::Rook => spec_rook_moves(board, piece.color, from),
        PieceKind::Queen => spec_queen_moves(board, piece.color, from),
        PieceKind::King => spec_king_moves(board, piece.color, from),
    }
}

/// Walks one ray and appends its moves.
#[verifier::rlimit(40)]
fn ray_walk(
    color: PieceColor,
    board_state: &BoardState,
    position: ChessCell,
    ranks: i32,
    files: i32,
    moves: &mut Vec<ChessMove>,
)
    requires
        grid_wf(board_state@.board),
        position.on_board(),
        -1 <= ranks <= 1,
        -1 <= files <= 1,
        ranks != 0 || files != 0,
    ensures
        final(moves)@ == old(moves)@ + ray(
            board_state@.board,
            color,
            position,
            ranks as int,
            files as int,
        ),
{
    let ghost board = board_state@.board;
    let ghost whole = ray(board, color, position, ranks as int, files as int);
    let mut at = position;
    let mut distance: usize = 1;
    loop
        invariant_except_break
            1 <= distance <= 8,
            at.on_board(),
            ranks == 1 ==> at.0 == position.0 + (distance - 1),
            ranks == -1 ==> at.0 == position.0 - (distance - 1),
            files == 1 ==> at.1 == position.1 + (distance - 1),
            files == -1 ==> at.1 == position.1 - (distance - 1),
            old(moves)@ + whole == moves@ + ray_moves(
                board,
                color,
                position,
                at,
                ranks as int,
                files as int,
                (9 - distance) as nat,
            ),
        invariant
            board == board_state@.board,
            grid_wf(board),
            position.on_board(),
            -1 <= ranks <= 1,
            -1 <= files <= 1,
            ranks != 0 || files != 0,
            whole == ray(board, color, position, ranks as int, files as int),
        ensures
            moves@ == old(moves)@ + whole,
        decreases 9 - distance,
    {
        let dest_rank = (at.0 as i32 + ranks) as usize;
        let dest_file = (at.1 as i32 + files) as usize;
        let dest = ChessCell(dest_rank, dest_file);
        assert(dest == shift(at, ranks as int, files as int));
        assert(dest.in_grid());
        let target = *board_state.board.square(dest);
        let ghost rest = ray_moves(
            board,
            color,
            position,
            dest,
            ranks as int,
            files as int,
            (8 - distance) as nat,
        );
        match target {
            Square::Aether => {
                assert(moves@ + Seq::<ChessMove>::empty() =~= moves@);
                break ;
            },
            Square::Empty => {
                assert(square_at(board, dest) is Empty);
                assert(dest.on_board());
                assert(distance < 8);
                let ghost before = moves@;
                moves.push(ChessMove { start: position, dest, promotion: None });
                assert(before + (seq![plain_move(position, dest)] + rest) =~= moves@ + rest);
                at = dest;
                distance += 1;
            },
            Square::Full(_) => {
                let ghost before = moves@;
                if target.is_enemy_of(color) {
                    moves.push(ChessMove { start: position, dest, promotion: None });
                    assert(before + seq![plain_move(position, dest)] =~= moves@);
                } else {
                    assert(before + Seq::<ChessMove>::empty() =~= moves@);
                }
                break ;
            },
        }
    }
}

/// Appending four lists one after another appends their concatenation.
proof fn lemma_append_four<T>(start: Seq<T>, a: Seq<T>, b: Seq<T>, c: Seq<T>, d: Seq<T>)
    ensures
        (((start + a) + b) + c) + d == start + (a + b + c + d),
{
    assert((((start + a) + b) + c) + d =~= start + (a + b + c + d));
}

/// Appends the moves of a bishop of the given colour on `position`.
pub fn bishop_moves(
    color: PieceColor,
    board_state: &BoardState,
    position: ChessCell,
    moves: &mut Vec<ChessMove>,
)
    requires
        grid_wf(board_state@.board),
        position.on_board(),
    ensures
        final(moves)@ == old(moves)@ + spec_bishop_moves(board_state@.board, color, position),
{
    ray_walk(color, board_state, position, -1, -1, moves);
    ray_walk(color, board_state, position, -1, 1, moves);
    ray_walk(color, board_state, position, 1, -1, moves);
    ray_walk(color, board_state, position, 1, 1, moves);
    proof {
        let board = board_state@.board;
        lemma_append_four(
            old(moves)@,
            ray(board, color, position, -1, -1),
            ray(board, color, position, -1, 1),
            ray(board, color, position, 1, -1),
            ray(board, color, position, 1, 1),
        );
    }
}

/// Appends the moves of a rook of the given colour on `position`.
pub fn rook_moves(
    color: PieceColor,
    board_state: &BoardState,
    position: ChessCell,
    moves: &mut Vec<ChessMove>,
)
    requires
        grid_wf(board_state@.board),
        position.on_board(),
    ensures
        final(moves)@ == old(moves)@ + spec_rook_moves(board_state@.board, color, position),
{
    ray_walk(color, board_state, position, -1, 0, moves);
    ray_walk(color, board_state, position, 0, -1, moves);
    ray_walk(color, board_state, position, 0, 1, moves);
    ray_walk(color, board_state, position, 1, 0, moves);
    proof {
        let board = board_state@.board;
        lemma_append_four(
            old(moves)@,
            ray(board, color, position, -1, 0),
            ray(board, color, position, 0, -1),
            ray(board, color, position, 0, 1),
            ray(board, color, position, 1, 0),
        );
    }
}

/// Appends the moves of a queen of the given colour on `position`: those
/// of a bishop, then those of a rook.
pub fn queen_moves(
    color: PieceColor,
    board_state: &BoardState,
    position: ChessCell,
    moves: &mut Vec<ChessMove>,
)
    requires
        grid_wf(board_state@.board),
        position.on_board(),
    ensures
        final(moves)@ == old(moves)@ + spec_queen_moves(board_state@.board, color, position),
{
    bishop_moves(color, board_state, position, moves);
    rook_moves(color, board_state, position, moves);
    assert(moves@ =~= old(moves)@ + spec_queen_moves(board_state@.board, color, position));
}

/// Appends the moves from `position` to the cells of `mask` that are empty
/// or hold an enemy piece.
fn jump_walk(
    color: PieceColor,
    board_state: &BoardState,
    position: ChessCell,
    mask: u64,
    moves: &mut Vec<ChessMove>,
)
    requires
        grid_wf(board_state@.board),
    ensures
        final(moves)@ == old(moves)@ + jump_moves(board_state@.board, color, position, mask, 64),
{
    let ghost board = board_state@.board;
    let mut destination: usize = 0;
    while destination < 64
        invariant
            destination <= 64,
            board == board_state@.board,
            moves@ == old(moves)@ + jump_moves(board, color, position, mask, destination as nat),
        decreases 64 - destination,
    {
        let ghost before = moves@;
        let ghost rest = jump_moves(board, color, position, mask, destination as nat);
        if (mask >> (destination as u64)) & 1 == 1 {
            let target = ChessCell::from_index(destination);
            let attacked_square = *board_state.board.square(target);
            if attacked_square.is_empty_or_enemy_of(color) {
                moves.push(ChessMove { start: position, dest: target, promotion: None });
                assert(moves@ =~= old(moves)@ + rest.push(plain_move(position, target)));
            }
        }
        destination += 1;
    }
}

/// Appends the moves of a knight of the given colour on `position`.
pub fn knight_moves(
    color: PieceColor,
    board_state: &BoardState,
    position: ChessCell,
    moves: &mut Vec<ChessMove>,
)
    requires
        grid_wf(board_state@.board),
        position.on_board(),
    ensures
        final(moves)@ == old(moves)@ + spec_knight_moves(board_state@.board, color, position),
{
    let destinations = attack_mask(Piece::knight(color), position.as_index());
    jump_walk(color, board_state, position, destinations, moves);
}

/// Appends the moves of a king of the given colour on `position`,
/// castling apart.
pub fn king_moves(
    color: PieceColor,
    board_state: &BoardState,
    position: ChessCell,
    moves: &mut Vec<ChessMove>,
)
    requires
        grid_wf(board_state@.board),
        position.on_board(),
    ensures
        final(moves)@ == old(moves)@ + spec_king_moves(board_state@.board, color, position),
{
    let destinations = attack_mask(Piece::king(color), position.as_index());
    jump_walk(color, board_state, position, destinations, moves);
}

/// Appends the moves of a pawn of the given colour on `position`, en
/// passant apart.
#[verifier::rlimit(40)]
fn pawn_moves(
    color: PieceColor,
    board_state: &BoardState,
    position: ChessCell,
    moves: &mut Vec<ChessMove>,
)
    requires
        grid_wf(board_state@.board),
        position.on_board(),
    ensures
        final(moves)@ == old(moves)@ + spec_pawn_moves(board_state@.board, color, position),
{
    let ghost board = board_state@.board;
    let mut temp_moves: Vec<ChessMove> = Vec::new();
    let push_direction: i32 = color.signum();
    let rank: usize = position.0;
    let file: usize = position.1;

    let left_cap = ChessCell((rank as i32 + push_direction) as usize, file - 1);
    assert(left_cap == shift(position, push_direction as int, -1));
    let target = *board_state.board.square(left_cap);
    if target.is_enemy_of(color) {
        temp_moves.push(ChessMove { start: position, dest: left_cap, promotion: None });
    }
    let right_cap = ChessCell((rank as i32 + push_direction) as usize, file + 1);
    assert(right_cap == shift(position, push_direction as int, 1));
    let target = *board_state.board.square(right_cap);
    if target.is_enemy_of(color) {
        temp_moves.push(ChessMove { start: position, dest: right_cap, promotion: None });
    }
    let one_forward = ChessCell((rank as i32 + push_direction) as usize, file);
    assert(one_forward == shift(position, push_direction as int, 0));
    let target = *board_state.board.square(one_forward);
    if target.is_empty() {
        temp_moves.push(ChessMove { start: position, dest: one_forward, promotion: None });
        if rank == color.pawn_starting_rank() {
            let two_forward = ChessCell((rank as i32 + 2 * push_direction) as usize, file);
            assert(two_forward == shift(position, 2 * push_direction as int, 0));
            let target = *board_state.board.square(two_forward);
            if target.is_empty() {
                temp_moves.push(ChessMove { start: position, dest: two_forward, promotion: None });
            }
        }
    }
    assert(temp_moves@ =~= pawn_steps(board, color, position));

    if rank == color.promotion_rank() {
        let mut index: usize = 0;
        while index < temp_moves.len()
            invariant
                index <= temp_moves.len(),
                temp_moves@ == pawn_steps(board, color, position),
                moves@ == old(moves)@ + promoted(temp_moves@, color, index as nat),
            decreases temp_moves.len() - index,
        {
            let mov = temp_moves[index];
            let ghost before = moves@;
            moves.push(
                ChessMove { start: mov.start, dest: mov.dest, promotion: Some(Piece::knight(color)) },
            );
            moves.push(
                ChessMove { start: mov.start, dest: mov.dest, promotion: Some(Piece::bishop(color)) },
            );
            moves.push(
                ChessMove { start: mov.start, dest: mov.dest, promotion: Some(Piece::rook(color)) },
            );
            moves.push(
                ChessMove { start: mov.start, dest: mov.dest, promotion: Some(Piece::queen(color)) },
            );
            assert(moves@ =~= before + promotions_of(mov, color));
            assert(moves@ =~= old(moves)@ + promoted(temp_moves@, color, (index + 1) as nat));
            index += 1;
        }
    } else {
        let ghost before = moves@;
        moves.append(&mut temp_moves);
        assert(moves@ =~= before + pawn_steps(board, color, position));
    }
}

/// Appends the moves of a piece on `position`, by the rules of its
/// movement alone.
pub fn generate_pseudo_moves_for_piece(
    piece: Piece,
    board_state: &BoardState,
    position: ChessCell,
    pseudo_moves: &mut Vec<ChessMove>,
)
    requires
        grid_wf(board_state@.board),
        position.on_board(),
    ensures
        final(pseudo_moves)@ == old(pseudo_moves)@ + piece_moves(
            board_state@.board,
            piece,
            position,
        ),
{
    let color = piece.color;
    match piece.kind {
        PieceKind::Pawn => pawn_moves(color, board_state, position, pseudo_moves),
        PieceKind::Knight => knight_moves(color, board_state, position, pseudo_moves),
        PieceKind::Bishop => bishop_moves(color, board_state, position, pseudo_moves),
        PieceKind::Rook => rook_moves(color, board_state, position, pseudo_moves),
        PieceKind::King => king_moves(color, board_state, position, pseudo_moves),
        PieceKind::Queen => queen_moves(color, board_state, position, pseudo_moves),
    }
}

/// Whether one of the moves ends on `target`.
pub open spec fn reaches_target(moves: Seq<ChessMove>, target: ChessCell) -> bool {
    exists|k: int| 0 <= k < moves.len() && (#[trigger] moves[k]).dest == target
}

impl Position {
    /// Among the first `n` of the given cells, those whose piece would
    /// reach `target` on an empty board, each with its piece.
    pub open spec fn ray_attackers_among(
        self,
        target: ChessCell,
        cells: Seq<ChessCell>,
        n: nat,
    ) -> Seq<(Piece, ChessCell)>
        decreases n,
    {
        if n == 0 {
            Seq::empty()
        } else {
            let rest = self.ray_attackers_among(target, cells, (n - 1) as nat);
            let cell = cells[n - 1];
            match self.square(cell) {
                Square::Full(piece) => if bit_is_set(
                    spec_attack_mask(piece, cell.spec_as_index()),
                    target.spec_as_index() as u64,
                ) {
                    rest.push((piece, cell))
                } else {
                    rest
                },
                _ => rest,
            }
        }
    }

    /// The pieces of the given colour that would reach `target` on an
    /// empty board, by the attack tables: the candidates for an attack.
    pub open spec fn ray_attackers(self, target: ChessCell, color: PieceColor) -> Seq<
        (Piece, ChessCell),
    > {
        self.ray_attackers_among(
            target,
            self.piece_positions(color),
            self.piece_positions(color).len(),
        )
    }

    /// Whether a piece of the given colour attacks `target`: one of the
    /// candidates has, on the board as it is, a move that ends there.
    ///
    /// A pawn's capture is among its moves only where an enemy piece
    /// stands, so a pawn attacks no empty cell in this sense.
    pub open spec fn square_is_attacked(self, target: ChessCell, attacker: PieceColor) -> bool {
        let candidates = self.ray_attackers(target, attacker);
        exists|k: int|
            0 <= k < candidates.len() && reaches_target(
                #[trigger] piece_moves(self.board, candidates[k].0, candidates[k].1),
                target,
            )
    }

    /// Whether the side that has just moved left its king out of attack.
    pub open spec fn is_valid(self) -> bool {
        !self.square_is_attacked(
            self.king_location_of(self.to_move.spec_opposite()),
            self.to_move,
        )
    }

    /// Whether the side to move may castle in the given way, its right
    /// taken for granted: the two cells beside the king towards the rook
    /// are empty, and neither they nor the king's cell are attacked.
    pub open spec fn castling_open(self, castling_type: CastlingType) -> bool {
        let king = self.king_location_of(self.to_move);
        let direction = castling_type.spec_direction() as int;
        let step_one = shift(king, 0, direction);
        let step_two = shift(king, 0, 2 * direction);
        let enemy = self.to_move.spec_opposite();
        &&& self.square(step_one).spec_is_empty()
        &&& self.square(step_two).spec_is_empty()
        &&& !self.square_is_attacked(king, enemy)
        &&& !self.square_is_attacked(step_one, enemy)
        &&& !self.square_is_attacked(step_two, enemy)
    }

    /// The king's castling move in the given way.
    pub open spec fn castling_move(castling_type: CastlingType) -> ChessMove {
        plain_move(castling_type.king_home(), castling_type.king_dest())
    }

    /// The castling moves for the first `n` of the given ways.
    pub open spec fn castling_moves_among(self, types: Seq<CastlingType>, n: nat) -> Seq<
        ChessMove,
    >
        decreases n,
    {
        if n == 0 {
            Seq::empty()
        } else {
            let rest = self.castling_moves_among(types, (n - 1) as nat);
            if self.castling_open(types[n - 1]) {
                rest.push(Position::castling_move(types[n - 1]))
            } else {
                rest
            }
        }
    }

    /// The castling moves of the side to move.
    pub open spec fn castling_moves(self) -> Seq<ChessMove> {
        let types = self.available_castling_types(self.to_move);
        self.castling_moves_among(types, types.len())
    }

    /// The capture onto `target` by a pawn of the side to move on
    /// `threat`, if one stands there.
    pub open spec fn en_passant_capture(self, threat: ChessCell, target: ChessCell) -> Seq<
        ChessMove,
    > {
        if self.square(threat) == Square::Full(
            Piece { color: self.to_move, kind: PieceKind::Pawn },
        ) {
            seq![plain_move(threat, target)]
        } else {
            Seq::empty()
        }
    }

    /// The en passant captures of the side to move: onto the target cell,
    /// unless an own piece stands on it, by the pawns on the two cells
    /// beside the enemy pawn, the one towards the a-file first.
    pub open spec fn en_passant_moves(self) -> Seq<ChessMove> {
        match self.en_passant {
            None => Seq::empty(),
            Some(en_passant_square) => {
                let target = ChessCell(
                    self.to_move.spec_opposite().spec_en_passant_rank(),
                    en_passant_square.1,
                );
                if self.square(target).spec_is_color(self.to_move) {
                    Seq::empty()
                } else {
                    let rank = self.to_move.spec_en_passant_attacking_rank();
                    self.en_passant_capture(
                        ChessCell(rank, (en_passant_square.1 - 1) as usize),
                        target,
                    ) + self.en_passant_capture(
                        ChessCell(rank, (en_passant_square.1 + 1) as usize),
                        target,
                    )
                }
            },
        }
    }

    /// The moves of the pieces on the first `n` of the given cells.
    pub open spec fn moves_of_pieces(self, cells: Seq<ChessCell>, n: nat) -> Seq<ChessMove>
        decreases n,
    {
        if n == 0 {
            Seq::empty()
        } else {
            self.moves_of_pieces(cells, (n - 1) as nat) + (match self.square(cells[n - 1]) {
                Square::Full(piece) => piece_moves(self.board, piece, cells[n - 1]),
                _ => Seq::empty(),
            })
        }
    }

    /// The moves of the side to move by the rules of movement alone,
    /// whether or not they leave the mover's king attacked: the moves of
    /// each piece in ascending order of its cell, then the castling moves,
    /// then the en passant captures.
    pub open spec fn pseudo_moves(self) -> Seq<ChessMove> {
        let cells = self.piece_positions(self.to_move);
        self.moves_of_pieces(cells, cells.len()) + self.castling_moves() + self.en_passant_moves()
    }
}

/// The castling moves of the side to move.
pub fn generate_castling_moves(board_state: &BoardState) -> (r: Vec<ChessMove>)
    requires
        board_state@.wf(),
    ensures
        r@ == board_state@.castling_moves(),
{
    let mut castling_moves: Vec<ChessMove> = Vec::new();
    let king = board_state.king_location_of(board_state.to_move);
    let king_rank: usize = king.0;
    let king_file: usize = king.1;
    let types = board_state.available_castling_types(board_state.to_move);
    let enemy = board_state.to_move.opposite();
    let mut index: usize = 0;
    while index < types.len()
        invariant
            index <= types.len(),
            board_state@.wf(),
            king == board_state@.king_location_of(board_state.to_move),
            king_rank == king.0,
            king_file == king.1,
            enemy == board_state.to_move.spec_opposite(),
            types@ == board_state@.available_castling_types(board_state.to_move),
            castling_moves@ == board_state@.castling_moves_among(types@, index as nat),
        decreases types.len() - index,
    {
        let castling_type = types[index];
        let direction: i8 = castling_type.direction();
        assert(king.on_board());
        let step_one_cell = ChessCell(king_rank, (king_file as i8 + direction) as usize);
        let step_two_cell = ChessCell(king_rank, (king_file as i8 + direction * 2) as usize);
        assert(step_one_cell == shift(king, 0, direction as int));
        assert(step_two_cell == shift(king, 0, 2 * direction as int));
        let step_one = *board_state.board.square(step_one_cell);
        let step_two = *board_state.board.square(step_two_cell);
        if step_one.is_empty() && step_two.is_empty() && !board_state.square_is_attacked(
            king,
            enemy,
        ) && !board_state.square_is_attacked(step_one_cell, enemy)
            && !board_state.square_is_attacked(step_two_cell, enemy) {
            castling_moves.push(ChessMove::from(castling_type));
        }
        index += 1;
    }
    castling_moves
}

/// The en passant captures of the side to move.
pub fn generate_en_passant_moves(board_state: &BoardState) -> (r: Vec<ChessMove>)
    requires
        board_state@.wf(),
    ensures
        r@ == board_state@.en_passant_moves(),
{
    let mut en_passant_moves: Vec<ChessMove> = Vec::new();
    if let Some(en_passant_square) = board_state.en_passant {
        let target_rank = board_state.to_move.opposite().en_passant_rank();
        let threatened_square = ChessCell(target_rank, en_passant_square.1);
        if board_state.board.square(threatened_square).is_color(board_state.to_move) {
            return en_passant_moves;
        }
        let attacking_rank = board_state.to_move.en_passant_attacking_rank();
        let left_threat = ChessCell(attacking_rank, en_passant_square.1 - 1);
        let right_threat = ChessCell(attacking_rank, en_passant_square.1 + 1);
        let threatening_square = *board_state.board.square(left_threat);
        if !threatening_square.is_aether() {
            if let Some(threatening_piece) = threatening_square.piece() {
                if threatening_piece.kind == PieceKind::Pawn && threatening_piece.color
                    == board_state.to_move {
                    en_passant_moves.push(
                        ChessMove { start: left_threat, dest: threatened_square, promotion: None },
                    );
                }
            }
        }
        let threatening_square = *board_state.board.square(right_threat);
        if !threatening_square.is_aether() {
            if let Some(threatening_piece) = threatening_square.piece() {
                if threatening_piece.kind == PieceKind::Pawn && threatening_piece.color
                    == board_state.to_move {
                    en_passant_moves.push(
                        ChessMove { start: right_threat, dest: threatened_square, promotion: None },
                    );
                }
            }
        }
        assert(en_passant_moves@ =~= board_state@.en_passant_moves());
    }
    en_passant_moves
}

/// The moves of the side to move by the rules of movement alone.
pub fn generate_pseudo_moves_for_player(board_state: &BoardState) -> (r: Vec<ChessMove>)
    requires
        board_state@.wf(),
    ensures
        r@ == board_state@.pseudo_moves(),
{
    let piece_positions = board_state.get_piece_positions(board_state.to_move);
    let mut potential_moves: Vec<ChessMove> = Vec::new();
    proof {
        crate::position::lemma_cells_of(board_state@.bitboard_of(board_state.to_move).0, 64);
    }
    let mut index: usize = 0;
    while index < piece_positions.len()
        invariant
            index <= piece_positions.len(),
            board_state@.wf(),
            piece_positions@ == board_state@.piece_positions(board_state.to_move),
            forall|k: int|
                0 <= k < piece_positions@.len() ==> {
                    let cell = #[trigger] piece_positions@[k];
                    cell.on_board() && cell.spec_as_index() < 64 && bit_is_set(
                        board_state@.bitboard_of(board_state.to_move).0,
                        cell.spec_as_index() as u64,
                    )
                },
            potential_moves@ == board_state@.moves_of_pieces(piece_positions@, index as nat),
        decreases piece_positions.len() - index,
    {
        let position = piece_positions[index];
        proof {
            lemma_index_round_trip(position, 0);
            assert(board_state@.bitboard_of(board_state.to_move).spec_contains(
                position.spec_as_index(),
            ));
        }
        let piece = board_state.board.square(position).piece().unwrap();
        generate_pseudo_moves_for_piece(piece, board_state, position, &mut potential_moves);
        index += 1;
    }
    let mut castling = generate_castling_moves(board_state);
    potential_moves.append(&mut castling);
    let mut en_passant = generate_en_passant_moves(board_state);
    potential_moves.append(&mut en_passant);
    potential_moves
}

/// The score that stands for mate: half of the least `i32`.
pub const MATED: i32 = -1073741824;

impl Position {
    /// Whether the king of the side to move is attacked.
    pub open spec fn in_check(self) -> bool {
        self.square_is_attacked(self.king_location_of(self.to_move), self.to_move.spec_opposite())
    }

    /// The score of a position without a legal move, as the side to move
    /// sees it.
    pub open spec fn terminal_eval(self) -> int {
        if self.in_check() {
            MATED as int
        } else {
            0
        }
    }

    /// Among the first `n` of the given moves, those after which the
    /// mover's king is not attacked, in their order.
    pub open spec fn legal_among(self, moves: Seq<ChessMove>, n: nat) -> Seq<ChessMove>
        decreases n,
    {
        if n == 0 {
            Seq::empty()
        } else {
            let rest = self.legal_among(moves, (n - 1) as nat);
            if self.apply_move(moves[n - 1]).is_valid() {
                rest.push(moves[n - 1])
            } else {
                rest
            }
        }
    }

    /// The legal moves of the side to move: the moves by the rules of
    /// movement after which the mover's king is not attacked, in the order
    /// in which the generator produces them.
    pub open spec fn legal_moves(self) -> Seq<ChessMove> {
        self.legal_among(self.pseudo_moves(), self.pseudo_moves().len())
    }
}

/// Among the moves of the side to move, those that leave the mover's king
/// out of attack. Each move is made, looked at, and taken back: the
/// position is the same afterwards as before.
pub fn legal_moves_in_place(board_state: &mut BoardState) -> (r: Vec<ChessMove>)
    requires
        old(board_state).wf(),
        old(board_state)@.is_valid(),
    ensures
        r@ == old(board_state)@.legal_moves(),
        final(board_state)@ == old(board_state)@,
        final(board_state).history() == old(board_state).history(),
{
    let ghost start = board_state@;
    let ghost past = board_state.history();
    let mut valid_moves: Vec<ChessMove> = Vec::with_capacity(16);
    let potential_moves = generate_pseudo_moves_for_player(board_state);
    let mut index: usize = 0;
    while index < potential_moves.len()
        invariant
            index <= potential_moves.len(),
            board_state@ == start,
            board_state.history() == past,
            board_state.wf(),
            start.is_valid(),
            potential_moves@ == start.pseudo_moves(),
            valid_moves@ == start.legal_among(potential_moves@, index as nat),
        decreases potential_moves.len() - index,
    {
        let mov = potential_moves[index];
        proof {
            start.lemma_pseudo_move_permitted(index as int);
        }
        board_state.make_move(mov);
        if board_state.is_valid_move() {
            valid_moves.push(mov);
        }
        board_state.unmake_move();
        proof {
            assert(board_state.history() =~= past);
        }
        index += 1;
    }
    valid_moves
}

/// The legal moves of the side to move. Each candidate is tried on a
/// scratch copy of the position and kept where it leaves the mover's king
/// out of attack.
pub fn generate_moves(board_state: &BoardState) -> (r: Vec<ChessMove>)
    requires
        board_state@.wf(),
        board_state@.is_valid(),
    ensures
        r@ == board_state@.legal_moves(),
{
    let mut scratch = board_state.scratch();
    legal_moves_in_place(&mut scratch)
}

} // verus!
