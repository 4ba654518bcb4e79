//! Attack tables: for each piece and each cell of the playing area, the
//! cells that the piece reaches from there on an empty board, as a set of
//! bits over the dense indices.
//!
//! The tables are data. What they hold is stated by the `*_reach`
//! predicates, which speak of ranks (`index / 8`) and files (`index % 8`),
//! and proved entry by entry.

use vstd::prelude::*;
use crate::board_elements::{bit_is_set, ChessCell, ChessMove, Piece, PieceColor, PieceKind};
use crate::board_state::BoardState;
use crate::chess_board::{empty_square, grid_wf};
use crate::move_generation::{
    bishop_moves, king_moves, knight_moves, piece_moves, queen_moves, rook_moves,
};
use crate::move_soundness::{lemma_destinations_on_empty_board, lemma_piece_moves};
use crate::position::lemma_index_round_trip;

verus! {

/// Whether a White pawn on `from` attacks `to`: one rank up, one file aside.
pub open spec fn white_pawn_reach(from: u64, to: u64) -> bool {
    to / 8 == from / 8 + 1 && (to % 8 + 1 == from % 8 || from % 8 + 1 == to % 8)
}

/// Whether a Black pawn on `from` attacks `to`: one rank down, one file aside.
pub open spec fn black_pawn_reach(from: u64, to: u64) -> bool {
    from / 8 == to / 8 + 1 && (to % 8 + 1 == from % 8 || from % 8 + 1 == to % 8)
}

/// Whether a knight's jump leads from `from` to `to`.
pub open spec fn knight_reach(from: u64, to: u64) -> bool {
    ((to / 8 + 1 == from / 8 || from / 8 + 1 == to / 8) && (to % 8 + 2 == from % 8 || from % 8 + 2
        == to % 8)) || ((to / 8 + 2 == from / 8 || from / 8 + 2 == to / 8) && (to % 8 + 1 == from % 8
        || from % 8 + 1 == to % 8))
}

/// Whether `to` lies on a diagonal through `from`.
pub open spec fn bishop_reach(from: u64, to: u64) -> bool {
    from != to && (from / 8 + to % 8 == to / 8 + from % 8 || from / 8 + from % 8 == to / 8 + to % 8)
}

/// Whether `to` lies on the rank or the file of `from`.
pub open spec fn rook_reach(from: u64, to: u64) -> bool {
    from != to && (from / 8 == to / 8 || from % 8 == to % 8)
}

/// Whether `to` lies on a rank, file or diagonal through `from`.
pub open spec fn queen_reach(from: u64, to: u64) -> bool {
    rook_reach(from, to) || bishop_reach(from, to)
}

/// Whether `to` is next to `from`.
pub open spec fn king_reach(from: u64, to: u64) -> bool {
    from != to && to / 8 <= from / 8 + 1 && from / 8 <= to / 8 + 1 && to % 8 <= from % 8 + 1 && from % 8
        <= to % 8 + 1
}

/// Whether the piece, standing on the cell with dense index `from`, reaches
/// the cell with dense index `to` on an empty board. For a pawn these are
/// the two cells that it attacks.
pub open spec fn reaches(piece: Piece, from: u64, to: u64) -> bool {
    match piece.kind {
        PieceKind::Pawn => match piece.color {
            PieceColor::White => white_pawn_reach(from, to),
            PieceColor::Black => black_pawn_reach(from, to),
        },
        PieceKind::Knight => knight_reach(from, to),
        PieceKind::Bishop => bishop_reach(from, to),
        PieceKind::Rook => rook_reach(from, to),
        PieceKind::Queen => queen_reach(from, to),
        PieceKind::King => king_reach(from, to),
    }
}

/// The entry of the table that belongs to the piece.
pub open spec fn spec_attack_mask(piece: Piece, index: usize) -> u64 {
    match piece.kind {
        PieceKind::Pawn => match piece.color {
            PieceColor::White => WHITE_PAWN_RAY_ATTACKS[index as int],
            PieceColor::Black => BLACK_PAWN_RAY_ATTACKS[index as int],
        },
        PieceKind::Knight => KNIGHT_RAY_ATTACKS[index as int],
        PieceKind::Bishop => BISHOP_RAY_ATTACKS[index as int],
        PieceKind::Rook => ROOK_RAY_ATTACKS[index as int],
        PieceKind::Queen => QUEEN_RAY_ATTACKS[index as int],
        PieceKind::King => KING_RAY_ATTACKS[index as int],
    }
}

/// Looks up the cells that the piece reaches from the cell with the given
/// dense index on an empty board.
#[verifier::when_used_as_spec(spec_attack_mask)]
pub fn attack_mask(piece: Piece, index: usize) -> (r: u64)
    requires
        index < 64,
    ensures
        r == spec_attack_mask(piece, index),
        forall|to: u64| to < 64 ==> (#[trigger] bit_is_set(r, to) <==> reaches(piece, index as u64, to)),
{
    let r = match piece.kind {
        PieceKind::Pawn => match piece.color {
            PieceColor::White => WHITE_PAWN_RAY_ATTACKS[index],
            PieceColor::Black => BLACK_PAWN_RAY_ATTACKS[index],
        },
        PieceKind::Knight => KNIGHT_RAY_ATTACKS[index],
        PieceKind::Bishop => BISHOP_RAY_ATTACKS[index],
        PieceKind::Rook => ROOK_RAY_ATTACKS[index],
        PieceKind::Queen => QUEEN_RAY_ATTACKS[index],
        PieceKind::King => KING_RAY_ATTACKS[index],
    };
    proof {
        assert(r == spec_attack_mask(piece, index));
        assert forall|to: u64| to < 64 implies (#[trigger] bit_is_set(r, to) <==> reaches(
            piece,
            index as u64,
            to,
        )) by {
            lemma_attack_mask(piece, index, to);
        }
    }
    r
}

/// Each table holds, for each cell, exactly the cells that its piece
/// reaches from there.
pub proof fn lemma_attack_mask(piece: Piece, index: usize, to: u64)
    requires
        index < 64,
        to < 64,
    ensures
        bit_is_set(spec_attack_mask(piece, index), to) <==> reaches(piece, index as u64, to),
{
    let from = index as u64;
    match piece.kind {
        PieceKind::Pawn => match piece.color {
            PieceColor::White => {
                assert(WHITE_PAWN_RAY_ATTACKS[index as int] == white_pawn_entry(from));
                lemma_white_pawn_entry(from, to);
            },
            PieceColor::Black => {
                assert(BLACK_PAWN_RAY_ATTACKS[index as int] == black_pawn_entry(from));
                lemma_black_pawn_entry(from, to);
            },
        },
        PieceKind::Knight => {
            assert(KNIGHT_RAY_ATTACKS[index as int] == knight_entry(from));
            lemma_knight_entry(from, to);
        },
        PieceKind::Bishop => {
            assert(BISHOP_RAY_ATTACKS[index as int] == bishop_entry(from));
            lemma_bishop_entry(from, to);
        },
        PieceKind::Rook => {
            assert(ROOK_RAY_ATTACKS[index as int] == rook_entry(from));
            lemma_rook_entry(from, to);
        },
        PieceKind::Queen => {
            assert(QUEEN_RAY_ATTACKS[index as int] == queen_entry(from));
            lemma_queen_entry(from, to);
        },
        PieceKind::King => {
            assert(KING_RAY_ATTACKS[index as int] == king_entry(from));
            lemma_king_entry(from, to);
        },
    }
}

/// The dense indices of the destinations of the given moves, in their
/// order.
pub open spec fn destinations(moves: Seq<ChessMove>) -> Seq<usize> {
    Seq::new(moves.len(), |k: int| moves[k].dest.spec_as_index())
}

/// Once more the reach of a knight, bishop, rook, queen or king from each
/// cell of the playing area, this time by letting the piece move on an
/// empty board: the entry of a cell lists the dense indices of the cells
/// to which the piece can go from there, in the order of the generator.
/// These are the cells of the attack table of the piece.
pub fn _generate_big_piece_ray_attacks(kind: PieceKind) -> (r: Vec<Vec<usize>>)
    requires
        kind != PieceKind::Pawn,
    ensures
        r@.len() == 64,
        forall|index: int|
            0 <= index < 64 ==> (#[trigger] r@[index])@ == destinations(
                piece_moves(
                    BoardState::spec_empty_board(),
                    Piece { color: PieceColor::White, kind },
                    ChessCell::spec_from_index(index as usize),
                ),
            ),
        forall|index: int, to: usize|
            0 <= index < 64 && to < 64 ==> (#[trigger] r@[index]@.contains(to) <==> bit_is_set(
                spec_attack_mask(Piece { color: PieceColor::White, kind }, index as usize),
                to as u64,
            )),
{
    let board_state = BoardState::empty_game();
    proof {
        assert(board_state@.board =~= BoardState::spec_empty_board()) by {
            assert forall|i: int| 0 <= i < 144 implies board_state@.board[i] == empty_square(
                ChessCell((i / 12) as usize, (i % 12) as usize),
            ) by {
                let cell = ChessCell((i / 12) as usize, (i % 12) as usize);
                assert(cell.in_grid());
                assert(board_state@.square(cell) == empty_square(cell));
            }
        }
    }
    let mut ray_attack_lookup: Vec<Vec<usize>> = Vec::new();
    let color = PieceColor::White;
    let mut index: usize = 0;
    while index < 64
        invariant
            index <= 64,
            kind != PieceKind::Pawn,
            color == PieceColor::White,
            board_state@.board == BoardState::spec_empty_board(),
            grid_wf(board_state@.board),
            ray_attack_lookup@.len() == index,
            forall|i: int|
                0 <= i < index ==> (#[trigger] ray_attack_lookup@[i])@ == destinations(
                    piece_moves(
                        BoardState::spec_empty_board(),
                        Piece { color: PieceColor::White, kind },
                        ChessCell::spec_from_index(i as usize),
                    ),
                ),
        decreases 64 - index,
    {
        let mut moves: Vec<ChessMove> = Vec::new();
        let position = ChessCell::from_index(index);
        match kind {
            PieceKind::Pawn => {},
            PieceKind::Knight => knight_moves(color, &board_state, position, &mut moves),
            PieceKind::Bishop => bishop_moves(color, &board_state, position, &mut moves),
            PieceKind::Rook => rook_moves(color, &board_state, position, &mut moves),
            PieceKind::Queen => queen_moves(color, &board_state, position, &mut moves),
            PieceKind::King => king_moves(color, &board_state, position, &mut moves),
        }
        let ghost generated = piece_moves(
            BoardState::spec_empty_board(),
            Piece { color: PieceColor::White, kind },
            position,
        );
        proof {
            assert(moves@ =~= generated);
            assert forall|k: int| 0 <= k < generated.len() implies (
            #[trigger] generated[k]).dest.on_board() by {
                lemma_piece_moves(
                    BoardState::spec_empty_board(),
                    Piece { color: PieceColor::White, kind },
                    position,
                    k,
                );
            }
        }
        let mut filtered_attacked_squares: Vec<usize> = Vec::new();
        let mut k: usize = 0;
        while k < moves.len()
            invariant
                k <= moves.len(),
                moves@ == generated,
                forall|i: int| 0 <= i < generated.len() ==> (#[trigger] generated[i]).dest.on_board(),
                filtered_attacked_squares@ == destinations(generated).subrange(0, k as int),
            decreases moves.len() - k,
        {
            filtered_attacked_squares.push(moves[k].dest.as_index());
            proof {
                assert(filtered_attacked_squares@ =~= destinations(generated).subrange(
                    0,
                    k + 1,
                ));
            }
            k += 1;
        }
        proof {
            assert(filtered_attacked_squares@ =~= destinations(generated));
        }
        ray_attack_lookup.push(filtered_attacked_squares);
        index += 1;
    }
    proof {
        assert forall|index: int, to: usize| 0 <= index < 64 && to < 64 implies (
        #[trigger] ray_attack_lookup@[index]@.contains(to) <==> bit_is_set(
            spec_attack_mask(Piece { color: PieceColor::White, kind }, index as usize),
            to as u64,
        )) by {
            let from = ChessCell::spec_from_index(index as usize);
            lemma_index_round_trip(from, index as usize);
            lemma_destinations_on_empty_board(
                Piece { color: PieceColor::White, kind },
                from,
                to,
            );
        }
    }
    ray_attack_lookup
}

/// The dense indices of the two cells one rank away in the given
/// direction and one file aside, as far as they lie in the playing area,
/// the one towards the a-file first.
pub open spec fn pawn_attacks(cell: ChessCell, forward: int) -> Seq<usize> {
    let left = ChessCell((cell.0 + forward) as usize, (cell.1 - 1) as usize);
    let right = ChessCell((cell.0 + forward) as usize, (cell.1 + 1) as usize);
    (if left.on_board() {
        seq![left.spec_as_index()]
    } else {
        Seq::empty()
    }) + (if right.on_board() {
        seq![right.spec_as_index()]
    } else {
        Seq::empty()
    })
}

/// The cells that a pawn attacks from a cell of the playing area are the
/// cells of its attack table.
proof fn lemma_pawn_attacks(color: PieceColor, index: usize, to: usize)
    requires
        index < 64,
        to < 64,
    ensures
        pawn_attacks(ChessCell::spec_from_index(index), color.spec_signum() as int).contains(to)
            <==> bit_is_set(
            spec_attack_mask(Piece { color, kind: PieceKind::Pawn }, index),
            to as u64,
        ),
{
    let cell = ChessCell::spec_from_index(index);
    let forward = color.spec_signum() as int;
    let cells = pawn_attacks(cell, forward);
    let left = ChessCell((cell.0 + forward) as usize, (cell.1 - 1) as usize);
    let right = ChessCell((cell.0 + forward) as usize, (cell.1 + 1) as usize);
    let a = index as u64;
    let b = to as u64;
    lemma_attack_mask(Piece { color, kind: PieceKind::Pawn }, index, b);
    assert(a / 8 == cell.0 - 2 && a % 8 == cell.1 - 2);
    if cells.contains(to) {
        let k = choose|k: int| 0 <= k < cells.len() && cells[k] == to;
    }
    if left.on_board() && left.spec_as_index() == to {
        assert(cells[0] == to);
    }
    if right.on_board() && right.spec_as_index() == to {
        assert(cells[cells.len() - 1] == to);
    }
}

/// The cells that a pawn attacks from each cell of the playing area.
fn generate_pawn_ray_attacks(color: PieceColor) -> (r: Vec<Vec<usize>>)
    ensures
        r@.len() == 64,
        forall|index: int|
            0 <= index < 64 ==> (#[trigger] r@[index])@ == pawn_attacks(
                ChessCell::spec_from_index(index as usize),
                color.spec_signum() as int,
            ),
        forall|index: int, to: usize|
            0 <= index < 64 && to < 64 ==> (#[trigger] r@[index]@.contains(to) <==> bit_is_set(
                spec_attack_mask(Piece { color, kind: PieceKind::Pawn }, index as usize),
                to as u64,
            )),
{
    let mut ray_attack_lookup: Vec<Vec<usize>> = Vec::new();
    let forward: i32 = color.signum();
    let mut index: usize = 0;
    while index < 64
        invariant
            index <= 64,
            forward == color.spec_signum(),
            ray_attack_lookup@.len() == index,
            forall|i: int|
                0 <= i < index ==> (#[trigger] ray_attack_lookup@[i])@ == pawn_attacks(
                    ChessCell::spec_from_index(i as usize),
                    color.spec_signum() as int,
                ),
        decreases 64 - index,
    {
        let cell = ChessCell::from_index(index);
        let rank = (cell.0 as i32 + forward) as usize;
        let left = ChessCell(rank, cell.1 - 1);
        let right = ChessCell(rank, cell.1 + 1);
        let mut filtered_attacked_squares: Vec<usize> = Vec::new();
        if !left.is_aether() {
            filtered_attacked_squares.push(left.as_index());
        }
        if !right.is_aether() {
            filtered_attacked_squares.push(right.as_index());
        }
        proof {
            assert(filtered_attacked_squares@ =~= pawn_attacks(cell, color.spec_signum() as int));
        }
        ray_attack_lookup.push(filtered_attacked_squares);
        index += 1;
    }
    proof {
        assert forall|index: int, to: usize| 0 <= index < 64 && to < 64 implies (
        #[trigger] ray_attack_lookup@[index]@.contains(to) <==> bit_is_set(
            spec_attack_mask(Piece { color, kind: PieceKind::Pawn }, index as usize),
            to as u64,
        )) by {
            lemma_pawn_attacks(color, index as usize, to);
        }
    }
    ray_attack_lookup
}

/// The cells that a White pawn attacks from each cell of the playing
/// area: one rank up, one file aside.
pub fn _generate_white_pawn_ray_attacks() -> (r: Vec<Vec<usize>>)
    ensures
        r@.len() == 64,
        forall|index: int|
            0 <= index < 64 ==> (#[trigger] r@[index])@ == pawn_attacks(
                ChessCell::spec_from_index(index as usize),
                1,
            ),
        forall|index: int, to: usize|
            0 <= index < 64 && to < 64 ==> (#[trigger] r@[index]@.contains(to) <==> bit_is_set(
                WHITE_PAWN_RAY_ATTACKS[index],
                to as u64,
            )),
{
    generate_pawn_ray_attacks(PieceColor::White)
}

/// The cells that a Black pawn attacks from each cell of the playing
/// area: one rank down, one file aside.
pub fn _generate_black_pawn_ray_attacks() -> (r: Vec<Vec<usize>>)
    ensures
        r@.len() == 64,
        forall|index: int|
            0 <= index < 64 ==> (#[trigger] r@[index])@ == pawn_attacks(
                ChessCell::spec_from_index(index as usize),
                -1,
            ),
        forall|index: int, to: usize|
            0 <= index < 64 && to < 64 ==> (#[trigger] r@[index]@.contains(to) <==> bit_is_set(
                BLACK_PAWN_RAY_ATTACKS[index],
                to as u64,
            )),
{
    generate_pawn_ray_attacks(PieceColor::Black)
}

/// For each cell, the cells that a White pawn attacks from there on an empty board.
pub const WHITE_PAWN_RAY_ATTACKS: [u64; 64] = [
    0x0000000000000200,
    0x0000000000000500,
    0x0000000000000a00,
    0x0000000000001400,
    0x0000000000002800,
    0x0000000000005000,
    0x000000000000a000,
    0x0000000000004000,
    0x0000000000020000,
    0x0000000000050000,
    0x00000000000a0000,
    0x0000000000140000,
    0x0000000000280000,
    0x0000000000500000,
    0x0000000000a00000,
    0x0000000000400000,
    0x0000000002000000,
    0x0000000005000000,
    0x000000000a000000,
    0x0000000014000000,
    0x0000000028000000,
    0x0000000050000000,
    0x00000000a0000000,
    0x0000000040000000,
    0x0000000200000000,
    0x0000000500000000,
    0x0000000a00000000,
    0x0000001400000000,
    0x0000002800000000,
    0x0000005000000000,
    0x000000a000000000,
    0x0000004000000000,
    0x0000020000000000,
    0x0000050000000000,
    0x00000a0000000000,
    0x0000140000000000,
    0x0000280000000000,
    0x0000500000000000,
    0x0000a00000000000,
    0x0000400000000000,
    0x0002000000000000,
    0x0005000000000000,
    0x000a000000000000,
    0x0014000000000000,
    0x0028000000000000,
    0x0050000000000000,
    0x00a0000000000000,
    0x0040000000000000,
    0x0200000000000000,
    0x0500000000000000,
    0x0a00000000000000,
    0x1400000000000000,
    0x2800000000000000,
    0x5000000000000000,
    0xa000000000000000,
    0x4000000000000000,
    0x0000000000000000,
    0x0000000000000000,
    0x0000000000000000,
    0x0000000000000000,
    0x0000000000000000,
    0x0000000000000000,
    0x0000000000000000,
    0x0000000000000000,
];

/// For each cell, the cells that a Black pawn attacks from there on an empty board.
pub const BLACK_PAWN_RAY_ATTACKS: [u64; 64] = [
    0x0000000000000000,
    0x0000000000000000,
    0x0000000000000000,
    0x0000000000000000,
    0x0000000000000000,
    0x0000000000000000,
    0x0000000000000000,
    0x0000000000000000,
    0x0000000000000002,
    0x0000000000000005,
    0x000000000000000a,
    0x0000000000000014,
    0x0000000000000028,
    0x0000000000000050,
    0x00000000000000a0,
    0x0000000000000040,
    0x0000000000000200,
    0x0000000000000500,
    0x0000000000000a00,
    0x0000000000001400,
    0x0000000000002800,
    0x0000000000005000,
    0x000000000000a000,
    0x0000000000004000,
    0x0000000000020000,
    0x0000000000050000,
    0x00000000000a0000,
    0x0000000000140000,
    0x0000000000280000,
    0x0000000000500000,
    0x0000000000a00000,
    0x0000000000400000,
    0x0000000002000000,
    0x0000000005000000,
    0x000000000a000000,
    0x0000000014000000,
    0x0000000028000000,
    0x0000000050000000,
    0x00000000a0000000,
    0x0000000040000000,
    0x0000000200000000,
    0x0000000500000000,
    0x0000000a00000000,
    0x0000001400000000,
    0x0000002800000000,
    0x0000005000000000,
    0x000000a000000000,
    0x0000004000000000,
    0x0000020000000000,
    0x0000050000000000,
    0x00000a0000000000,
    0x0000140000000000,
    0x0000280000000000,
    0x0000500000000000,
    0x0000a00000000000,
    0x0000400000000000,
    0x0002000000000000,
    0x0005000000000000,
    0x000a000000000000,
    0x0014000000000000,
    0x0028000000000000,
    0x0050000000000000,
    0x00a0000000000000,
    0x0040000000000000,
];

/// For each cell, the cells that a knight reaches from there on an empty board.
pub const KNIGHT_RAY_ATTACKS: [u64; 64] = [
    0x0000000000020400,
    0x0000000000050800,
    0x00000000000a1100,
    0x0000000000142200,
    0x0000000000284400,
    0x0000000000508800,
    0x0000000000a01000,
    0x0000000000402000,
    0x0000000002040004,
    0x0000000005080008,
    0x000000000a110011,
    0x0000000014220022,
    0x0000000028440044,
    0x0000000050880088,
    0x00000000a0100010,
    0x0000000040200020,
    0x0000000204000402,
    0x0000000508000805,
    0x0000000a1100110a,
    0x0000001422002214,
    0x0000002844004428,
    0x0000005088008850,
    0x000000a0100010a0,
    0x0000004020002040,
    0x0000020400040200,
    0x0000050800080500,
    0x00000a1100110a00,
    0x0000142200221400,
    0x0000284400442800,
    0x0000508800885000,
    0x0000a0100010a000,
    0x0000402000204000,
    0x0002040004020000,
    0x0005080008050000,
    0x000a1100110a0000,
    0x0014220022140000,
    0x0028440044280000,
    0x0050880088500000,
    0x00a0100010a00000,
    0x0040200020400000,
    0x0204000402000000,
    0x0508000805000000,
    0x0a1100110a000000,
    0x1422002214000000,
    0x2844004428000000,
    0x5088008850000000,
    0xa0100010a0000000,
    0x4020002040000000,
    0x0400040200000000,
    0x0800080500000000,
    0x1100110a00000000,
    0x2200221400000000,
    0x4400442800000000,
    0x8800885000000000,
    0x100010a000000000,
    0x2000204000000000,
    0x0004020000000000,
    0x0008050000000000,
    0x00110a0000000000,
    0x0022140000000000,
    0x0044280000000000,
    0x0088500000000000,
    0x0010a00000000000,
    0x0020400000000000,
];

/// For each cell, the cells that a bishop reaches from there on an empty board.
pub const BISHOP_RAY_ATTACKS: [u64; 64] = [
    0x8040201008040200,
    0x0080402010080500,
    0x0000804020110a00,
    0x0000008041221400,
    0x0000000182442800,
    0x0000010204885000,
    0x000102040810a000,
    0x0102040810204000,
    0x4020100804020002,
    0x8040201008050005,
    0x00804020110a000a,
    0x0000804122140014,
    0x0000018244280028,
    0x0001020488500050,
    0x0102040810a000a0,
    0x0204081020400040,
    0x2010080402000204,
    0x4020100805000508,
    0x804020110a000a11,
    0x0080412214001422,
    0x0001824428002844,
    0x0102048850005088,
    0x02040810a000a010,
    0x0408102040004020,
    0x1008040200020408,
    0x2010080500050810,
    0x4020110a000a1120,
    0x8041221400142241,
    0x0182442800284482,
    0x0204885000508804,
    0x040810a000a01008,
    0x0810204000402010,
    0x0804020002040810,
    0x1008050005081020,
    0x20110a000a112040,
    0x4122140014224180,
    0x8244280028448201,
    0x0488500050880402,
    0x0810a000a0100804,
    0x1020400040201008,
    0x0402000204081020,
    0x0805000508102040,
    0x110a000a11204080,
    0x2214001422418000,
    0x4428002844820100,
    0x8850005088040201,
    0x10a000a010080402,
    0x2040004020100804,
    0x0200020408102040,
    0x0500050810204080,
    0x0a000a1120408000,
    0x1400142241800000,
    0x2800284482010000,
    0x5000508804020100,
    0xa000a01008040201,
    0x4000402010080402,
    0x0002040810204080,
    0x0005081020408000,
    0x000a112040800000,
    0x0014224180000000,
    0x0028448201000000,
    0x0050880402010000,
    0x00a0100804020100,
    0x0040201008040201,
];

/// For each cell, the cells that a rook reaches from there on an empty board.
pub const ROOK_RAY_ATTACKS: [u64; 64] = [
    0x01010101010101fe,
    0x02020202020202fd,
    0x04040404040404fb,
    0x08080808080808f7,
    0x10101010101010ef,
    0x20202020202020df,
    0x40404040404040bf,
    0x808080808080807f,
    0x010101010101fe01,
    0x020202020202fd02,
    0x040404040404fb04,
    0x080808080808f708,
    0x101010101010ef10,
    0x202020202020df20,
    0x404040404040bf40,
    0x8080808080807f80,
    0x0101010101fe0101,
    0x0202020202fd0202,
    0x0404040404fb0404,
    0x0808080808f70808,
    0x1010101010ef1010,
    0x2020202020df2020,
    0x4040404040bf4040,
    0x80808080807f8080,
    0x01010101fe010101,
    0x02020202fd020202,
    0x04040404fb040404,
    0x08080808f7080808,
    0x10101010ef101010,
    0x20202020df202020,
    0x40404040bf404040,
    0x808080807f808080,
    0x010101fe01010101,
    0x020202fd02020202,
    0x040404fb04040404,
    0x080808f708080808,
    0x101010ef10101010,
    0x202020df20202020,
    0x404040bf40404040,
    0x8080807f80808080,
    0x0101fe0101010101,
    0x0202fd0202020202,
    0x0404fb0404040404,
    0x0808f70808080808,
    0x1010ef1010101010,
    0x2020df2020202020,
    0x4040bf4040404040,
    0x80807f8080808080,
    0x01fe010101010101,
    0x02fd020202020202,
    0x04fb040404040404,
    0x08f7080808080808,
    0x10ef101010101010,
    0x20df202020202020,
    0x40bf404040404040,
    0x807f808080808080,
    0xfe01010101010101,
    0xfd02020202020202,
    0xfb04040404040404,
    0xf708080808080808,
    0xef10101010101010,
    0xdf20202020202020,
    0xbf40404040404040,
    0x7f80808080808080,
];

/// For each cell, the cells that a queen reaches from there on an empty board.
pub const QUEEN_RAY_ATTACKS: [u64; 64] = [
    0x81412111090503fe,
    0x02824222120a07fd,
    0x0404844424150efb,
    0x08080888492a1cf7,
    0x10101011925438ef,
    0x2020212224a870df,
    0x404142444850e0bf,
    0x8182848890a0c07f,
    0x412111090503fe03,
    0x824222120a07fd07,
    0x04844424150efb0e,
    0x080888492a1cf71c,
    0x101011925438ef38,
    0x20212224a870df70,
    0x4142444850e0bfe0,
    0x82848890a0c07fc0,
    0x2111090503fe0305,
    0x4222120a07fd070a,
    0x844424150efb0e15,
    0x0888492a1cf71c2a,
    0x1011925438ef3854,
    0x212224a870df70a8,
    0x42444850e0bfe050,
    0x848890a0c07fc0a0,
    0x11090503fe030509,
    0x22120a07fd070a12,
    0x4424150efb0e1524,
    0x88492a1cf71c2a49,
    0x11925438ef385492,
    0x2224a870df70a824,
    0x444850e0bfe05048,
    0x8890a0c07fc0a090,
    0x090503fe03050911,
    0x120a07fd070a1222,
    0x24150efb0e152444,
    0x492a1cf71c2a4988,
    0x925438ef38549211,
    0x24a870df70a82422,
    0x4850e0bfe0504844,
    0x90a0c07fc0a09088,
    0x0503fe0305091121,
    0x0a07fd070a122242,
    0x150efb0e15244484,
    0x2a1cf71c2a498808,
    0x5438ef3854921110,
    0xa870df70a8242221,
    0x50e0bfe050484442,
    0xa0c07fc0a0908884,
    0x03fe030509112141,
    0x07fd070a12224282,
    0x0efb0e1524448404,
    0x1cf71c2a49880808,
    0x38ef385492111010,
    0x70df70a824222120,
    0xe0bfe05048444241,
    0xc07fc0a090888482,
    0xfe03050911214181,
    0xfd070a1222428202,
    0xfb0e152444840404,
    0xf71c2a4988080808,
    0xef38549211101010,
    0xdf70a82422212020,
    0xbfe0504844424140,
    0x7fc0a09088848281,
];

/// For each cell, the cells that a king reaches from there on an empty board.
pub const KING_RAY_ATTACKS: [u64; 64] = [
    0x0000000000000302,
    0x0000000000000705,
    0x0000000000000e0a,
    0x0000000000001c14,
    0x0000000000003828,
    0x0000000000007050,
    0x000000000000e0a0,
    0x000000000000c040,
    0x0000000000030203,
    0x0000000000070507,
    0x00000000000e0a0e,
    0x00000000001c141c,
    0x0000000000382838,
    0x0000000000705070,
    0x0000000000e0a0e0,
    0x0000000000c040c0,
    0x0000000003020300,
    0x0000000007050700,
    0x000000000e0a0e00,
    0x000000001c141c00,
    0x0000000038283800,
    0x0000000070507000,
    0x00000000e0a0e000,
    0x00000000c040c000,
    0x0000000302030000,
    0x0000000705070000,
    0x0000000e0a0e0000,
    0x0000001c141c0000,
    0x0000003828380000,
    0x0000007050700000,
    0x000000e0a0e00000,
    0x000000c040c00000,
    0x0000030203000000,
    0x0000070507000000,
    0x00000e0a0e000000,
    0x00001c141c000000,
    0x0000382838000000,
    0x0000705070000000,
    0x0000e0a0e0000000,
    0x0000c040c0000000,
    0x0003020300000000,
    0x0007050700000000,
    0x000e0a0e00000000,
    0x001c141c00000000,
    0x0038283800000000,
    0x0070507000000000,
    0x00e0a0e000000000,
    0x00c040c000000000,
    0x0302030000000000,
    0x0705070000000000,
    0x0e0a0e0000000000,
    0x1c141c0000000000,
    0x3828380000000000,
    0x7050700000000000,
    0xe0a0e00000000000,
    0xc040c00000000000,
    0x0203000000000000,
    0x0507000000000000,
    0x0a0e000000000000,
    0x141c000000000000,
    0x2838000000000000,
    0x5070000000000000,
    0xa0e0000000000000,
    0x40c0000000000000,
];

/// The white pawn table once more, as a function of the index, for the proof
/// that follows.
spec fn white_pawn_entry(i: u64) -> u64 {
    if i == 0 {
        0x0000000000000200
    } else if i == 1 {
        0x0000000000000500
    } else if i == 2 {
        0x0000000000000a00
    } else if i == 3 {
        0x0000000000001400
    } else if i == 4 {
        0x0000000000002800
    } else if i == 5 {
        0x0000000000005000
    } else if i == 6 {
        0x000000000000a000
    } else if i == 7 {
        0x0000000000004000
    } else if i == 8 {
        0x0000000000020000
    } else if i == 9 {
        0x0000000000050000
    } else if i == 10 {
        0x00000000000a0000
    } else if i == 11 {
        0x0000000000140000
    } else if i == 12 {
        0x0000000000280000
    } else if i == 13 {
        0x0000000000500000
    } else if i == 14 {
        0x0000000000a00000
    } else if i == 15 {
        0x0000000000400000
    } else if i == 16 {
        0x0000000002000000
    } else if i == 17 {
        0x0000000005000000
    } else if i == 18 {
        0x000000000a000000
    } else if i == 19 {
        0x0000000014000000
    } else if i == 20 {
        0x0000000028000000
    } else if i == 21 {
        0x0000000050000000
    } else if i == 22 {
        0x00000000a0000000
    } else if i == 23 {
        0x0000000040000000
    } else if i == 24 {
        0x0000000200000000
    } else if i == 25 {
        0x0000000500000000
    } else if i == 26 {
        0x0000000a00000000
    } else if i == 27 {
        0x0000001400000000
    } else if i == 28 {
        0x0000002800000000
    } else if i == 29 {
        0x0000005000000000
    } else if i == 30 {
        0x000000a000000000
    } else if i == 31 {
        0x0000004000000000
    } else if i == 32 {
        0x0000020000000000
    } else if i == 33 {
        0x0000050000000000
    } else if i == 34 {
        0x00000a0000000000
    } else if i == 35 {
        0x0000140000000000
    } else if i == 36 {
        0x0000280000000000
    } else if i == 37 {
        0x0000500000000000
    } else if i == 38 {
        0x0000a00000000000
    } else if i == 39 {
        0x0000400000000000
    } else if i == 40 {
        0x0002000000000000
    } else if i == 41 {
        0x0005000000000000
    } else if i == 42 {
        0x000a000000000000
    } else if i == 43 {
        0x0014000000000000
    } else if i == 44 {
        0x0028000000000000
    } else if i == 45 {
        0x0050000000000000
    } else if i == 46 {
        0x00a0000000000000
    } else if i == 47 {
        0x0040000000000000
    } else if i == 48 {
        0x0200000000000000
    } else if i == 49 {
        0x0500000000000000
    } else if i == 50 {
        0x0a00000000000000
    } else if i == 51 {
        0x1400000000000000
    } else if i == 52 {
        0x2800000000000000
    } else if i == 53 {
        0x5000000000000000
    } else if i == 54 {
        0xa000000000000000
    } else if i == 55 {
        0x4000000000000000
    } else if i == 56 {
        0x0000000000000000
    } else if i == 57 {
        0x0000000000000000
    } else if i == 58 {
        0x0000000000000000
    } else if i == 59 {
        0x0000000000000000
    } else if i == 60 {
        0x0000000000000000
    } else if i == 61 {
        0x0000000000000000
    } else if i == 62 {
        0x0000000000000000
    } else {
        0x0000000000000000
    }
}

proof fn lemma_white_pawn_entry(from: u64, to: u64)
    by (bit_vector)
    requires
        from < 64,
        to < 64,
    ensures
        bit_is_set(white_pawn_entry(from), to) <==> white_pawn_reach(from, to),
{
}

/// The black pawn table once more, as a function of the index, for the proof
/// that follows.
spec fn black_pawn_entry(i: u64) -> u64 {
    if i == 0 {
        0x0000000000000000
    } else if i == 1 {
        0x0000000000000000
    } else if i == 2 {
        0x0000000000000000
    } else if i == 3 {
        0x0000000000000000
    } else if i == 4 {
        0x0000000000000000
    } else if i == 5 {
        0x0000000000000000
    } else if i == 6 {
        0x0000000000000000
    } else if i == 7 {
        0x0000000000000000
    } else if i == 8 {
        0x0000000000000002
    } else if i == 9 {
        0x0000000000000005
    } else if i == 10 {
        0x000000000000000a
    } else if i == 11 {
        0x0000000000000014
    } else if i == 12 {
        0x0000000000000028
    } else if i == 13 {
        0x0000000000000050
    } else if i == 14 {
        0x00000000000000a0
    } else if i == 15 {
        0x0000000000000040
    } else if i == 16 {
        0x0000000000000200
    } else if i == 17 {
        0x0000000000000500
    } else if i == 18 {
        0x0000000000000a00
    } else if i == 19 {
        0x0000000000001400
    } else if i == 20 {
        0x0000000000002800
    } else if i == 21 {
        0x0000000000005000
    } else if i == 22 {
        0x000000000000a000
    } else if i == 23 {
        0x0000000000004000
    } else if i == 24 {
        0x0000000000020000
    } else if i == 25 {
        0x0000000000050000
    } else if i == 26 {
        0x00000000000a0000
    } else if i == 27 {
        0x0000000000140000
    } else if i == 28 {
        0x0000000000280000
    } else if i == 29 {
        0x0000000000500000
    } else if i == 30 {
        0x0000000000a00000
    } else if i == 31 {
        0x0000000000400000
    } else if i == 32 {
        0x0000000002000000
    } else if i == 33 {
        0x0000000005000000
    } else if i == 34 {
        0x000000000a000000
    } else if i == 35 {
        0x0000000014000000
    } else if i == 36 {
        0x0000000028000000
    } else if i == 37 {
        0x0000000050000000
    } else if i == 38 {
        0x00000000a0000000
    } else if i == 39 {
        0x0000000040000000
    } else if i == 40 {
        0x0000000200000000
    } else if i == 41 {
        0x0000000500000000
    } else if i == 42 {
        0x0000000a00000000
    } else if i == 43 {
        0x0000001400000000
    } else if i == 44 {
        0x0000002800000000
    } else if i == 45 {
        0x0000005000000000
    } else if i == 46 {
        0x000000a000000000
    } else if i == 47 {
        0x0000004000000000
    } else if i == 48 {
        0x0000020000000000
    } else if i == 49 {
        0x0000050000000000
    } else if i == 50 {
        0x00000a0000000000
    } else if i == 51 {
        0x0000140000000000
    } else if i == 52 {
        0x0000280000000000
    } else if i == 53 {
        0x0000500000000000
    } else if i == 54 {
        0x0000a00000000000
    } else if i == 55 {
        0x0000400000000000
    } else if i == 56 {
        0x0002000000000000
    } else if i == 57 {
        0x0005000000000000
    } else if i == 58 {
        0x000a000000000000
    } else if i == 59 {
        0x0014000000000000
    } else if i == 60 {
        0x0028000000000000
    } else if i == 61 {
        0x0050000000000000
    } else if i == 62 {
        0x00a0000000000000
    } else {
        0x0040000000000000
    }
}

proof fn lemma_black_pawn_entry(from: u64, to: u64)
    by (bit_vector)
    requires
        from < 64,
        to < 64,
    ensures
        bit_is_set(black_pawn_entry(from), to) <==> black_pawn_reach(from, to),
{
}

/// The knight table once more, as a function of the index, for the proof
/// that follows.
spec fn knight_entry(i: u64) -> u64 {
    if i == 0 {
        0x0000000000020400
    } else if i == 1 {
        0x0000000000050800
    } else if i == 2 {
        0x00000000000a1100
    } else if i == 3 {
        0x0000000000142200
    } else if i == 4 {
        0x0000000000284400
    } else if i == 5 {
        0x0000000000508800
    } else if i == 6 {
        0x0000000000a01000
    } else if i == 7 {
        0x0000000000402000
    } else if i == 8 {
        0x0000000002040004
    } else if i == 9 {
        0x0000000005080008
    } else if i == 10 {
        0x000000000a110011
    } else if i == 11 {
        0x0000000014220022
    } else if i == 12 {
        0x0000000028440044
    } else if i == 13 {
        0x0000000050880088
    } else if i == 14 {
        0x00000000a0100010
    } else if i == 15 {
        0x0000000040200020
    } else if i == 16 {
        0x0000000204000402
    } else if i == 17 {
        0x0000000508000805
    } else if i == 18 {
        0x0000000a1100110a
    } else if i == 19 {
        0x0000001422002214
    } else if i == 20 {
        0x0000002844004428
    } else if i == 21 {
        0x0000005088008850
    } else if i == 22 {
        0x000000a0100010a0
    } else if i == 23 {
        0x0000004020002040
    } else if i == 24 {
        0x0000020400040200
    } else if i == 25 {
        0x0000050800080500
    } else if i == 26 {
        0x00000a1100110a00
    } else if i == 27 {
        0x0000142200221400
    } else if i == 28 {
        0x0000284400442800
    } else if i == 29 {
        0x0000508800885000
    } else if i == 30 {
        0x0000a0100010a000
    } else if i == 31 {
        0x0000402000204000
    } else if i == 32 {
        0x0002040004020000
    } else if i == 33 {
        0x0005080008050000
    } else if i == 34 {
        0x000a1100110a0000
    } else if i == 35 {
        0x0014220022140000
    } else if i == 36 {
        0x0028440044280000
    } else if i == 37 {
        0x0050880088500000
    } else if i == 38 {
        0x00a0100010a00000
    } else if i == 39 {
        0x0040200020400000
    } else if i == 40 {
        0x0204000402000000
    } else if i == 41 {
        0x0508000805000000
    } else if i == 42 {
        0x0a1100110a000000
    } else if i == 43 {
        0x1422002214000000
    } else if i == 44 {
        0x2844004428000000
    } else if i == 45 {
        0x5088008850000000
    } else if i == 46 {
        0xa0100010a0000000
    } else if i == 47 {
        0x4020002040000000
    } else if i == 48 {
        0x0400040200000000
    } else if i == 49 {
        0x0800080500000000
    } else if i == 50 {
        0x1100110a00000000
    } else if i == 51 {
        0x2200221400000000
    } else if i == 52 {
        0x4400442800000000
    } else if i == 53 {
        0x8800885000000000
    } else if i == 54 {
        0x100010a000000000
    } else if i == 55 {
        0x2000204000000000
    } else if i == 56 {
        0x0004020000000000
    } else if i == 57 {
        0x0008050000000000
    } else if i == 58 {
        0x00110a0000000000
    } else if i == 59 {
        0x0022140000000000
    } else if i == 60 {
        0x0044280000000000
    } else if i == 61 {
        0x0088500000000000
    } else if i == 62 {
        0x0010a00000000000
    } else {
        0x0020400000000000
    }
}

proof fn lemma_knight_entry(from: u64, to: u64)
    by (bit_vector)
    requires
        from < 64,
        to < 64,
    ensures
        bit_is_set(knight_entry(from), to) <==> knight_reach(from, to),
{
}

/// The bishop table once more, as a function of the index, for the proof
/// that follows.
spec fn bishop_entry(i: u64) -> u64 {
    if i == 0 {
        0x8040201008040200
    } else if i == 1 {
        0x0080402010080500
    } else if i == 2 {
        0x0000804020110a00
    } else if i == 3 {
        0x0000008041221400
    } else if i == 4 {
        0x0000000182442800
    } else if i == 5 {
        0x0000010204885000
    } else if i == 6 {
        0x000102040810a000
    } else if i == 7 {
        0x0102040810204000
    } else if i == 8 {
        0x4020100804020002
    } else if i == 9 {
        0x8040201008050005
    } else if i == 10 {
        0x00804020110a000a
    } else if i == 11 {
        0x0000804122140014
    } else if i == 12 {
        0x0000018244280028
    } else if i == 13 {
        0x0001020488500050
    } else if i == 14 {
        0x0102040810a000a0
    } else if i == 15 {
        0x0204081020400040
    } else if i == 16 {
        0x2010080402000204
    } else if i == 17 {
        0x4020100805000508
    } else if i == 18 {
        0x804020110a000a11
    } else if i == 19 {
        0x0080412214001422
    } else if i == 20 {
        0x0001824428002844
    } else if i == 21 {
        0x0102048850005088
    } else if i == 22 {
        0x02040810a000a010
    } else if i == 23 {
        0x0408102040004020
    } else if i == 24 {
        0x1008040200020408
    } else if i == 25 {
        0x2010080500050810
    } else if i == 26 {
        0x4020110a000a1120
    } else if i == 27 {
        0x8041221400142241
    } else if i == 28 {
        0x0182442800284482
    } else if i == 29 {
        0x0204885000508804
    } else if i == 30 {
        0x040810a000a01008
    } else if i == 31 {
        0x0810204000402010
    } else if i == 32 {
        0x0804020002040810
    } else if i == 33 {
        0x1008050005081020
    } else if i == 34 {
        0x20110a000a112040
    } else if i == 35 {
        0x4122140014224180
    } else if i == 36 {
        0x8244280028448201
    } else if i == 37 {
        0x0488500050880402
    } else if i == 38 {
        0x0810a000a0100804
    } else if i == 39 {
        0x1020400040201008
    } else if i == 40 {
        0x0402000204081020
    } else if i == 41 {
        0x0805000508102040
    } else if i == 42 {
        0x110a000a11204080
    } else if i == 43 {
        0x2214001422418000
    } else if i == 44 {
        0x4428002844820100
    } else if i == 45 {
        0x8850005088040201
    } else if i == 46 {
        0x10a000a010080402
    } else if i == 47 {
        0x2040004020100804
    } else if i == 48 {
        0x0200020408102040
    } else if i == 49 {
        0x0500050810204080
    } else if i == 50 {
        0x0a000a1120408000
    } else if i == 51 {
        0x1400142241800000
    } else if i == 52 {
        0x2800284482010000
    } else if i == 53 {
        0x5000508804020100
    } else if i == 54 {
        0xa000a01008040201
    } else if i == 55 {
        0x4000402010080402
    } else if i == 56 {
        0x0002040810204080
    } else if i == 57 {
        0x0005081020408000
    } else if i == 58 {
        0x000a112040800000
    } else if i == 59 {
        0x0014224180000000
    } else if i == 60 {
        0x0028448201000000
    } else if i == 61 {
        0x0050880402010000
    } else if i == 62 {
        0x00a0100804020100
    } else {
        0x0040201008040201
    }
}

proof fn lemma_bishop_entry(from: u64, to: u64)
    by (bit_vector)
    requires
        from < 64,
        to < 64,
    ensures
        bit_is_set(bishop_entry(from), to) <==> bishop_reach(from, to),
{
}

/// The rook table once more, as a function of the index, for the proof
/// that follows.
spec fn rook_entry(i: u64) -> u64 {
    if i == 0 {
        0x01010101010101fe
    } else if i == 1 {
        0x02020202020202fd
    } else if i == 2 {
        0x04040404040404fb
    } else if i == 3 {
        0x08080808080808f7
    } else if i == 4 {
        0x10101010101010ef
    } else if i == 5 {
        0x20202020202020df
    } else if i == 6 {
        0x40404040404040bf
    } else if i == 7 {
        0x808080808080807f
    } else if i == 8 {
        0x010101010101fe01
    } else if i == 9 {
        0x020202020202fd02
    } else if i == 10 {
        0x040404040404fb04
    } else if i == 11 {
        0x080808080808f708
    } else if i == 12 {
        0x101010101010ef10
    } else if i == 13 {
        0x202020202020df20
    } else if i == 14 {
        0x404040404040bf40
    } else if i == 15 {
        0x8080808080807f80
    } else if i == 16 {
        0x0101010101fe0101
    } else if i == 17 {
        0x0202020202fd0202
    } else if i == 18 {
        0x0404040404fb0404
    } else if i == 19 {
        0x0808080808f70808
    } else if i == 20 {
        0x1010101010ef1010
    } else if i == 21 {
        0x2020202020df2020
    } else if i == 22 {
        0x4040404040bf4040
    } else if i == 23 {
        0x80808080807f8080
    } else if i == 24 {
        0x01010101fe010101
    } else if i == 25 {
        0x02020202fd020202
    } else if i == 26 {
        0x04040404fb040404
    } else if i == 27 {
        0x08080808f7080808
    } else if i == 28 {
        0x10101010ef101010
    } else if i == 29 {
        0x20202020df202020
    } else if i == 30 {
        0x40404040bf404040
    } else if i == 31 {
        0x808080807f808080
    } else if i == 32 {
        0x010101fe01010101
    } else if i == 33 {
        0x020202fd02020202
    } else if i == 34 {
        0x040404fb04040404
    } else if i == 35 {
        0x080808f708080808
    } else if i == 36 {
        0x101010ef10101010
    } else if i == 37 {
        0x202020df20202020
    } else if i == 38 {
        0x404040bf40404040
    } else if i == 39 {
        0x8080807f80808080
    } else if i == 40 {
        0x0101fe0101010101
    } else if i == 41 {
        0x0202fd0202020202
    } else if i == 42 {
        0x0404fb0404040404
    } else if i == 43 {
        0x0808f70808080808
    } else if i == 44 {
        0x1010ef1010101010
    } else if i == 45 {
        0x2020df2020202020
    } else if i == 46 {
        0x4040bf4040404040
    } else if i == 47 {
        0x80807f8080808080
    } else if i == 48 {
        0x01fe010101010101
    } else if i == 49 {
        0x02fd020202020202
    } else if i == 50 {
        0x04fb040404040404
    } else if i == 51 {
        0x08f7080808080808
    } else if i == 52 {
        0x10ef101010101010
    } else if i == 53 {
        0x20df202020202020
    } else if i == 54 {
        0x40bf404040404040
    } else if i == 55 {
        0x807f808080808080
    } else if i == 56 {
        0xfe01010101010101
    } else if i == 57 {
        0xfd02020202020202
    } else if i == 58 {
        0xfb04040404040404
    } else if i == 59 {
        0xf708080808080808
    } else if i == 60 {
        0xef10101010101010
    } else if i == 61 {
        0xdf20202020202020
    } else if i == 62 {
        0xbf40404040404040
    } else {
        0x7f80808080808080
    }
}

proof fn lemma_rook_entry(from: u64, to: u64)
    by (bit_vector)
    requires
        from < 64,
        to < 64,
    ensures
        bit_is_set(rook_entry(from), to) <==> rook_reach(from, to),
{
}

/// The queen table once more, as a function of the index, for the proof
/// that follows.
spec fn queen_entry(i: u64) -> u64 {
    if i == 0 {
        0x81412111090503fe
    } else if i == 1 {
        0x02824222120a07fd
    } else if i == 2 {
        0x0404844424150efb
    } else if i == 3 {
        0x08080888492a1cf7
    } else if i == 4 {
        0x10101011925438ef
    } else if i == 5 {
        0x2020212224a870df
    } else if i == 6 {
        0x404142444850e0bf
    } else if i == 7 {
        0x8182848890a0c07f
    } else if i == 8 {
        0x412111090503fe03
    } else if i == 9 {
        0x824222120a07fd07
    } else if i == 10 {
        0x04844424150efb0e
    } else if i == 11 {
        0x080888492a1cf71c
    } else if i == 12 {
        0x101011925438ef38
    } else if i == 13 {
        0x20212224a870df70
    } else if i == 14 {
        0x4142444850e0bfe0
    } else if i == 15 {
        0x82848890a0c07fc0
    } else if i == 16 {
        0x2111090503fe0305
    } else if i == 17 {
        0x4222120a07fd070a
    } else if i == 18 {
        0x844424150efb0e15
    } else if i == 19 {
        0x0888492a1cf71c2a
    } else if i == 20 {
        0x1011925438ef3854
    } else if i == 21 {
        0x212224a870df70a8
    } else if i == 22 {
        0x42444850e0bfe050
    } else if i == 23 {
        0x848890a0c07fc0a0
    } else if i == 24 {
        0x11090503fe030509
    } else if i == 25 {
        0x22120a07fd070a12
    } else if i == 26 {
        0x4424150efb0e1524
    } else if i == 27 {
        0x88492a1cf71c2a49
    } else if i == 28 {
        0x11925438ef385492
    } else if i == 29 {
        0x2224a870df70a824
    } else if i == 30 {
        0x444850e0bfe05048
    } else if i == 31 {
        0x8890a0c07fc0a090
    } else if i == 32 {
        0x090503fe03050911
    } else if i == 33 {
        0x120a07fd070a1222
    } else if i == 34 {
        0x24150efb0e152444
    } else if i == 35 {
        0x492a1cf71c2a4988
    } else if i == 36 {
        0x925438ef38549211
    } else if i == 37 {
        0x24a870df70a82422
    } else if i == 38 {
        0x4850e0bfe0504844
    } else if i == 39 {
        0x90a0c07fc0a09088
    } else if i == 40 {
        0x0503fe0305091121
    } else if i == 41 {
        0x0a07fd070a122242
    } else if i == 42 {
        0x150efb0e15244484
    } else if i == 43 {
        0x2a1cf71c2a498808
    } else if i == 44 {
        0x5438ef3854921110
    } else if i == 45 {
        0xa870df70a8242221
    } else if i == 46 {
        0x50e0bfe050484442
    } else if i == 47 {
        0xa0c07fc0a0908884
    } else if i == 48 {
        0x03fe030509112141
    } else if i == 49 {
        0x07fd070a12224282
    } else if i == 50 {
        0x0efb0e1524448404
    } else if i == 51 {
        0x1cf71c2a49880808
    } else if i == 52 {
        0x38ef385492111010
    } else if i == 53 {
        0x70df70a824222120
    } else if i == 54 {
        0xe0bfe05048444241
    } else if i == 55 {
        0xc07fc0a090888482
    } else if i == 56 {
        0xfe03050911214181
    } else if i == 57 {
        0xfd070a1222428202
    } else if i == 58 {
        0xfb0e152444840404
    } else if i == 59 {
        0xf71c2a4988080808
    } else if i == 60 {
        0xef38549211101010
    } else if i == 61 {
        0xdf70a82422212020
    } else if i == 62 {
        0xbfe0504844424140
    } else {
        0x7fc0a09088848281
    }
}

proof fn lemma_queen_entry(from: u64, to: u64)
    by (bit_vector)
    requires
        from < 64,
        to < 64,
    ensures
        bit_is_set(queen_entry(from), to) <==> queen_reach(from, to),
{
}

/// The king table once more, as a function of the index, for the proof
/// that follows.
spec fn king_entry(i: u64) -> u64 {
    if i == 0 {
        0x0000000000000302
    } else if i == 1 {
        0x0000000000000705
    } else if i == 2 {
        0x0000000000000e0a
    } else if i == 3 {
        0x0000000000001c14
    } else if i == 4 {
        0x0000000000003828
    } else if i == 5 {
        0x0000000000007050
    } else if i == 6 {
        0x000000000000e0a0
    } else if i == 7 {
        0x000000000000c040
    } else if i == 8 {
        0x0000000000030203
    } else if i == 9 {
        0x0000000000070507
    } else if i == 10 {
        0x00000000000e0a0e
    } else if i == 11 {
        0x00000000001c141c
    } else if i == 12 {
        0x0000000000382838
    } else if i == 13 {
        0x0000000000705070
    } else if i == 14 {
        0x0000000000e0a0e0
    } else if i == 15 {
        0x0000000000c040c0
    } else if i == 16 {
        0x0000000003020300
    } else if i == 17 {
        0x0000000007050700
    } else if i == 18 {
        0x000000000e0a0e00
    } else if i == 19 {
        0x000000001c141c00
    } else if i == 20 {
        0x0000000038283800
    } else if i == 21 {
        0x0000000070507000
    } else if i == 22 {
        0x00000000e0a0e000
    } else if i == 23 {
        0x00000000c040c000
    } else if i == 24 {
        0x0000000302030000
    } else if i == 25 {
        0x0000000705070000
    } else if i == 26 {
        0x0000000e0a0e0000
    } else if i == 27 {
        0x0000001c141c0000
    } else if i == 28 {
        0x0000003828380000
    } else if i == 29 {
        0x0000007050700000
    } else if i == 30 {
        0x000000e0a0e00000
    } else if i == 31 {
        0x000000c040c00000
    } else if i == 32 {
        0x0000030203000000
    } else if i == 33 {
        0x0000070507000000
    } else if i == 34 {
        0x00000e0a0e000000
    } else if i == 35 {
        0x00001c141c000000
    } else if i == 36 {
        0x0000382838000000
    } else if i == 37 {
        0x0000705070000000
    } else if i == 38 {
        0x0000e0a0e0000000
    } else if i == 39 {
        0x0000c040c0000000
    } else if i == 40 {
        0x0003020300000000
    } else if i == 41 {
        0x0007050700000000
    } else if i == 42 {
        0x000e0a0e00000000
    } else if i == 43 {
        0x001c141c00000000
    } else if i == 44 {
        0x0038283800000000
    } else if i == 45 {
        0x0070507000000000
    } else if i == 46 {
        0x00e0a0e000000000
    } else if i == 47 {
        0x00c040c000000000
    } else if i == 48 {
        0x0302030000000000
    } else if i == 49 {
        0x0705070000000000
    } else if i == 50 {
        0x0e0a0e0000000000
    } else if i == 51 {
        0x1c141c0000000000
    } else if i == 52 {
        0x3828380000000000
    } else if i == 53 {
        0x7050700000000000
    } else if i == 54 {
        0xe0a0e00000000000
    } else if i == 55 {
        0xc040c00000000000
    } else if i == 56 {
        0x0203000000000000
    } else if i == 57 {
        0x0507000000000000
    } else if i == 58 {
        0x0a0e000000000000
    } else if i == 59 {
        0x141c000000000000
    } else if i == 60 {
        0x2838000000000000
    } else if i == 61 {
        0x5070000000000000
    } else if i == 62 {
        0xa0e0000000000000
    } else {
        0x40c0000000000000
    }
}

proof fn lemma_king_entry(from: u64, to: u64)
    by (bit_vector)
    requires
        from < 64,
        to < 64,
    ensures
        bit_is_set(king_entry(from), to) <==> king_reach(from, to),
{
}

} // verus!
