use chess_engine::board_elements::{CastlingType, Piece, PieceColor, PieceKind};
use chess_engine::evaluation::{evaluate_piece, positional_value};
use chess_engine::ray_attacks::{
    _generate_big_piece_ray_attacks, _generate_black_pawn_ray_attacks,
    _generate_white_pawn_ray_attacks, attack_mask,
};
use chess_engine::zobrist_hashing::ZobristOracle;

fn cells_of(mask: u64) -> Vec<usize> {
    (0..64).filter(|index| (mask >> index) & 1 == 1).collect()
}

fn sorted(mut cells: Vec<usize>) -> Vec<usize> {
    cells.sort();
    cells
}

#[test]
fn tables_of_the_big_pieces_hold_what_the_pieces_reach_on_an_empty_board() {
    for kind in [
        PieceKind::Knight,
        PieceKind::Bishop,
        PieceKind::Rook,
        PieceKind::Queen,
        PieceKind::King,
    ] {
        let generated = _generate_big_piece_ray_attacks(kind);
        assert_eq!(generated.len(), 64);
        for index in 0..64 {
            for color in [PieceColor::White, PieceColor::Black] {
                assert_eq!(
                    sorted(generated[index].clone()),
                    cells_of(attack_mask(Piece { color, kind }, index))
                );
            }
        }
    }
}

#[test]
fn tables_of_the_pawns_hold_the_cells_that_the_pawns_attack() {
    let white = _generate_white_pawn_ray_attacks();
    let black = _generate_black_pawn_ray_attacks();
    for index in 0..64 {
        assert_eq!(white[index], cells_of(attack_mask(Piece::pawn(PieceColor::White), index)));
        assert_eq!(black[index], cells_of(attack_mask(Piece::pawn(PieceColor::Black), index)));
    }
    assert_eq!(white[0], vec![9]);
    assert_eq!(white[12], vec![19, 21]);
    assert_eq!(white[60], Vec::<usize>::new());
    assert_eq!(black[12], vec![3, 5]);
    assert_eq!(black[7], Vec::<usize>::new());
    assert_eq!(black[63], vec![54]);
}

#[test]
fn knight_and_rook_tables_near_the_corner() {
    assert_eq!(cells_of(attack_mask(Piece::knight(PieceColor::White), 0)), vec![10, 17]);
    assert_eq!(
        cells_of(attack_mask(Piece::king(PieceColor::Black), 9)),
        vec![0, 1, 2, 8, 10, 16, 17, 18]
    );
    assert_eq!(
        cells_of(attack_mask(Piece::rook(PieceColor::White), 0)),
        vec![1, 2, 3, 4, 5, 6, 7, 8, 16, 24, 32, 40, 48, 56]
    );
    assert_eq!(
        cells_of(attack_mask(Piece::bishop(PieceColor::White), 0)),
        vec![9, 18, 27, 36, 45, 54, 63]
    );
    assert_eq!(cells_of(attack_mask(Piece::queen(PieceColor::White), 27)).len(), 27);
}

#[test]
fn a_piece_is_worth_its_material_plus_its_placement() {
    assert_eq!(Piece::pawn(PieceColor::White).value(), 100);
    assert_eq!(Piece::knight(PieceColor::White).value(), 300);
    assert_eq!(Piece::bishop(PieceColor::Black).value(), 325);
    assert_eq!(Piece::rook(PieceColor::Black).value(), 500);
    assert_eq!(Piece::queen(PieceColor::White).value(), 900);
    assert_eq!(Piece::king(PieceColor::White).value(), 10000);
    let white_pawn = Piece::pawn(PieceColor::White);
    let black_pawn = Piece::pawn(PieceColor::Black);
    assert_eq!(positional_value(white_pawn, 28), 30);
    assert_eq!(positional_value(black_pawn, 35), 30);
    assert_eq!(positional_value(white_pawn, 48), 65);
    assert_eq!(positional_value(black_pawn, 8), 65);
    assert_eq!(positional_value(Piece::king(PieceColor::White), 6), 40);
    assert_eq!(positional_value(Piece::king(PieceColor::Black), 62), 50);
    assert_eq!(positional_value(Piece::knight(PieceColor::White), 0), -50);
    assert_eq!(evaluate_piece(white_pawn, 28), 130);
    assert_eq!(evaluate_piece(Piece::queen(PieceColor::White), 56), 890);
    for index in 0..64 {
        for kind in [
            PieceKind::Pawn,
            PieceKind::Knight,
            PieceKind::Bishop,
            PieceKind::Rook,
            PieceKind::Queen,
            PieceKind::King,
        ] {
            assert_eq!(
                positional_value(Piece { color: PieceColor::White, kind }, index),
                positional_value(Piece { color: PieceColor::Black, kind }, 63 - index)
            );
        }
    }
}

#[test]
fn every_piece_on_every_cell_has_a_string_of_its_own() {
    assert_eq!(ZobristOracle::black_to_move_bitstring(), 8876382254404422227);
    assert_eq!(
        ZobristOracle::castling_right_bitstring(CastlingType::WhiteKingSide),
        9252946648730652173
    );
    assert_eq!(
        ZobristOracle::castling_right_bitstring(CastlingType::BlackQueenSide),
        7587135690951589750
    );
    assert_eq!(ZobristOracle::en_passant_bitstring(2), 14681790476698478451);
    assert_eq!(ZobristOracle::en_passant_bitstring(4), 8192443764381849699);
    assert_eq!(
        ZobristOracle::piece_bitstring(Piece::pawn(PieceColor::White), 0),
        359208017975557256
    );
    assert_eq!(
        ZobristOracle::piece_bitstring(Piece::pawn(PieceColor::White), 1),
        12589318807296072540
    );
    assert_eq!(
        ZobristOracle::piece_bitstring(Piece::king(PieceColor::Black), 63),
        1554222515065551682
    );
    let mut seen = std::collections::HashSet::new();
    for color in [PieceColor::White, PieceColor::Black] {
        for kind in [
            PieceKind::Pawn,
            PieceKind::Knight,
            PieceKind::Bishop,
            PieceKind::Rook,
            PieceKind::Queen,
            PieceKind::King,
        ] {
            let piece = Piece { color, kind };
            assert_eq!(piece.index(), color.index() * 6 + kind.index());
            for index in 0..64 {
                assert!(seen.insert(ZobristOracle::piece_bitstring(piece, index)));
            }
        }
    }
    assert_eq!(seen.len(), 768);
}
