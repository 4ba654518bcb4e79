use std::str::FromStr;

use chess_engine::board_elements::{ChessCell, ChessMove, PieceColor};
use chess_engine::board_state::{get_bitboards, BoardState};
use chess_engine::constants::{
    A_FILE, BOARD_START, B_FILE, C_FILE, D_FILE, E_FILE, F_FILE, G_FILE, H_FILE, RANK_1, RANK_2,
    RANK_4, RANK_5, RANK_6, RANK_7, RANK_8,
};

#[test]
fn board_parse_chess_cell_from_valid_str_succeeds() {
    let parsed_cell: ChessCell = ChessCell::from_str("b4").unwrap();
    let cell = ChessCell(3 + BOARD_START, 1 + BOARD_START);
    assert_eq!(parsed_cell, cell);
}

#[test]
fn board_create_board_from_valid_fen_succeeds() {
    let fen_board_state: BoardState =
        BoardState::from_fen("rnbqkbnr/pppppppp/8/8/8/8/PPPPPPPP/RNBQKBNR w KQkq - 0 1").unwrap();
    let new_board_state: BoardState = BoardState::new_game();
    assert_eq!(fen_board_state.board, new_board_state.board);
    assert_eq!(fen_board_state.to_move, new_board_state.to_move);
    assert_eq!(
        fen_board_state.white_bitboard,
        new_board_state.white_bitboard
    );
    assert_eq!(
        fen_board_state.black_bitboard,
        new_board_state.black_bitboard
    );
    assert_eq!(
        fen_board_state.white_king_location,
        new_board_state.white_king_location
    );
    assert_eq!(
        fen_board_state.black_king_location,
        new_board_state.black_king_location
    );
    assert_eq!(fen_board_state.entropy_stack, new_board_state.entropy_stack);
}

#[test]
#[should_panic]
fn board_create_board_from_fen_with_invalid_length_panics() {
    BoardState::from_fen("rnbqkbnr/pppppppp/8/8/4P3/8/PPPP1PPP/RNBQKBNR KQkq e3 0 1").unwrap();
}

#[test]
#[should_panic]
fn board_state_create_board_from_fen_with_invalid_length_panics() {
    BoardState::from_fen("rnbqkbnr/pppppppp/8/8/4P3/8/PPPP1PPP/RNBQKBNR KQkq e3 0 1").unwrap();
}

#[test]
fn board_get_bitboards_returns_the_right_bitboards() {
    let board_state = BoardState::new_game();
    let (white_bitboard, black_bitboard) = get_bitboards(&board_state.board);
    assert_eq!(white_bitboard.0, 0xFFFF);
    assert_eq!(black_bitboard.0, 0xFFFF << 48);
}

#[test]
fn board_get_piece_positions_for_starting_position() {
    let board_state = BoardState::new_game();
    let white_positions = board_state.get_piece_positions(PieceColor::White);
    let black_positions = board_state.get_piece_positions(PieceColor::Black);
    for rank in RANK_1..=RANK_2 {
        for file in A_FILE..=H_FILE {
            assert!(white_positions.contains(&ChessCell(rank, file)));
        }
    }
    for rank in RANK_7..=RANK_8 {
        for file in A_FILE..=H_FILE {
            assert!(black_positions.contains(&ChessCell(rank, file)));
        }
    }
}

#[test]
fn board_get_piece_positions_for_bongcloud_position() {
    let board_state =
        BoardState::from_fen("rnbqkbnr/pppp1ppp/8/4p3/4P3/8/PPPPKPPP/RNBQ1BNR b kq - 1 2")
            .unwrap();
    let white_positions = board_state.get_piece_positions(PieceColor::White);
    let white_bongcloud_positions = [
        ChessCell(RANK_1, A_FILE),
        ChessCell(RANK_1, B_FILE),
        ChessCell(RANK_1, C_FILE),
        ChessCell(RANK_1, D_FILE),
        ChessCell(RANK_1, F_FILE),
        ChessCell(RANK_1, G_FILE),
        ChessCell(RANK_1, H_FILE),
        ChessCell(RANK_2, A_FILE),
        ChessCell(RANK_2, B_FILE),
        ChessCell(RANK_2, C_FILE),
        ChessCell(RANK_2, D_FILE),
        ChessCell(RANK_2, E_FILE),
        ChessCell(RANK_2, F_FILE),
        ChessCell(RANK_2, G_FILE),
        ChessCell(RANK_2, H_FILE),
        ChessCell(RANK_4, E_FILE),
    ];
    for position in white_positions {
        assert!(white_bongcloud_positions.contains(&position))
    }
    let black_positions = board_state.get_piece_positions(PieceColor::Black);
    let black_bongcloud_positions = [
        ChessCell(RANK_8, A_FILE),
        ChessCell(RANK_8, B_FILE),
        ChessCell(RANK_8, C_FILE),
        ChessCell(RANK_8, D_FILE),
        ChessCell(RANK_8, E_FILE),
        ChessCell(RANK_8, F_FILE),
        ChessCell(RANK_8, G_FILE),
        ChessCell(RANK_8, H_FILE),
        ChessCell(RANK_7, A_FILE),
        ChessCell(RANK_7, B_FILE),
        ChessCell(RANK_7, C_FILE),
        ChessCell(RANK_7, D_FILE),
        ChessCell(RANK_7, F_FILE),
        ChessCell(RANK_7, G_FILE),
        ChessCell(RANK_7, H_FILE),
        ChessCell(RANK_5, E_FILE),
    ];
    for position in black_positions {
        assert!(black_bongcloud_positions.contains(&position))
    }
}

#[test]
fn is_empty_or_enemy_of_works() {
    let board_state = BoardState::new_game();
    let board = board_state.board;
    let white_king_square = board.square(ChessCell(RANK_1, E_FILE));
    assert_eq!(white_king_square.is_empty_or_enemy_of(PieceColor::Black), true);
    assert_eq!(white_king_square.is_empty_or_enemy_of(PieceColor::White), false);
    let c6 = board.square(ChessCell(RANK_6, C_FILE));
    assert_eq!(c6.is_empty_or_enemy_of(PieceColor::White), true);
}

#[test]
fn make_unmake_on_new_board_restores_board_state() {
    let mut board_state = BoardState::new_game();
    let mov = ChessMove {
        start: ChessCell(RANK_2, E_FILE),
        dest: ChessCell(RANK_4, E_FILE),
        promotion: None,
    };
    board_state.make_move(mov);
    board_state.unmake_move();
    assert_eq!(board_state, BoardState::new_game())
}

#[test]
fn make_unmake_on_board_with_capture_restores_board_state() {
    let mut board_state =
        BoardState::from_fen("rnbqkbnr/ppp1pppp/8/3p4/4P3/8/PPPP1PPP/RNBQKBNR w KQkq - 0 2")
            .unwrap();
    let mov = ChessMove {
        start: ChessCell(RANK_4, E_FILE),
        dest: ChessCell(RANK_5, D_FILE),
        promotion: None,
    };
    board_state.make_move(mov);
    board_state.unmake_move();
    assert_eq!(
        board_state,
        BoardState::from_fen("rnbqkbnr/ppp1pppp/8/3p4/4P3/8/PPPP1PPP/RNBQKBNR w KQkq - 0 2")
            .unwrap()
    )
}
