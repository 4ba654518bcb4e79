use std::str::FromStr;

use chess_engine::board_elements::{ChessCell, Piece, PieceColor};
use chess_engine::board_state::{get_bitboards, BoardState};
use chess_engine::constants::{
    a1, a2, a7, a8, b1, b2, b7, b8, c1, c2, c3, c6, c7, c8, d1, d2, d7, d8, e1, e2, e4, e5, e8,
    f1, f2, f5, f6, f7, f8, g1, g2, g4, g7, g8, h1, h2, h7, h8, A_FILE, BOARD_START, H_FILE,
    RANK_1, RANK_2, RANK_7, RANK_8,
};
use chess_engine::move_generation::generate_moves;

#[test]
fn board_state_parse_chess_cell_from_valid_str_succeeds() {
    let parsed_cell: ChessCell = ChessCell::from_str("b4").unwrap();
    let cell = ChessCell(3 + BOARD_START, 1 + BOARD_START);
    assert_eq!(parsed_cell, cell);
}

#[test]
fn board_state_create_board_from_valid_fen_succeeds() {
    let fen_board_state: BoardState =
        BoardState::from_fen("rnbqkbnr/pppppppp/8/8/8/8/PPPPPPPP/RNBQKBNR w KQkq - 0 1").unwrap();
    let new_board_state: BoardState = BoardState::new_game();
    assert_eq!(fen_board_state.board, new_board_state.board);
    assert_eq!(fen_board_state.to_move, new_board_state.to_move);
    assert_eq!(
        fen_board_state.white_bitboard,
        new_board_state.white_bitboard
    );
    assert_eq!(
        fen_board_state.black_bitboard,
        new_board_state.black_bitboard
    );
    assert_eq!(
        fen_board_state.white_king_location,
        new_board_state.white_king_location
    );
    assert_eq!(
        fen_board_state.black_king_location,
        new_board_state.black_king_location
    );
}

#[test]
fn board_state_get_bitboards_returns_the_right_bitboards() {
    let board_state = BoardState::new_game();
    let (white_bitboard, black_bitboard) = get_bitboards(&board_state.board);
    assert_eq!(white_bitboard.0, 0xFFFF);
    assert_eq!(black_bitboard.0, 0xFFFF << 48);
}

#[test]
fn board_state_get_piece_positions_for_starting_position() {
    let board_state = BoardState::new_game();
    let white_positions = board_state.get_piece_positions(PieceColor::White);
    let black_positions = board_state.get_piece_positions(PieceColor::Black);
    for rank in RANK_1..=RANK_2 {
        for file in A_FILE..=H_FILE {
            assert!(white_positions.contains(&ChessCell(rank, file)));
        }
    }
    for rank in RANK_7..=RANK_8 {
        for file in A_FILE..=H_FILE {
            assert!(black_positions.contains(&ChessCell(rank, file)));
        }
    }
}

#[test]
fn board_state_get_piece_positions_for_bongcloud_position() {
    let board_state =
        BoardState::from_fen("rnbqkbnr/pppp1ppp/8/4p3/4P3/8/PPPPKPPP/RNBQ1BNR b kq - 1 2")
            .unwrap();
    let white_positions = board_state.get_piece_positions(PieceColor::White);
    let white_bongcloud_positions = [
        a1(),
        b1(),
        c1(),
        d1(),
        f1(),
        g1(),
        h1(),
        a2(),
        b2(),
        c2(),
        d2(),
        e2(),
        f2(),
        g2(),
        h2(),
        e4(),
    ];
    for position in white_positions {
        assert!(white_bongcloud_positions.contains(&position))
    }
    let black_positions = board_state.get_piece_positions(PieceColor::Black);
    let black_bongcloud_positions = [
        a8(),
        b8(),
        c8(),
        d8(),
        e8(),
        f8(),
        g8(),
        h8(),
        a7(),
        b7(),
        c7(),
        d7(),
        f7(),
        g7(),
        h7(),
        e5(),
    ];
    for position in black_positions {
        assert!(black_bongcloud_positions.contains(&position))
    }
}

#[test]
fn is_empty_or_enemy_of_tests() {
    let board_state = BoardState::new_game();
    let board = board_state.board;
    let white_king_square = board.square(e1());
    assert!(white_king_square.is_empty_or_enemy_of(PieceColor::Black));
    assert!(!white_king_square.is_empty_or_enemy_of(PieceColor::White));
    let c6 = board.square(c6());
    assert!(c6.is_empty_or_enemy_of(PieceColor::White));
}

#[test]
fn parsing_fen_with_en_passant_has_correct_position() {
    let board_state =
        BoardState::from_fen("rnbqkbnr/ppp1p1pp/8/3pPp2/8/8/PPPP1PPP/RNBQKBNR w KQkq f6 0 3")
            .unwrap();

    assert_eq!(board_state.en_passant, Some(f6()));
}

#[test]
fn white_promoting_to_queen_in_good_scenario_leads_to_overwhelming_victory_eval() {
    let mut board_state = BoardState::from_fen("7k/P7/8/8/8/8/8/7K w - - 0 1").unwrap();

    assert!(generate_moves(&board_state).contains(&(a7(), a8(), Piece::queen(PieceColor::White)).into()));

    let eval_before = board_state.eval;

    board_state.make_move((a7(), a8(), Piece::queen(PieceColor::White)).into());

    let eval_after = board_state.eval;

    assert!((eval_after - eval_before) > 600);
}

#[test]
fn black_promoting_to_queen_in_good_scenario_leads_to_overwhelming_victory_eval() {
    let mut board_state = BoardState::from_fen("7k/8/8/8/8/8/p7/7K b - - 0 1").unwrap();

    assert!(generate_moves(&board_state).contains(&(a2(), a1(), Piece::queen(PieceColor::Black)).into()));

    let eval_before = board_state.eval;

    board_state.make_move((a2(), a1(), Piece::queen(PieceColor::Black)).into());

    let eval_after = board_state.eval;

    assert!((eval_after - eval_before) < -600);
}

#[test]
fn eval_in_drawish_game_is_close_to_zero() {
    let board_state = BoardState::from_fen("7k/8/8/8/8/8/8/7K w - - 0 1").unwrap();

    assert!(i32::abs(board_state.eval) < 50)
}

#[test]
fn making_moves_and_returning_to_same_position_leads_to_identical_zobrist_key() {
    let mut board_state = BoardState::new_game();

    let starting_zobrist_key = board_state.zobrist_key;
    board_state.make_move((b1(), c3()).into());
    board_state.make_move((g8(), f6()).into());
    board_state.make_move((c3(), b1()).into());
    board_state.make_move((f6(), g8()).into());
    let zobrist_key_after_return_to_starting_position = board_state.zobrist_key;

    assert_eq!(
        starting_zobrist_key,
        zobrist_key_after_return_to_starting_position
    );
}

#[test]
fn making_move_changes_zobrist_key() {
    let mut board_state = BoardState::new_game();
    let starting_zobrist_key = board_state.zobrist_key;

    board_state.make_move((e2(), e4()).into());

    let zobrist_key_after_move = board_state.zobrist_key;
    assert_ne!(starting_zobrist_key, zobrist_key_after_move);
}

#[test]
fn returning_to_same_board_position_but_flipped_to_move_is_different_zobrist_key() {
    let mut board_state =
        BoardState::from_fen("rnbqkbnr/ppp1pppp/8/3p4/4P3/8/PPPP1PPP/RNBQKBNR w KQkq - 0 2")
            .unwrap();
    let zobrist_key_before = board_state.zobrist_key;

    board_state.make_move((d1(), g4()).into());
    board_state.make_move((c8(), f5()).into());
    board_state.make_move((g4(), e2()).into());
    board_state.make_move((f5(), c8()).into());
    board_state.make_move((e2(), d1()).into());

    let zobrist_key_after = board_state.zobrist_key;
    assert_ne!(zobrist_key_before, zobrist_key_after);
}
