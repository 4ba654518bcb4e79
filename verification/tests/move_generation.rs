use chess_engine::board_elements::{ChessMove, Piece, PieceColor, PieceKind};
use chess_engine::board_state::BoardState;
use chess_engine::constants::{a1, a2, a7, a8, d5, d7, e2, e4, e5, e7, e8, f1, f5, f6, f7, f8, g1, g2, g5};
use chess_engine::move_generation::generate_moves;

#[test]
fn generate_moves_from_starting_position() {
    let board_state = BoardState::new_game();
    let legal_moves = generate_moves(&board_state);
    assert_eq!(legal_moves.len(), 20);
}

#[test]
fn generate_moves_from_bongcloud() {
    let board_state =
        BoardState::from_fen("rnbqkbnr/pppp1ppp/8/4p3/4P3/8/PPPPKPPP/RNBQ1BNR b kq - 1 2")
            .unwrap();
    let legal_moves = generate_moves(&board_state);
    assert_eq!(legal_moves.len(), 29);
}

#[test]
fn en_passant_with_one_pawn_can_capture() {
    let mut board_state = BoardState::new_game();
    board_state.make_move((e2(), e4()).into());
    board_state.make_move((d7(), d5()).into());
    board_state.make_move((e4(), e5()).into());
    board_state.make_move((f7(), f5()).into());

    let legal_moves = generate_moves(&board_state);

    assert!(legal_moves.contains(&(e5(), f6()).into()));

    board_state.make_move((e5(), f6()).into());

    assert_eq!(
        board_state.board.square(f6()).piece().unwrap(),
        Piece {
            color: PieceColor::White,
            kind: PieceKind::Pawn
        }
    );
    assert!(!board_state.board.square(f5()).has_piece());
}

#[test]
fn en_passant_with_two_pawns_can_both_capture() {
    let mut board_state =
        BoardState::from_fen("rnbqkbnr/pp2pppp/8/2ppP1P1/8/8/PPPP1P1P/RNBQKBNR b KQkq - 0 4")
            .unwrap();

    board_state.make_move((f7(), f5()).into());

    let legal_moves = generate_moves(&board_state);
    assert!(legal_moves.contains(&(e5(), f6()).into()));
    assert!(legal_moves.contains(&(g5(), f6()).into()));
}

#[test]
fn game_with_possible_promotion_for_white_contains_correct_moves() {
    let board_state = BoardState::from_fen("7k/P7/8/8/8/8/8/7K w - - 0 1").unwrap();

    let legal_moves = generate_moves(&board_state);

    let expected_moves: Vec<ChessMove> = vec![
        (a7(), a8(), Piece::knight(PieceColor::White)).into(),
        (a7(), a8(), Piece::bishop(PieceColor::White)).into(),
        (a7(), a8(), Piece::rook(PieceColor::White)).into(),
        (a7(), a8(), Piece::queen(PieceColor::White)).into(),
    ];

    for mov in expected_moves {
        assert!(legal_moves.contains(&mov))
    }
}

#[test]
fn game_with_possible_promotion_for_black_contains_correct_moves() {
    let board_state = BoardState::from_fen("7k/8/8/8/8/8/p7/7K b - - 0 1").unwrap();

    let legal_moves = generate_moves(&board_state);

    let expected_moves: Vec<ChessMove> = vec![
        (a2(), a1(), Piece::knight(PieceColor::Black)).into(),
        (a2(), a1(), Piece::bishop(PieceColor::Black)).into(),
        (a2(), a1(), Piece::rook(PieceColor::Black)).into(),
        (a2(), a1(), Piece::queen(PieceColor::Black)).into(),
    ];

    for mov in expected_moves {
        assert!(legal_moves.contains(&mov))
    }
}

#[test]
fn game_with_possible_promotion_by_push_and_capture_for_white_contains_correct_moves() {
    let board_state =
        BoardState::from_fen("r4rk1/1pp1P2p/p3bqpQ/4p3/2B5/8/PPP3PP/2KR3R w - - 0 1").unwrap();

    let legal_moves = generate_moves(&board_state);

    let expected_moves: Vec<ChessMove> = vec![
        (e7(), e8(), Piece::knight(PieceColor::White)).into(),
        (e7(), e8(), Piece::bishop(PieceColor::White)).into(),
        (e7(), e8(), Piece::rook(PieceColor::White)).into(),
        (e7(), e8(), Piece::queen(PieceColor::White)).into(),
        (e7(), f8(), Piece::knight(PieceColor::White)).into(),
        (e7(), f8(), Piece::bishop(PieceColor::White)).into(),
        (e7(), f8(), Piece::rook(PieceColor::White)).into(),
        (e7(), f8(), Piece::queen(PieceColor::White)).into(),
    ];

    for mov in expected_moves {
        assert!(legal_moves.contains(&mov))
    }
}

#[test]
fn game_with_possible_promotion_by_push_and_capture_for_black_contains_correct_moves() {
    let board_state = BoardState::from_fen("8/8/1k6/8/8/8/3K2p1/5R2 b - - 0 1").unwrap();

    let legal_moves = generate_moves(&board_state);

    let expected_moves: Vec<ChessMove> = vec![
        (g2(), g1(), Piece::knight(PieceColor::Black)).into(),
        (g2(), g1(), Piece::bishop(PieceColor::Black)).into(),
        (g2(), g1(), Piece::rook(PieceColor::Black)).into(),
        (g2(), g1(), Piece::queen(PieceColor::Black)).into(),
        (g2(), f1(), Piece::knight(PieceColor::Black)).into(),
        (g2(), f1(), Piece::bishop(PieceColor::Black)).into(),
        (g2(), f1(), Piece::rook(PieceColor::Black)).into(),
        (g2(), f1(), Piece::queen(PieceColor::Black)).into(),
    ];

    for mov in expected_moves {
        assert!(legal_moves.contains(&mov))
    }
}
