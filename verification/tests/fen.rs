use std::str::FromStr;

use chess_engine::board_elements::{
    CastlingRights, CastlingType, CellParseError, ChessCell, ChessMove, Piece, PieceColor,
    PieceKind, Square,
};
use chess_engine::board_state::BoardState;
use chess_engine::chess_board::ChessBoard;
use chess_engine::constants::{a1, e1, e2, e4, e8, g1, h8, STARTING_FEN_STRING};
use chess_engine::fen::{
    board_from_fen, castling_rights_from_fen, en_passant_square_from_fen, fields_of,
    to_move_from_fen, FenError,
};

#[test]
fn starting_position_read_from_its_written_form_is_the_new_game() {
    assert_eq!(BoardState::from_fen(STARTING_FEN_STRING).unwrap(), BoardState::new_game());
    let state = BoardState::new_game();
    assert_eq!(state.eval, 4);
    assert_eq!(state.white_king_location, e1());
    assert_eq!(state.black_king_location, e8());
    assert_eq!(state.board, ChessBoard::new());
    assert!(state.special_moves_consistent());
    assert!(state.is_valid_move());
}

#[test]
fn fields_are_cut_at_any_run_of_white_space() {
    let fields = fields_of(b"  8/8 \t w\n\n- -  0 1 ");
    let expected: Vec<Vec<u8>> = vec![
        b"8/8".to_vec(),
        b"w".to_vec(),
        b"-".to_vec(),
        b"-".to_vec(),
        b"0".to_vec(),
        b"1".to_vec(),
    ];
    assert_eq!(fields, expected);
    assert_eq!(fields_of(b""), Vec::<Vec<u8>>::new());
    assert!(BoardState::from_fen("  7k/8/8/8/8/8/8/7K\tw\n-  -   0 1  ").is_ok());
}

#[test]
fn each_fault_of_a_written_position_has_its_error() {
    let error = |fen: &str| BoardState::from_fen(fen).unwrap_err();
    assert_eq!(error("7k/8/8/8/8/8/8/7K w - - 0"), FenError::FieldCount);
    assert_eq!(error(""), FenError::FieldCount);
    assert_eq!(error("7k/8/8/8/8/8/8/7K w - - 0 1 x"), FenError::FieldCount);
    assert_eq!(error("7k/8/8/8/8/8/7K w - - 0 1"), FenError::RankCount);
    assert_eq!(error("7k/8/8/8/8/8/8/7K/ w - - 0 1"), FenError::RankCount);
    assert_eq!(error("7k/8/8/8/8/8/8/8K w - - 0 1"), FenError::RankLength);
    assert_eq!(error("7k/8/8/8/8/8/8/6K w - - 0 1"), FenError::RankLength);
    assert_eq!(error("7k/8/8/8/8/8/8/9 w - - 0 1"), FenError::RankOutOfBounds);
    assert_eq!(error("7k/8/8/8/8/8/8/K71 w - - 0 1"), FenError::RankOutOfBounds);
    assert_eq!(error("7k/8/8/8/8/8/8/8K1 w - - 0 1"), FenError::RankOutOfBounds);
    assert_eq!(error("7k/8/8/8/8/8/8/7X w - - 0 1"), FenError::NotAPiece);
    assert_eq!(error("7k/8/8/8/8/8/8/8KX w - - 0 1"), FenError::NotAPiece);
    assert_eq!(error("7k/8/8/8/8/8/8//7K w - - 0 1"), FenError::RankCount);
    assert_eq!(error("7k/8/8/8/8/8/8/8 w - - 0 1"), FenError::MissingKing);
    assert_eq!(error("8/8/8/8/8/8/8/7K w - - 0 1"), FenError::MissingKing);
    assert_eq!(error("7k/8/8/8/8/8/8/7K x - - 0 1"), FenError::ToMove);
    assert_eq!(error("7k/8/8/8/8/8/8/7K W - - 0 1"), FenError::ToMove);
    assert_eq!(error("7k/8/8/8/8/8/8/7K w KQkq- - 0 1"), FenError::CastlingTooLong);
    assert_eq!(error("7k/8/8/8/8/8/8/7K w KX - 0 1"), FenError::CastlingInvalid);
    assert_eq!(error("7k/8/8/8/8/8/8/7K w - e 0 1"), FenError::EnPassant);
    assert_eq!(error("7k/8/8/8/8/8/8/7K w - i3 0 1"), FenError::EnPassant);
    assert_eq!(error("7k/8/8/8/8/8/8/7K w - e33 0 1"), FenError::EnPassant);
    // The first fault decides: the board is read before the side to move.
    assert_eq!(error("7k/8/8/8/8/8/8/7X x - - 0 1"), FenError::NotAPiece);
    // The first rank is read first.
    assert_eq!(error("9/8/8/8/8/8/8/7X w - - 0 1"), FenError::NotAPiece);
    assert_eq!(
        FenError::FieldCount.message(),
        "Failed to parse FEN string: FEN string did not have length 6"
    );
    assert_eq!(
        FenError::MissingKing.message(),
        "Failed to parse FEN string: Could not find both kings"
    );
}

#[test]
fn placement_is_read_from_the_eighth_rank_down() {
    let board = board_from_fen(b"r6k/8/8/8/8/8/8/K6R").unwrap();
    assert_eq!(*board.square(a1()), Square::Full(Piece::king(PieceColor::White)));
    assert_eq!(*board.square(h8()), Square::Full(Piece::king(PieceColor::Black)));
    assert_eq!(*board.square(ChessCell(9, 2)), Square::Full(Piece::rook(PieceColor::Black)));
    assert_eq!(*board.square(ChessCell(2, 9)), Square::Full(Piece::rook(PieceColor::White)));
    assert_eq!(*board.square(e4()), Square::Empty);
    assert_eq!(*board.square(ChessCell(1, 5)), Square::Aether);
    assert_eq!(*board.square(ChessCell(5, 10)), Square::Aether);
    assert_eq!(board_from_fen(b"8/8/8/8/8/8/8/8").unwrap(), ChessBoard::empty());
    assert_eq!(board_from_fen(b"44/8/8/8/8/8/8/08").unwrap(), ChessBoard::empty());
}

#[test]
fn the_small_fields_are_read_letter_by_letter() {
    assert_eq!(to_move_from_fen(b"w"), Ok(PieceColor::White));
    assert_eq!(to_move_from_fen(b"b"), Ok(PieceColor::Black));
    assert_eq!(to_move_from_fen(b"wb"), Err(FenError::ToMove));
    assert_eq!(castling_rights_from_fen(b"KQkq"), Ok(CastlingRights::all_castling_rights()));
    assert_eq!(castling_rights_from_fen(b"-"), Ok(CastlingRights::default()));
    assert_eq!(castling_rights_from_fen(b""), Ok(CastlingRights::default()));
    assert_eq!(
        castling_rights_from_fen(b"qK"),
        Ok(CastlingRights {
            white_king_side_castling: true,
            white_queen_side_castling: false,
            black_king_side_castling: false,
            black_queen_side_castling: true,
        })
    );
    assert_eq!(castling_rights_from_fen(b"KQkqK"), Err(FenError::CastlingTooLong));
    assert_eq!(castling_rights_from_fen(b"Kx"), Err(FenError::CastlingInvalid));
    assert_eq!(en_passant_square_from_fen(b"-"), Ok(None));
    assert_eq!(en_passant_square_from_fen(b"e3"), Ok(Some(ChessCell(4, 6))));
    assert_eq!(en_passant_square_from_fen(b"e"), Err(FenError::EnPassant));
}

#[test]
fn cells_are_named_by_file_letter_and_rank_digit() {
    assert_eq!(ChessCell::parse(b"a1"), Ok(a1()));
    assert_eq!(ChessCell::parse(b"h8"), Ok(h8()));
    assert_eq!(ChessCell::parse(b"a0"), Ok(ChessCell(1, 2)));
    assert_eq!(ChessCell::parse(b"a9"), Ok(ChessCell(10, 2)));
    assert_eq!(ChessCell::parse(b"a"), Err(CellParseError::LengthNotTwo));
    assert_eq!(ChessCell::parse(b"a11"), Err(CellParseError::LengthNotTwo));
    assert_eq!(ChessCell::parse(b"i1"), Err(CellParseError::InvalidFile));
    assert_eq!(ChessCell::parse(b"A1"), Err(CellParseError::InvalidFile));
    assert_eq!(ChessCell::parse(b"ax"), Err(CellParseError::InvalidRank));
    assert_eq!(
        ChessCell::from_str("e"),
        Err("Failed to parse ChessCell from string: Length was not 2")
    );
    assert_eq!(
        ChessCell::from_str("z1"),
        Err("Failed to parse ChessCell from string: Invalid file")
    );
    assert_eq!(
        ChessCell::from_str("ez"),
        Err("Failed to parse ChessCell from string: rank was not a valid number")
    );
    assert_eq!(ChessCell::from((4, 6)), ChessCell(4, 6));
    assert_eq!(a1().to_string(), "a1");
    assert_eq!(h8().to_string(), "h8");
    let mov = ChessMove::from((e2(), e4()));
    assert_eq!(mov.to_string(), "e2->e4");
    assert_eq!(mov, ChessMove { start: e2(), dest: e4(), promotion: None });
    assert_eq!(
        ChessMove::from(CastlingType::WhiteKingSide),
        ChessMove { start: e1(), dest: g1(), promotion: None }
    );
    assert_eq!(CastlingType::of_rook_home(h8()), CastlingType::BlackKingSide);
    assert_eq!(CastlingType::of_rook_home(a1()), CastlingType::WhiteQueenSide);
    assert!(CastlingType::is_rook_home(a1()));
    assert!(!CastlingType::is_rook_home(e1()));
    assert_eq!(CastlingType::WhiteQueenSide.direction(), -1);
    assert_eq!(CastlingType::BlackKingSide.direction(), 1);
    assert_eq!(CastlingType::BlackKingSide.index(), 2);
}

#[test]
fn pieces_are_read_from_their_letters() {
    assert_eq!(Piece::from_letter(b'p'), Some(Piece::pawn(PieceColor::Black)));
    assert_eq!(Piece::from_letter(b'N'), Some(Piece::knight(PieceColor::White)));
    assert_eq!(Piece::from_letter(b'b'), Some(Piece::bishop(PieceColor::Black)));
    assert_eq!(Piece::from_letter(b'R'), Some(Piece::rook(PieceColor::White)));
    assert_eq!(Piece::from_letter(b'q'), Some(Piece::queen(PieceColor::Black)));
    assert_eq!(Piece::from_letter(b'K'), Some(Piece::king(PieceColor::White)));
    assert_eq!(Piece::from_letter(b'x'), None);
    assert_eq!(Piece::from_letter(b'1'), None);
    assert_eq!(Square::from(Piece::king(PieceColor::White)).piece(), Some(Piece::king(PieceColor::White)));
    let full = Square::Full(Piece { color: PieceColor::Black, kind: PieceKind::Queen });
    assert!(full.has_piece() && full.is_color(PieceColor::Black));
    assert!(full.is_enemy_of(PieceColor::White) && !full.is_enemy_of(PieceColor::Black));
    assert!(!full.is_empty() && !full.is_aether());
    assert!(Square::Empty.is_empty() && !Square::Empty.is_enemy_of(PieceColor::White));
    assert!(Square::Aether.is_aether() && !Square::Aether.is_empty_or_enemy_of(PieceColor::White));
    assert_eq!(Square::Empty.piece(), None);
    assert_eq!(PieceColor::White.opposite(), PieceColor::Black);
    assert_eq!(PieceColor::Black.signum(), -1);
    assert_eq!(PieceColor::White.en_passant_rank(), 4);
    assert_eq!(PieceColor::Black.en_passant_rank(), 7);
    assert_eq!(PieceColor::White.en_passant_attacking_rank(), 6);
    assert_eq!(PieceColor::Black.en_passant_attacking_rank(), 5);
    assert_eq!(PieceColor::White.promotion_rank(), 8);
    assert_eq!(PieceColor::Black.promotion_rank(), 3);
    assert_eq!(PieceColor::White.pawn_starting_rank(), 3);
    assert_eq!(PieceColor::Black.pawn_starting_rank(), 8);
    assert_eq!(PieceColor::Black.name(), "black");
    let all = CastlingRights::all_castling_rights();
    let mut fewer = all;
    fewer.remove_castling_right(CastlingType::WhiteQueenSide);
    fewer.remove_color_castling_rights(PieceColor::Black);
    assert_eq!(
        fewer.diff_from(all),
        vec![
            CastlingType::WhiteQueenSide,
            CastlingType::BlackKingSide,
            CastlingType::BlackQueenSide
        ]
    );
    assert!(fewer.has(CastlingType::WhiteKingSide) && !fewer.has(CastlingType::BlackKingSide));
}

#[test]
fn inconsistent_special_fields_are_read_and_reported() {
    let rights = BoardState::from_fen("4k3/8/8/8/8/8/8/4K3 w KQ - 0 1").unwrap();
    assert!(!rights.special_moves_consistent());
    let target = BoardState::from_fen("4k3/8/8/8/8/8/8/4K3 w - e6 0 1").unwrap();
    assert_eq!(target.en_passant, Some(ChessCell(7, 6)));
    assert!(!target.special_moves_consistent());
    let off_board = BoardState::from_fen("4k3/8/8/8/8/8/8/4K3 w - e9 0 1").unwrap();
    assert!(!off_board.special_moves_consistent());
    let in_check = BoardState::from_fen("4k3/8/8/8/8/8/8/4K2r b - - 0 1").unwrap();
    assert!(in_check.special_moves_consistent());
    assert!(!in_check.is_valid_move());
    let empty = BoardState::empty_game();
    assert_eq!(empty.board, ChessBoard::empty());
    assert_eq!(empty.zobrist_key, 0);
    assert_eq!(empty.white_king_location, ChessCell(100, 100));
}
