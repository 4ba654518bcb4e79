use chess_engine::board_elements::{
    BitBoard, CastlingRights, CastlingType, ChessCell, ChessMove, Piece, PieceColor, PieceKind,
    Square,
};
use chess_engine::board_state::{get_bitboards, BoardState, GameResult};
use chess_engine::constants::{
    a1, a2, a7, a8, b1, b4, b8, c1, c3, c6, d1, d2, d4, d5, d7, d8, e1, e2, e4, e5, e7, e8, f1,
    f3, f5, f6, f7, f8, g1, g8, h1, h2, h3, h5, h7, h8,
};
use chess_engine::evaluation::evaluate;
use chess_engine::move_generation::{
    generate_castling_moves, generate_en_passant_moves, generate_moves,
    generate_pseudo_moves_for_player,
};
use chess_engine::search::{negamax, order_moves, search};

fn plain(start: ChessCell, dest: ChessCell) -> ChessMove {
    ChessMove { start, dest, promotion: None }
}

fn position(fen: &str) -> BoardState {
    let state = BoardState::from_fen(fen).unwrap();
    assert!(state.special_moves_consistent());
    assert!(state.is_valid_move());
    state
}

fn assert_cache_agrees(state: &BoardState) {
    let (white, black) = get_bitboards(&state.board);
    assert_eq!(state.white_bitboard, white);
    assert_eq!(state.black_bitboard, black);
    assert_eq!(white.0 & black.0, 0);
    assert_eq!(
        *state.board.square(state.white_king_location),
        Square::Full(Piece::king(PieceColor::White))
    );
    assert_eq!(
        *state.board.square(state.black_king_location),
        Square::Full(Piece::king(PieceColor::Black))
    );
    assert_eq!(state.eval * state.to_move.signum(), evaluate(state));
    let mut from_nothing = state.scratch();
    from_nothing.zobrist_key = 0;
    let text = written_form(state);
    let read = BoardState::from_fen(&text).unwrap();
    assert_eq!(read.board, state.board);
    assert_eq!(read.zobrist_key, state.zobrist_key);
    assert_eq!(read.eval, state.eval);
    assert!(state.special_moves_consistent());
}

fn written_form(state: &BoardState) -> String {
    let mut text = String::new();
    for rank in (2..=9).rev() {
        let mut empty = 0;
        for file in 2..=9 {
            match state.board.square(ChessCell(rank, file)).piece() {
                None => empty += 1,
                Some(piece) => {
                    if empty > 0 {
                        text.push_str(&format!("{}", empty));
                        empty = 0;
                    }
                    let letter = match piece.kind {
                        PieceKind::Pawn => 'p',
                        PieceKind::Knight => 'n',
                        PieceKind::Bishop => 'b',
                        PieceKind::Rook => 'r',
                        PieceKind::Queen => 'q',
                        PieceKind::King => 'k',
                    };
                    text.push(match piece.color {
                        PieceColor::White => letter.to_ascii_uppercase(),
                        PieceColor::Black => letter,
                    });
                }
            }
        }
        if empty > 0 {
            text.push_str(&format!("{}", empty));
        }
        if rank > 2 {
            text.push('/');
        }
    }
    text.push(' ');
    text.push(match state.to_move {
        PieceColor::White => 'w',
        PieceColor::Black => 'b',
    });
    text.push(' ');
    let rights = state.castling_rights;
    let mut any = false;
    for (held, letter) in [
        (rights.white_king_side_castling, 'K'),
        (rights.white_queen_side_castling, 'Q'),
        (rights.black_king_side_castling, 'k'),
        (rights.black_queen_side_castling, 'q'),
    ] {
        if held {
            text.push(letter);
            any = true;
        }
    }
    if !any {
        text.push('-');
    }
    text.push(' ');
    match state.en_passant {
        Some(cell) => text.push_str(&cell.to_string()),
        None => text.push('-'),
    }
    text.push_str(" 0 1");
    text
}

#[test]
fn every_move_of_a_short_game_keeps_the_cache_in_agreement() {
    let mut state = BoardState::new_game();
    assert_cache_agrees(&state);
    let game = [
        plain(e2(), e4()),
        plain(d7(), d5()),
        plain(e4(), d5()),
        plain(d8(), d5()),
        plain(g1(), f3()),
        plain(c6(), c6()),
    ];
    for mov in &game[..5] {
        assert!(generate_moves(&state).contains(mov));
        state.make_move(*mov);
        assert_cache_agrees(&state);
    }
}

#[test]
fn every_legal_move_made_and_taken_back_restores_the_position() {
    let fens = [
        "rnbqkbnr/pppppppp/8/8/8/8/PPPPPPPP/RNBQKBNR w KQkq - 0 1",
        "r3k2r/pppq1ppp/2npbn2/2b1p3/2B1P3/2NPBN2/PPPQ1PPP/R3K2R w KQkq - 0 1",
        "r3k2r/pppq1ppp/2npbn2/2b1p3/2B1P3/2NPBN2/PPPQ1PPP/R3K2R b KQkq - 0 1",
        "rnbqkbnr/ppp1p1pp/8/3pPp2/8/8/PPPP1PPP/RNBQKBNR w KQkq f6 0 3",
        "r4rk1/1pp1P2p/p3bqpQ/4p3/2B5/8/PPP3PP/2KR3R w - - 0 1",
        "8/8/1k6/8/8/8/3K2p1/5R2 b - - 0 1",
    ];
    for fen in fens {
        let start = position(fen);
        let mut state = position(fen);
        for mov in generate_moves(&start) {
            state.make_move(mov);
            assert_cache_agrees(&state);
            state.unmake_move();
            assert_eq!(state, start);
        }
    }
}

#[test]
fn castling_made_and_taken_back_restores_rook_and_rights() {
    let fen = "r3k2r/8/8/8/8/8/8/R3K2R w KQkq - 0 1";
    let start = position(fen);
    let mut state = position(fen);
    state.make_move(plain(e1(), g1()));
    assert_eq!(*state.board.square(f1()), Square::Full(Piece::rook(PieceColor::White)));
    assert_eq!(*state.board.square(h1()), Square::Empty);
    assert_eq!(*state.board.square(g1()), Square::Full(Piece::king(PieceColor::White)));
    assert_eq!(state.white_king_location, g1());
    assert!(!state.castling_rights.white_king_side_castling);
    assert!(!state.castling_rights.white_queen_side_castling);
    assert!(state.castling_rights.black_king_side_castling);
    assert_cache_agrees(&state);
    state.unmake_move();
    assert_eq!(state, start);

    state.make_move(plain(e1(), c1()));
    assert_eq!(*state.board.square(d1()), Square::Full(Piece::rook(PieceColor::White)));
    assert_eq!(*state.board.square(a1()), Square::Empty);
    state.unmake_move();
    assert_eq!(state, start);
}

#[test]
fn en_passant_made_and_taken_back_restores_the_captured_pawn() {
    let fen = "rnbqkbnr/ppp1p1pp/8/3pPp2/8/8/PPPP1PPP/RNBQKBNR w KQkq f6 0 3";
    let start = position(fen);
    let mut state = position(fen);
    state.make_move(plain(e5(), f6()));
    assert_eq!(*state.board.square(f5()), Square::Empty);
    assert_eq!(*state.board.square(f6()), Square::Full(Piece::pawn(PieceColor::White)));
    assert_eq!(state.last_capture(), None);
    assert_cache_agrees(&state);
    state.unmake_move();
    assert_eq!(*state.board.square(f5()), Square::Full(Piece::pawn(PieceColor::Black)));
    assert_eq!(state, start);
}

#[test]
fn two_orders_of_the_same_moves_reach_the_same_hash() {
    let mut first = BoardState::new_game();
    for mov in [plain(g1(), f3()), plain(g8(), f6()), plain(b1(), c3()), plain(b8(), c6())] {
        first.make_move(mov);
    }
    let mut second = BoardState::new_game();
    for mov in [plain(b1(), c3()), plain(b8(), c6()), plain(g1(), f3()), plain(g8(), f6())] {
        second.make_move(mov);
    }
    assert_eq!(first.board, second.board);
    assert_eq!(first.zobrist_key, second.zobrist_key);
    assert_ne!(first.zobrist_key, BoardState::new_game().zobrist_key);
}

#[test]
fn hash_tells_castling_rights_and_en_passant_apart() {
    let with_rights = position("r3k2r/8/8/8/8/8/8/R3K2R w KQkq - 0 1");
    let without = position("r3k2r/8/8/8/8/8/8/R3K2R w Qkq - 0 1");
    assert_ne!(with_rights.zobrist_key, without.zobrist_key);
    assert_eq!(
        with_rights.zobrist_key ^ without.zobrist_key,
        chess_engine::zobrist_hashing::ZobristOracle::castling_right_bitstring(
            CastlingType::WhiteKingSide
        )
    );
    let target = position("rnbqkbnr/ppp1p1pp/8/3pPp2/8/8/PPPP1PPP/RNBQKBNR w KQkq f6 0 3");
    let no_target = position("rnbqkbnr/ppp1p1pp/8/3pPp2/8/8/PPPP1PPP/RNBQKBNR w KQkq - 0 3");
    assert_eq!(
        target.zobrist_key ^ no_target.zobrist_key,
        chess_engine::zobrist_hashing::ZobristOracle::en_passant_bitstring(7)
    );
}

#[test]
fn castling_rights_do_not_come_back() {
    let mut state = position("r3k2r/8/8/8/8/8/8/R3K2R w KQkq - 0 1");
    state.make_move(plain(h1(), h2()));
    assert!(!state.castling_rights.white_king_side_castling);
    assert!(state.castling_rights.white_queen_side_castling);
    state.make_move(plain(a8(), a7()));
    assert!(!state.castling_rights.black_queen_side_castling);
    state.make_move(plain(h2(), h1()));
    state.make_move(plain(a7(), a8()));
    assert_eq!(*state.board.square(h1()), Square::Full(Piece::rook(PieceColor::White)));
    assert!(!state.castling_rights.white_king_side_castling);
    assert!(!state.castling_rights.black_queen_side_castling);
    assert!(!generate_castling_moves(&state).contains(&plain(e1(), g1())));
    assert!(generate_castling_moves(&state).contains(&plain(e1(), c1())));
    state.make_move(plain(e1(), d1()));
    assert!(!state.castling_rights.white_queen_side_castling);
    state.make_move(plain(h8(), h1()));
    assert!(!state.castling_rights.black_king_side_castling);
    assert_eq!(
        state.castling_rights,
        CastlingRights {
            white_king_side_castling: false,
            white_queen_side_castling: false,
            black_king_side_castling: false,
            black_queen_side_castling: false,
        }
    );
}

#[test]
fn capture_on_a_corner_revokes_the_right_of_that_corner() {
    let mut state = position("r3k2r/8/8/8/8/8/6b1/R3K2R b KQkq - 0 1");
    state.make_move(plain(ChessCell(3, 8), h1()));
    assert!(!state.castling_rights.white_king_side_castling);
    assert!(state.castling_rights.white_queen_side_castling);
    assert_eq!(state.last_capture(), Some(Piece::rook(PieceColor::White)));
    assert_cache_agrees(&state);
}

#[test]
fn double_step_sets_the_en_passant_target_and_the_next_move_clears_it() {
    let mut state = BoardState::new_game();
    state.make_move(plain(e2(), e4()));
    assert_eq!(state.en_passant, Some(ChessCell(4, 6)));
    assert_eq!(state.to_move, PieceColor::Black);
    assert_eq!(state.last_move(), Some(plain(e2(), e4())));
    state.make_move(plain(g8(), f6()));
    assert_eq!(state.en_passant, None);
    assert!(generate_en_passant_moves(&state).is_empty());
}

#[test]
fn opening_moves_come_in_the_order_of_the_generator() {
    let state = BoardState::new_game();
    let moves = generate_pseudo_moves_for_player(&state);
    assert_eq!(moves.len(), 20);
    assert_eq!(moves[0], plain(b1(), ChessCell(4, 2)));
    assert_eq!(moves[1], plain(b1(), c3()));
    assert_eq!(moves[4], plain(a2(), ChessCell(4, 2)));
    assert_eq!(moves[5], plain(a2(), ChessCell(5, 2)));
    assert_eq!(generate_moves(&state), moves);
}

#[test]
fn ordered_moves_are_sorted_by_score_and_keep_ties_in_order() {
    let state = position("rnbqkbnr/ppp1pppp/8/3p4/4P3/8/PPPP1PPP/RNBQKBNR w KQkq - 0 2");
    let moves = generate_pseudo_moves_for_player(&state);
    let ordered = order_moves(&state, moves.clone());
    assert_eq!(ordered.len(), moves.len());
    let score = |mov: &ChessMove| chess_engine::move_scoring::move_score(&state, *mov);
    for pair in ordered.windows(2) {
        assert!(score(&pair[0]) >= score(&pair[1]));
        if score(&pair[0]) == score(&pair[1]) {
            let first = moves.iter().position(|m| *m == pair[0]).unwrap();
            let second = moves.iter().position(|m| *m == pair[1]).unwrap();
            assert!(first < second);
        }
    }
    assert_eq!(ordered[0], plain(e4(), d5()));
    assert_eq!(score(&ordered[0]), 100 - 10 + 10 - 30);
}

#[test]
fn mate_and_stalemate_are_told_apart() {
    let mated = position("7k/5Q2/6K1/8/8/8/8/8 b - - 0 1");
    let mut mated = mated;
    mated.make_move(plain(h8(), g8()));
    assert!(!mated.is_valid_move());

    let checkmate = position("6k1/5ppp/8/8/8/8/8/4R2K w - - 0 1");
    let mut state = checkmate;
    state.make_move(plain(e1(), e8()));
    assert!(state.is_valid_move());
    assert!(state.is_terminal());
    assert_eq!(state.terminal_eval(), i32::MIN / 2);
    assert_eq!(state.get_game_winner(), GameResult::Winner(PieceColor::White));

    let stalemate = position("7k/5Q2/6K1/8/8/8/8/8 b - - 0 1");
    assert!(stalemate.is_terminal());
    assert_eq!(stalemate.terminal_eval(), 0);
    assert_eq!(stalemate.get_game_winner(), GameResult::Draw);
    assert_eq!(search(&stalemate, 2), (-i32::MAX, None));
    assert_eq!(negamax(&stalemate, 2, -i32::MAX, i32::MAX), 0);
}

#[test]
fn search_finds_mate_in_one() {
    let state = position("6k1/5ppp/8/8/8/8/8/4R2K w - - 0 1");
    let (eval, best_move) = search(&state, 2);
    assert_eq!(eval, 1073741824);
    assert_eq!(best_move, Some(plain(e1(), e8())));
}

#[test]
fn negamax_at_depth_zero_is_the_evaluation_of_the_side_to_move() {
    let state = position("7k/8/8/8/8/8/p7/7K b - - 0 1");
    assert_eq!(negamax(&state, 0, -i32::MAX, i32::MAX), -state.eval);
    assert_eq!(state.pov_eval(), -state.eval);
    assert_eq!(state.eval(), -state.eval);
    let white = position("7k/P7/8/8/8/8/8/7K w - - 0 1");
    assert_eq!(negamax(&white, 0, -i32::MAX, i32::MAX), white.eval);
}

#[test]
fn a_pawn_does_not_attack_an_empty_cell() {
    let state = position("4k3/8/8/8/8/8/4p3/R3K2R w KQ - 0 1");
    assert!(!state.square_is_attacked(f1(), PieceColor::Black));
    assert!(!state.square_is_attacked(d1(), PieceColor::Black));
    let castling = generate_castling_moves(&state);
    assert_eq!(castling, vec![plain(e1(), g1()), plain(e1(), c1())]);
}

#[test]
fn castling_through_an_attacked_cell_is_not_generated() {
    let state = position("4kr2/8/8/8/8/8/8/R3K2R w KQ - 0 1");
    assert!(state.square_is_attacked(f1(), PieceColor::Black));
    assert_eq!(generate_castling_moves(&state), vec![plain(e1(), c1())]);
    let blocked = position("4kr2/8/8/8/8/8/5P2/R3K2R w KQ - 0 1");
    assert!(!blocked.square_is_attacked(f1(), PieceColor::Black));
    assert_eq!(
        blocked.ray_attackers(f1(), PieceColor::Black),
        vec![(Piece::rook(PieceColor::Black), f8())]
    );
}

#[test]
fn bitboard_bits_follow_the_dense_index() {
    let mut bitboard = BitBoard(0);
    bitboard.add_piece(0);
    bitboard.add_piece(63);
    assert_eq!(bitboard.0, 1 | (1 << 63));
    assert!(bitboard.contains(63));
    bitboard.remove_piece(0);
    assert_eq!(bitboard.0, 1 << 63);
    assert!(!bitboard.contains(0));
    assert_eq!(ChessCell::from_index(63), h8());
    assert_eq!(a1().as_index(), 0);
    assert_eq!(b4().as_index(), 25);
    for index in 0..64 {
        let cell = ChessCell::from_index(index);
        assert!(!cell.is_aether());
        assert_eq!(cell.as_index(), index);
    }
    assert!(ChessCell(1, 5).is_aether());
    assert!(ChessCell(5, 10).is_aether());
    assert!(ChessCell::from_index(64).is_aether());
}

#[test]
fn promotion_replaces_the_pawn_and_taking_it_back_restores_it() {
    let fen = "7k/P7/8/8/8/8/8/7K w - - 0 1";
    let start = position(fen);
    let mut state = position(fen);
    let mov = ChessMove { start: a7(), dest: a8(), promotion: Some(Piece::queen(PieceColor::White)) };
    state.make_move(mov);
    assert_eq!(*state.board.square(a8()), Square::Full(Piece::queen(PieceColor::White)));
    assert_eq!(state.eval - start.eval, 900 - 10 - 100 - 65);
    assert_cache_agrees(&state);
    state.unmake_move();
    assert_eq!(state, start);
}

#[test]
fn accessors_read_the_top_record() {
    let mut state = BoardState::new_game();
    assert_eq!(state.last_move(), None);
    assert_eq!(state.last_capture(), None);
    assert_eq!(state.castling_rights(), CastlingRights::all_castling_rights());
    state.make_move(plain(e2(), e4()));
    state.make_move(plain(d7(), d5()));
    state.make_move(plain(e4(), d5()));
    assert_eq!(state.last_move(), Some(plain(e4(), d5())));
    assert_eq!(state.last_capture(), Some(Piece::pawn(PieceColor::Black)));
    assert_eq!(state.eval(), -state.eval);
    assert_eq!(state.entropy_stack.stack.len(), 4);
    state.remove_castling_right(CastlingType::BlackKingSide);
    assert!(!state.castling_rights().black_king_side_castling);
    assert!(!state.castling_rights.black_king_side_castling);
    state.remove_color_castling_rights(PieceColor::White);
    assert_eq!(
        state.castling_rights(),
        CastlingRights {
            white_king_side_castling: false,
            white_queen_side_castling: false,
            black_king_side_castling: false,
            black_queen_side_castling: true,
        }
    );
    state.set_castling_rights(CastlingRights::default());
    assert_eq!(state.castling_rights(), CastlingRights::default());
    state.set_eval(17);
    assert_eq!(state.eval, 17);
    assert_eq!(state.eval(), -17);
    state.increment_eval(3);
    assert_eq!(state.eval, 14);
    state.set_last_move(plain(d2(), d4()));
    assert_eq!(state.last_move(), Some(plain(d2(), d4())));
    state.set_last_capture(None);
    assert_eq!(state.last_capture(), None);
    state.swap_to_move();
    assert_eq!(state.to_move, PieceColor::White);
    state.clear_en_passant_square();
    assert_eq!(state.en_passant, None);
    assert_eq!(state.king_location_of(PieceColor::Black), e8());
    assert_eq!(
        state.available_castling_types(PieceColor::White),
        Vec::<CastlingType>::new()
    );
}

#[test]
fn h_file_moves_and_knight_reach_near_the_edge() {
    let state = position("7k/8/8/7N/8/8/8/K7 w - - 0 1");
    let moves = generate_moves(&state);
    let knight: Vec<ChessCell> =
        moves.iter().filter(|m| m.start == h5()).map(|m| m.dest).collect();
    assert_eq!(knight, vec![ChessCell(4, 8), ChessCell(5, 7), ChessCell(7, 7), ChessCell(8, 8)]);
    assert!(!moves.contains(&plain(h5(), h7())));
    assert!(!moves.contains(&plain(h5(), h3())));
    assert_eq!(state.king_location_of(PieceColor::Black), h8());
    assert_eq!(e7().to_string(), "e7");
}

#[test]
fn searching_in_place_leaves_the_position_as_it_was() {
    let fen = "r3k2r/pppq1ppp/2npbn2/2b1p3/2B1P3/2NPBN2/PPPQ1PPP/R3K2R w KQkq - 0 1";
    let start = position(fen);
    let mut state = position(fen);
    let legal = chess_engine::move_generation::legal_moves_in_place(&mut state);
    assert_eq!(state, start);
    assert_eq!(legal, generate_moves(&start));
    let score = chess_engine::search::negamax_in_place(&mut state, 2, -i32::MAX, i32::MAX);
    assert_eq!(state, start);
    assert_eq!(score, negamax(&start, 2, -i32::MAX, i32::MAX));
    assert_eq!(score, search(&start, 2).0);
    let narrow = chess_engine::search::negamax_in_place(&mut state, 2, score - 1, score + 1);
    assert_eq!(narrow, score);
    assert_eq!(state, start);
}

#[test]
fn pruning_does_not_change_the_score_of_the_search() {
    fn plain_minimax(state: &BoardState, depth: u8) -> i32 {
        let legal = generate_moves(state);
        if legal.is_empty() {
            return state.terminal_eval();
        }
        if depth == 0 {
            return state.pov_eval();
        }
        let mut best = -i32::MAX;
        for mov in legal {
            let mut child = state.scratch();
            child.make_move(mov);
            best = best.max(-plain_minimax(&child, depth - 1));
        }
        best
    }
    for fen in [
        "rnbqkbnr/pppppppp/8/8/8/8/PPPPPPPP/RNBQKBNR w KQkq - 0 1",
        "r2qkb1r/pp2nppp/3p4/2pNN1B1/2BnP3/3P4/PPP2PPP/R2bK2R w KQkq - 1 0",
        "8/8/1k6/8/8/8/3K2p1/5R2 b - - 0 1",
    ] {
        let state = position(fen);
        for depth in 1..=2 {
            assert_eq!(search(&state, depth).0, plain_minimax(&state, depth));
            assert_eq!(negamax(&state, depth, -i32::MAX, i32::MAX), plain_minimax(&state, depth));
        }
    }
}
