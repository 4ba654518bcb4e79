use chess_engine::board_state::BoardState;
use chess_engine::constants::{d5, f6};
use chess_engine::search::search;

#[test]
fn mate_in_two_has_correct_eval_and_move() {
    let board_state = BoardState::from_fen(
        "r2qkb1r/pp2nppp/3p4/2pNN1B1/2BnP3/3P4/PPP2PPP/R2bK2R w KQkq - 1 0",
    )
    .unwrap();

    let (eval, best_move) = search(&board_state, 3);

    assert!(eval > 1_000_000);
    assert_eq!(best_move, Some((d5(), f6()).into()))
}
