use std::str::FromStr;

use chess_engine::board_elements::ChessCell;
use chess_engine::constants::{f6, g1};

#[test]
fn parsing_f6_from_string_leads_to_correct_square() {
    assert_eq!(ChessCell::from_str("f6"), Ok(f6()));
}

#[test]
fn parsing_g1_from_string_leads_to_correct_square() {
    assert_eq!(ChessCell::from_str("g1"), Ok(g1()));
}

#[test]
fn converting_f6_to_string_leads_to_correct_string() {
    assert_eq!(f6().to_string(), "f6")
}

#[test]
fn converting_g1_to_string_leads_to_correct_string() {
    assert_eq!(g1().to_string(), "g1")
}
