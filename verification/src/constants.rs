//! Coordinates of the padded board and names for the sixty-four playing cells.
//!
//! The board is a 12 x 12 grid. The playing area occupies ranks and files
//! 2 through 9; the two outer rings are sentinel squares.

use vstd::prelude::*;
use crate::board_elements::ChessCell;

verus! {

pub const BOARD_START: usize = 2;

pub const BOARD_END: usize = 9;

pub const A_FILE: usize = 2;

pub const B_FILE: usize = 3;

pub const C_FILE: usize = 4;

pub const D_FILE: usize = 5;

pub const E_FILE: usize = 6;

pub const F_FILE: usize = 7;

pub const G_FILE: usize = 8;

pub const H_FILE: usize = 9;

pub const RANK_1: usize = 2;

pub const RANK_2: usize = 3;

pub const RANK_3: usize = 4;

pub const RANK_4: usize = 5;

pub const RANK_5: usize = 6;

pub const RANK_6: usize = 7;

pub const RANK_7: usize = 8;

pub const RANK_8: usize = 9;

/// The bits of the cells on which White's pieces start the game.
pub const WHITE_STARTING_BITBOARD: u64 = 0xFFFF;

/// The bits of the cells on which Black's pieces start the game.
pub const BLACK_STARTING_BITBOARD: u64 = 0xFFFF_0000_0000_0000;

pub const STARTING_FEN_STRING: &'static str =
    "rnbqkbnr/pppppppp/8/8/8/8/PPPPPPPP/RNBQKBNR w KQkq - 0 1";

pub fn a1() -> (r: ChessCell)
    ensures
        r == ChessCell(RANK_1, A_FILE),
{
    ChessCell(RANK_1, A_FILE)
}

pub fn b1() -> (r: ChessCell)
    ensures
        r == ChessCell(RANK_1, B_FILE),
{
    ChessCell(RANK_1, B_FILE)
}

pub fn c1() -> (r: ChessCell)
    ensures
        r == ChessCell(RANK_1, C_FILE),
{
    ChessCell(RANK_1, C_FILE)
}

pub fn d1() -> (r: ChessCell)
    ensures
        r == ChessCell(RANK_1, D_FILE),
{
    ChessCell(RANK_1, D_FILE)
}

pub fn e1() -> (r: ChessCell)
    ensures
        r == ChessCell(RANK_1, E_FILE),
{
    ChessCell(RANK_1, E_FILE)
}

pub fn f1() -> (r: ChessCell)
    ensures
        r == ChessCell(RANK_1, F_FILE),
{
    ChessCell(RANK_1, F_FILE)
}

pub fn g1() -> (r: ChessCell)
    ensures
        r == ChessCell(RANK_1, G_FILE),
{
    ChessCell(RANK_1, G_FILE)
}

pub fn h1() -> (r: ChessCell)
    ensures
        r == ChessCell(RANK_1, H_FILE),
{
    ChessCell(RANK_1, H_FILE)
}

pub fn a2() -> (r: ChessCell)
    ensures
        r == ChessCell(RANK_2, A_FILE),
{
    ChessCell(RANK_2, A_FILE)
}

pub fn b2() -> (r: ChessCell)
    ensures
        r == ChessCell(RANK_2, B_FILE),
{
    ChessCell(RANK_2, B_FILE)
}

pub fn c2() -> (r: ChessCell)
    ensures
        r == ChessCell(RANK_2, C_FILE),
{
    ChessCell(RANK_2, C_FILE)
}

pub fn d2() -> (r: ChessCell)
    ensures
        r == ChessCell(RANK_2, D_FILE),
{
    ChessCell(RANK_2, D_FILE)
}

pub fn e2() -> (r: ChessCell)
    ensures
        r == ChessCell(RANK_2, E_FILE),
{
    ChessCell(RANK_2, E_FILE)
}

pub fn f2() -> (r: ChessCell)
    ensures
        r == ChessCell(RANK_2, F_FILE),
{
    ChessCell(RANK_2, F_FILE)
}

pub fn g2() -> (r: ChessCell)
    ensures
        r == ChessCell(RANK_2, G_FILE),
{
    ChessCell(RANK_2, G_FILE)
}

pub fn h2() -> (r: ChessCell)
    ensures
        r == ChessCell(RANK_2, H_FILE),
{
    ChessCell(RANK_2, H_FILE)
}

pub fn a3() -> (r: ChessCell)
    ensures
        r == ChessCell(RANK_3, A_FILE),
{
    ChessCell(RANK_3, A_FILE)
}

pub fn b3() -> (r: ChessCell)
    ensures
        r == ChessCell(RANK_3, B_FILE),
{
    ChessCell(RANK_3, B_FILE)
}

pub fn c3() -> (r: ChessCell)
    ensures
        r == ChessCell(RANK_3, C_FILE),
{
    ChessCell(RANK_3, C_FILE)
}

pub fn d3() -> (r: ChessCell)
    ensures
        r == ChessCell(RANK_3, D_FILE),
{
    ChessCell(RANK_3, D_FILE)
}

pub fn e3() -> (r: ChessCell)
    ensures
        r == ChessCell(RANK_3, E_FILE),
{
    ChessCell(RANK_3, E_FILE)
}

pub fn f3() -> (r: ChessCell)
    ensures
        r == ChessCell(RANK_3, F_FILE),
{
    ChessCell(RANK_3, F_FILE)
}

pub fn g3() -> (r: ChessCell)
    ensures
        r == ChessCell(RANK_3, G_FILE),
{
    ChessCell(RANK_3, G_FILE)
}

pub fn h3() -> (r: ChessCell)
    ensures
        r == ChessCell(RANK_3, H_FILE),
{
    ChessCell(RANK_3, H_FILE)
}

pub fn a4() -> (r: ChessCell)
    ensures
        r == ChessCell(RANK_4, A_FILE),
{
    ChessCell(RANK_4, A_FILE)
}

pub fn b4() -> (r: ChessCell)
    ensures
        r == ChessCell(RANK_4, B_FILE),
{
    ChessCell(RANK_4, B_FILE)
}

pub fn c4() -> (r: ChessCell)
    ensures
        r == ChessCell(RANK_4, C_FILE),
{
    ChessCell(RANK_4, C_FILE)
}

pub fn d4() -> (r: ChessCell)
    ensures
        r == ChessCell(RANK_4, D_FILE),
{
    ChessCell(RANK_4, D_FILE)
}

pub fn e4() -> (r: ChessCell)
    ensures
        r == ChessCell(RANK_4, E_FILE),
{
    ChessCell(RANK_4, E_FILE)
}

pub fn f4() -> (r: ChessCell)
    ensures
        r == ChessCell(RANK_4, F_FILE),
{
    ChessCell(RANK_4, F_FILE)
}

pub fn g4() -> (r: ChessCell)
    ensures
        r == ChessCell(RANK_4, G_FILE),
{
    ChessCell(RANK_4, G_FILE)
}

pub fn h4() -> (r: ChessCell)
    ensures
        r == ChessCell(RANK_4, H_FILE),
{
    ChessCell(RANK_4, H_FILE)
}

pub fn a5() -> (r: ChessCell)
    ensures
        r == ChessCell(RANK_5, A_FILE),
{
    ChessCell(RANK_5, A_FILE)
}

pub fn b5() -> (r: ChessCell)
    ensures
        r == ChessCell(RANK_5, B_FILE),
{
    ChessCell(RANK_5, B_FILE)
}

pub fn c5() -> (r: ChessCell)
    ensures
        r == ChessCell(RANK_5, C_FILE),
{
    ChessCell(RANK_5, C_FILE)
}

pub fn d5() -> (r: ChessCell)
    ensures
        r == ChessCell(RANK_5, D_FILE),
{
    ChessCell(RANK_5, D_FILE)
}

pub fn e5() -> (r: ChessCell)
    ensures
        r == ChessCell(RANK_5, E_FILE),
{
    ChessCell(RANK_5, E_FILE)
}

pub fn f5() -> (r: ChessCell)
    ensures
        r == ChessCell(RANK_5, F_FILE),
{
    ChessCell(RANK_5, F_FILE)
}

pub fn g5() -> (r: ChessCell)
    ensures
        r == ChessCell(RANK_5, G_FILE),
{
    ChessCell(RANK_5, G_FILE)
}

pub fn h5() -> (r: ChessCell)
    ensures
        r == ChessCell(RANK_5, H_FILE),
{
    ChessCell(RANK_5, H_FILE)
}

pub fn a6() -> (r: ChessCell)
    ensures
        r == ChessCell(RANK_6, A_FILE),
{
    ChessCell(RANK_6, A_FILE)
}

pub fn b6() -> (r: ChessCell)
    ensures
        r == ChessCell(RANK_6, B_FILE),
{
    ChessCell(RANK_6, B_FILE)
}

pub fn c6() -> (r: ChessCell)
    ensures
        r == ChessCell(RANK_6, C_FILE),
{
    ChessCell(RANK_6, C_FILE)
}

pub fn d6() -> (r: ChessCell)
    ensures
        r == ChessCell(RANK_6, D_FILE),
{
    ChessCell(RANK_6, D_FILE)
}

pub fn e6() -> (r: ChessCell)
    ensures
        r == ChessCell(RANK_6, E_FILE),
{
    ChessCell(RANK_6, E_FILE)
}

pub fn f6() -> (r: ChessCell)
    ensures
        r == ChessCell(RANK_6, F_FILE),
{
    ChessCell(RANK_6, F_FILE)
}

pub fn g6() -> (r: ChessCell)
    ensures
        r == ChessCell(RANK_6, G_FILE),
{
    ChessCell(RANK_6, G_FILE)
}

pub fn h6() -> (r: ChessCell)
    ensures
        r == ChessCell(RANK_6, H_FILE),
{
    ChessCell(RANK_6, H_FILE)
}

pub fn a7() -> (r: ChessCell)
    ensures
        r == ChessCell(RANK_7, A_FILE),
{
    ChessCell(RANK_7, A_FILE)
}

pub fn b7() -> (r: ChessCell)
    ensures
        r == ChessCell(RANK_7, B_FILE),
{
    ChessCell(RANK_7, B_FILE)
}

pub fn c7() -> (r: ChessCell)
    ensures
        r == ChessCell(RANK_7, C_FILE),
{
    ChessCell(RANK_7, C_FILE)
}

pub fn d7() -> (r: ChessCell)
    ensures
        r == ChessCell(RANK_7, D_FILE),
{
    ChessCell(RANK_7, D_FILE)
}

pub fn e7() -> (r: ChessCell)
    ensures
        r == ChessCell(RANK_7, E_FILE),
{
    ChessCell(RANK_7, E_FILE)
}

pub fn f7() -> (r: ChessCell)
    ensures
        r == ChessCell(RANK_7, F_FILE),
{
    ChessCell(RANK_7, F_FILE)
}

pub fn g7() -> (r: ChessCell)
    ensures
        r == ChessCell(RANK_7, G_FILE),
{
    ChessCell(RANK_7, G_FILE)
}

pub fn h7() -> (r: ChessCell)
    ensures
        r == ChessCell(RANK_7, H_FILE),
{
    ChessCell(RANK_7, H_FILE)
}

pub fn a8() -> (r: ChessCell)
    ensures
        r == ChessCell(RANK_8, A_FILE),
{
    ChessCell(RANK_8, A_FILE)
}

pub fn b8() -> (r: ChessCell)
    ensures
        r == ChessCell(RANK_8, B_FILE),
{
    ChessCell(RANK_8, B_FILE)
}

pub fn c8() -> (r: ChessCell)
    ensures
        r == ChessCell(RANK_8, C_FILE),
{
    ChessCell(RANK_8, C_FILE)
}

pub fn d8() -> (r: ChessCell)
    ensures
        r == ChessCell(RANK_8, D_FILE),
{
    ChessCell(RANK_8, D_FILE)
}

pub fn e8() -> (r: ChessCell)
    ensures
        r == ChessCell(RANK_8, E_FILE),
{
    ChessCell(RANK_8, E_FILE)
}

pub fn f8() -> (r: ChessCell)
    ensures
        r == ChessCell(RANK_8, F_FILE),
{
    ChessCell(RANK_8, F_FILE)
}

pub fn g8() -> (r: ChessCell)
    ensures
        r == ChessCell(RANK_8, G_FILE),
{
    ChessCell(RANK_8, G_FILE)
}

pub fn h8() -> (r: ChessCell)
    ensures
        r == ChessCell(RANK_8, H_FILE),
{
    ChessCell(RANK_8, H_FILE)
}

} // verus!
