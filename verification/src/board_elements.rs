//! The value types of the game: colours, piece kinds, pieces, squares,
//! castling rights, bitboards, cells and moves.

use vstd::prelude::*;
use vstd::string::StringSliceAdditionalSpecFns;
use crate::constants::{
    A_FILE, BOARD_END, BOARD_START, B_FILE, C_FILE, D_FILE, E_FILE, F_FILE, G_FILE,
    H_FILE, RANK_1, RANK_2, RANK_3, RANK_4, RANK_5, RANK_6, RANK_7, RANK_8,
};

verus! {

/// The two sides.
#[derive(Debug, Clone, Copy, PartialEq, Eq, Structural)]
pub enum PieceColor {
    White,
    Black,
}

impl PieceColor {
    pub open spec fn spec_opposite(self) -> PieceColor {
        match self {
            PieceColor::White => PieceColor::Black,
            PieceColor::Black => PieceColor::White,
        }
    }

    /// The other colour.
    #[verifier::when_used_as_spec(spec_opposite)]
    pub fn opposite(self) -> (r: PieceColor)
        ensures
            r == self.spec_opposite(),
    {
        match self {
            PieceColor::White => PieceColor::Black,
            PieceColor::Black => PieceColor::White,
        }
    }

    pub open spec fn spec_signum(self) -> i32 {
        match self {
            PieceColor::White => 1i32,
            PieceColor::Black => -1i32,
        }
    }

    /// `1` for White and `-1` for Black: the factor that turns a
    /// White-positive score into the score seen by this colour, and the
    /// direction in which this colour's pawns advance.
    #[verifier::when_used_as_spec(spec_signum)]
    pub fn signum(self) -> (r: i32)
        ensures
            r == self.spec_signum(),
    {
        match self {
            PieceColor::White => 1,
            PieceColor::Black => -1,
        }
    }

    pub open spec fn spec_en_passant_rank(self) -> usize {
        match self {
            PieceColor::White => RANK_3,
            PieceColor::Black => RANK_6,
        }
    }

    /// The rank of the square that a double pawn push of this colour skips.
    #[verifier::when_used_as_spec(spec_en_passant_rank)]
    pub fn en_passant_rank(self) -> (r: usize)
        ensures
            r == self.spec_en_passant_rank(),
    {
        match self {
            PieceColor::White => RANK_3,
            PieceColor::Black => RANK_6,
        }
    }

    pub open spec fn spec_en_passant_attacking_rank(self) -> usize {
        match self {
            PieceColor::White => RANK_5,
            PieceColor::Black => RANK_4,
        }
    }

    /// The rank on which a pawn of this colour stands when it captures en
    /// passant.
    #[verifier::when_used_as_spec(spec_en_passant_attacking_rank)]
    pub fn en_passant_attacking_rank(self) -> (r: usize)
        ensures
            r == self.spec_en_passant_attacking_rank(),
    {
        match self {
            PieceColor::White => RANK_5,
            PieceColor::Black => RANK_4,
        }
    }

    pub open spec fn spec_promotion_rank(self) -> usize {
        match self {
            PieceColor::White => RANK_7,
            PieceColor::Black => RANK_2,
        }
    }

    /// The rank from which a pawn of this colour promotes with its next step.
    #[verifier::when_used_as_spec(spec_promotion_rank)]
    pub fn promotion_rank(self) -> (r: usize)
        ensures
            r == self.spec_promotion_rank(),
    {
        match self {
            PieceColor::White => RANK_7,
            PieceColor::Black => RANK_2,
        }
    }

    pub open spec fn spec_pawn_starting_rank(self) -> usize {
        match self {
            PieceColor::White => RANK_2,
            PieceColor::Black => RANK_7,
        }
    }

    /// The rank on which the pawns of this colour start the game.
    #[verifier::when_used_as_spec(spec_pawn_starting_rank)]
    pub fn pawn_starting_rank(self) -> (r: usize)
        ensures
            r == self.spec_pawn_starting_rank(),
    {
        match self {
            PieceColor::White => RANK_2,
            PieceColor::Black => RANK_7,
        }
    }

    pub open spec fn spec_index(self) -> usize {
        match self {
            PieceColor::White => 0,
            PieceColor::Black => 1,
        }
    }

    /// White is 0, Black is 1.
    #[verifier::when_used_as_spec(spec_index)]
    pub fn index(self) -> (r: usize)
        ensures
            r == self.spec_index(),
    {
        match self {
            PieceColor::White => 0,
            PieceColor::Black => 1,
        }
    }

    /// The colour's name in lower case.
    pub fn name(self) -> (r: &'static str)
        ensures
            r@ == (match self {
                PieceColor::White => "white"@,
                PieceColor::Black => "black"@,
            }),
    {
        match self {
            PieceColor::White => "white",
            PieceColor::Black => "black",
        }
    }
}

/// The six kinds of pieces.
#[derive(Debug, Clone, Copy, PartialEq, Eq, Structural)]
pub enum PieceKind {
    Pawn,
    Knight,
    Bishop,
    Rook,
    Queen,
    King,
}

impl PieceKind {
    pub open spec fn spec_index(self) -> usize {
        match self {
            PieceKind::Pawn => 0,
            PieceKind::Knight => 1,
            PieceKind::Bishop => 2,
            PieceKind::Rook => 3,
            PieceKind::Queen => 4,
            PieceKind::King => 5,
        }
    }

    /// The kinds in ascending order of their value, from 0 for the pawn
    /// to 5 for the king.
    #[verifier::when_used_as_spec(spec_index)]
    pub fn index(self) -> (r: usize)
        ensures
            r == self.spec_index(),
    {
        match self {
            PieceKind::Pawn => 0,
            PieceKind::Knight => 1,
            PieceKind::Bishop => 2,
            PieceKind::Rook => 3,
            PieceKind::Queen => 4,
            PieceKind::King => 5,
        }
    }
}

/// A piece: its colour and its kind.
#[derive(Debug, Clone, Copy, PartialEq, Eq, Structural)]
pub struct Piece {
    pub color: PieceColor,
    pub kind: PieceKind,
}

impl Piece {
    pub fn pawn(color: PieceColor) -> (r: Piece)
        ensures
            r == (Piece { color, kind: PieceKind::Pawn }),
    {
        Piece { color, kind: PieceKind::Pawn }
    }

    pub fn knight(color: PieceColor) -> (r: Piece)
        ensures
            r == (Piece { color, kind: PieceKind::Knight }),
    {
        Piece { color, kind: PieceKind::Knight }
    }

    pub fn bishop(color: PieceColor) -> (r: Piece)
        ensures
            r == (Piece { color, kind: PieceKind::Bishop }),
    {
        Piece { color, kind: PieceKind::Bishop }
    }

    pub fn rook(color: PieceColor) -> (r: Piece)
        ensures
            r == (Piece { color, kind: PieceKind::Rook }),
    {
        Piece { color, kind: PieceKind::Rook }
    }

    pub fn queen(color: PieceColor) -> (r: Piece)
        ensures
            r == (Piece { color, kind: PieceKind::Queen }),
    {
        Piece { color, kind: PieceKind::Queen }
    }

    pub fn king(color: PieceColor) -> (r: Piece)
        ensures
            r == (Piece { color, kind: PieceKind::King }),
    {
        Piece { color, kind: PieceKind::King }
    }

    pub open spec fn spec_index(self) -> usize {
        (self.color.spec_index() * 6 + self.kind.spec_index()) as usize
    }

    /// A number below twelve that tells the twelve pieces apart: the six
    /// White kinds come first, then the six Black kinds.
    #[verifier::when_used_as_spec(spec_index)]
    pub fn index(self) -> (r: usize)
        ensures
            r == self.spec_index(),
            r < 12,
    {
        self.color.index() * 6 + self.kind.index()
    }

    pub open spec fn spec_value(self) -> i32 {
        match self.kind {
            PieceKind::Pawn => 100i32,
            PieceKind::Knight => 300i32,
            PieceKind::Bishop => 325i32,
            PieceKind::Rook => 500i32,
            PieceKind::Queen => 900i32,
            PieceKind::King => 10000i32,
        }
    }

    /// Material value in centipawns.
    #[verifier::when_used_as_spec(spec_value)]
    pub fn value(self) -> (r: i32)
        ensures
            r == self.spec_value(),
    {
        match self.kind {
            PieceKind::Pawn => 100,
            PieceKind::Knight => 300,
            PieceKind::Bishop => 325,
            PieceKind::Rook => 500,
            PieceKind::Queen => 900,
            PieceKind::King => 10000,
        }
    }

    /// The piece that a letter of a position string stands for: the letters
    /// `p n b r q k`, in lower case for Black and in upper case for White.
    pub open spec fn spec_from_letter(letter: u8) -> Option<Piece> {
        let color = if 0x61 <= letter <= 0x7a {
            PieceColor::Black
        } else {
            PieceColor::White
        };
        let lower = if 0x41 <= letter <= 0x5a {
            (letter + 0x20) as u8
        } else {
            letter
        };
        if lower == 0x70 {
            Some(Piece { color, kind: PieceKind::Pawn })
        } else if lower == 0x6e {
            Some(Piece { color, kind: PieceKind::Knight })
        } else if lower == 0x62 {
            Some(Piece { color, kind: PieceKind::Bishop })
        } else if lower == 0x72 {
            Some(Piece { color, kind: PieceKind::Rook })
        } else if lower == 0x71 {
            Some(Piece { color, kind: PieceKind::Queen })
        } else if lower == 0x6b {
            Some(Piece { color, kind: PieceKind::King })
        } else {
            None
        }
    }

    /// Reads a piece from its letter, or returns `None` for any other byte.
    pub fn from_letter(letter: u8) -> (r: Option<Piece>)
        ensures
            r == Piece::spec_from_letter(letter),
    {
        let color = if 0x61 <= letter && letter <= 0x7a {
            PieceColor::Black
        } else {
            PieceColor::White
        };
        let lower: u8 = if 0x41 <= letter && letter <= 0x5a {
            letter + 0x20
        } else {
            letter
        };
        if lower == 0x70 {
            Some(Piece::pawn(color))
        } else if lower == 0x6e {
            Some(Piece::knight(color))
        } else if lower == 0x62 {
            Some(Piece::bishop(color))
        } else if lower == 0x72 {
            Some(Piece::rook(color))
        } else if lower == 0x71 {
            Some(Piece::queen(color))
        } else if lower == 0x6b {
            Some(Piece::king(color))
        } else {
            None
        }
    }
}

/// What one square of the padded grid holds. `Aether` marks the sentinel
/// squares around the playing area.
#[derive(Debug, Clone, Copy, PartialEq, Eq, Structural)]
pub enum Square {
    Empty,
    Full(Piece),
    Aether,
}

impl Square {
    pub open spec fn spec_is_aether(self) -> bool {
        self == Square::Aether
    }

    #[verifier::when_used_as_spec(spec_is_aether)]
    pub fn is_aether(self) -> (r: bool)
        ensures
            r == self.spec_is_aether(),
    {
        match self {
            Square::Aether => true,
            _ => false,
        }
    }

    pub open spec fn spec_is_empty(self) -> bool {
        self == Square::Empty
    }

    #[verifier::when_used_as_spec(spec_is_empty)]
    pub fn is_empty(self) -> (r: bool)
        ensures
            r == self.spec_is_empty(),
    {
        match self {
            Square::Empty => true,
            _ => false,
        }
    }

    pub open spec fn spec_is_color(self, color: PieceColor) -> bool {
        match self {
            Square::Full(piece) => piece.color == color,
            _ => false,
        }
    }

    /// Whether the square holds a piece of the given colour.
    #[verifier::when_used_as_spec(spec_is_color)]
    pub fn is_color(self, color: PieceColor) -> (r: bool)
        ensures
            r == self.spec_is_color(color),
    {
        match self {
            Square::Full(piece) => piece.color == color,
            _ => false,
        }
    }

    pub open spec fn spec_is_enemy_of(self, color: PieceColor) -> bool {
        match self {
            Square::Full(piece) => piece.color != color,
            _ => false,
        }
    }

    /// Whether the square holds a piece of the other colour.
    #[verifier::when_used_as_spec(spec_is_enemy_of)]
    pub fn is_enemy_of(self, color: PieceColor) -> (r: bool)
        ensures
            r == self.spec_is_enemy_of(color),
    {
        match self {
            Square::Full(piece) => piece.color != color,
            _ => false,
        }
    }

    pub open spec fn spec_has_piece(self) -> bool {
        self is Full
    }

    #[verifier::when_used_as_spec(spec_has_piece)]
    pub fn has_piece(self) -> (r: bool)
        ensures
            r == self.spec_has_piece(),
    {
        match self {
            Square::Full(_) => true,
            _ => false,
        }
    }

    pub open spec fn spec_is_empty_or_enemy_of(self, color: PieceColor) -> bool {
        match self {
            Square::Full(piece) => piece.color != color,
            Square::Empty => true,
            Square::Aether => false,
        }
    }

    /// Whether a piece of the given colour may land on the square.
    #[verifier::when_used_as_spec(spec_is_empty_or_enemy_of)]
    pub fn is_empty_or_enemy_of(self, color: PieceColor) -> (r: bool)
        ensures
            r == self.spec_is_empty_or_enemy_of(color),
    {
        match self {
            Square::Full(piece) => piece.color != color,
            Square::Empty => true,
            Square::Aether => false,
        }
    }

    pub open spec fn spec_piece(self) -> Option<Piece> {
        match self {
            Square::Full(piece) => Some(piece),
            _ => None,
        }
    }

    /// The piece on the square, if there is one. A sentinel square has no
    /// answer and is left out.
    #[verifier::when_used_as_spec(spec_piece)]
    pub fn piece(self) -> (r: Option<Piece>)
        requires
            !self.is_aether(),
        ensures
            r == self.spec_piece(),
    {
        match self {
            Square::Full(piece) => Some(piece),
            _ => None,
        }
    }
}

impl From<Piece> for Square {
    fn from(value: Piece) -> (r: Square) {
        Square::Full(value)
    }
}

impl vstd::std_specs::convert::FromSpecImpl<Piece> for Square {
    open spec fn obeys_from_spec() -> bool {
        true
    }

    open spec fn from_spec(value: Piece) -> Square {
        Square::Full(value)
    }
}

/// The four ways of castling.
#[derive(Debug, Clone, Copy, PartialEq, Eq, Structural)]
pub enum CastlingType {
    WhiteKingSide,
    WhiteQueenSide,
    BlackKingSide,
    BlackQueenSide,
}

impl CastlingType {
    pub open spec fn spec_direction(self) -> i8 {
        match self {
            CastlingType::WhiteKingSide | CastlingType::BlackKingSide => 1i8,
            CastlingType::WhiteQueenSide | CastlingType::BlackQueenSide => -1i8,
        }
    }

    /// The direction along the rank in which the king travels: `1` towards
    /// the h-file, `-1` towards the a-file.
    #[verifier::when_used_as_spec(spec_direction)]
    pub fn direction(self) -> (r: i8)
        ensures
            r == self.spec_direction(),
    {
        match self {
            CastlingType::WhiteKingSide | CastlingType::BlackKingSide => 1,
            CastlingType::WhiteQueenSide | CastlingType::BlackQueenSide => -1,
        }
    }

    pub open spec fn spec_index(self) -> usize {
        match self {
            CastlingType::WhiteKingSide => 0,
            CastlingType::WhiteQueenSide => 1,
            CastlingType::BlackKingSide => 2,
            CastlingType::BlackQueenSide => 3,
        }
    }

    /// The place of the right in the table of hash strings.
    #[verifier::when_used_as_spec(spec_index)]
    pub fn index(self) -> (r: usize)
        ensures
            r == self.spec_index(),
    {
        match self {
            CastlingType::WhiteKingSide => 0,
            CastlingType::WhiteQueenSide => 1,
            CastlingType::BlackKingSide => 2,
            CastlingType::BlackQueenSide => 3,
        }
    }

    /// The colour that castles this way.
    pub open spec fn color(self) -> PieceColor {
        match self {
            CastlingType::WhiteKingSide | CastlingType::WhiteQueenSide => PieceColor::White,
            CastlingType::BlackKingSide | CastlingType::BlackQueenSide => PieceColor::Black,
        }
    }

    /// The square on which the king stands before castling.
    pub open spec fn king_home(self) -> ChessCell {
        match self.color() {
            PieceColor::White => ChessCell(RANK_1, E_FILE),
            PieceColor::Black => ChessCell(RANK_8, E_FILE),
        }
    }

    /// The square on which the king stands after castling.
    pub open spec fn king_dest(self) -> ChessCell {
        match self {
            CastlingType::WhiteKingSide => ChessCell(RANK_1, G_FILE),
            CastlingType::WhiteQueenSide => ChessCell(RANK_1, C_FILE),
            CastlingType::BlackKingSide => ChessCell(RANK_8, G_FILE),
            CastlingType::BlackQueenSide => ChessCell(RANK_8, C_FILE),
        }
    }

    /// The corner on which the rook stands before castling.
    pub open spec fn rook_home(self) -> ChessCell {
        match self {
            CastlingType::WhiteKingSide => ChessCell(RANK_1, H_FILE),
            CastlingType::WhiteQueenSide => ChessCell(RANK_1, A_FILE),
            CastlingType::BlackKingSide => ChessCell(RANK_8, H_FILE),
            CastlingType::BlackQueenSide => ChessCell(RANK_8, A_FILE),
        }
    }

    /// The square next to the king on which the rook stands after castling.
    pub open spec fn rook_dest(self) -> ChessCell {
        match self {
            CastlingType::WhiteKingSide => ChessCell(RANK_1, F_FILE),
            CastlingType::WhiteQueenSide => ChessCell(RANK_1, D_FILE),
            CastlingType::BlackKingSide => ChessCell(RANK_8, F_FILE),
            CastlingType::BlackQueenSide => ChessCell(RANK_8, D_FILE),
        }
    }

    /// Whether the cell is one of the four corners from which a rook castles.
    pub open spec fn spec_is_rook_home(cell: ChessCell) -> bool {
        cell == ChessCell(RANK_1, A_FILE) || cell == ChessCell(RANK_1, H_FILE) || cell == ChessCell(
            RANK_8,
            A_FILE,
        ) || cell == ChessCell(RANK_8, H_FILE)
    }

    #[verifier::when_used_as_spec(spec_is_rook_home)]
    pub fn is_rook_home(cell: ChessCell) -> (r: bool)
        ensures
            r == CastlingType::spec_is_rook_home(cell),
    {
        cell == ChessCell(RANK_1, A_FILE) || cell == ChessCell(RANK_1, H_FILE) || cell == ChessCell(
            RANK_8,
            A_FILE,
        ) || cell == ChessCell(RANK_8, H_FILE)
    }

    pub open spec fn spec_of_rook_home(cell: ChessCell) -> CastlingType {
        if cell == ChessCell(RANK_1, A_FILE) {
            CastlingType::WhiteQueenSide
        } else if cell == ChessCell(RANK_1, H_FILE) {
            CastlingType::WhiteKingSide
        } else if cell == ChessCell(RANK_8, A_FILE) {
            CastlingType::BlackQueenSide
        } else {
            CastlingType::BlackKingSide
        }
    }

    /// The way of castling that uses the rook of the given corner.
    #[verifier::when_used_as_spec(spec_of_rook_home)]
    pub fn of_rook_home(cell: ChessCell) -> (r: CastlingType)
        requires
            CastlingType::spec_is_rook_home(cell),
        ensures
            r == CastlingType::spec_of_rook_home(cell),
            r.rook_home() == cell,
    {
        if cell == ChessCell(RANK_1, A_FILE) {
            CastlingType::WhiteQueenSide
        } else if cell == ChessCell(RANK_1, H_FILE) {
            CastlingType::WhiteKingSide
        } else if cell == ChessCell(RANK_8, A_FILE) {
            CastlingType::BlackQueenSide
        } else {
            CastlingType::BlackKingSide
        }
    }
}

/// Which of the four ways of castling are still open to their side. A
/// right that is given up does not come back.
#[derive(Clone, PartialEq, Eq, Debug, Copy, Structural)]
pub struct CastlingRights {
    pub white_king_side_castling: bool,
    pub white_queen_side_castling: bool,
    pub black_king_side_castling: bool,
    pub black_queen_side_castling: bool,
}

impl Default for CastlingRights {
    fn default() -> (r: CastlingRights)
        ensures
            r == CastlingRights::none(),
    {
        CastlingRights {
            white_king_side_castling: false,
            white_queen_side_castling: false,
            black_king_side_castling: false,
            black_queen_side_castling: false,
        }
    }
}

impl CastlingRights {
    /// No right at all.
    pub open spec fn none() -> CastlingRights {
        CastlingRights {
            white_king_side_castling: false,
            white_queen_side_castling: false,
            black_king_side_castling: false,
            black_queen_side_castling: false,
        }
    }

    pub open spec fn spec_has(self, castling_type: CastlingType) -> bool {
        match castling_type {
            CastlingType::WhiteKingSide => self.white_king_side_castling,
            CastlingType::WhiteQueenSide => self.white_queen_side_castling,
            CastlingType::BlackKingSide => self.black_king_side_castling,
            CastlingType::BlackQueenSide => self.black_queen_side_castling,
        }
    }

    /// Whether the right to castle in the given way is still held.
    #[verifier::when_used_as_spec(spec_has)]
    pub fn has(self, castling_type: CastlingType) -> (r: bool)
        ensures
            r == self.spec_has(castling_type),
    {
        match castling_type {
            CastlingType::WhiteKingSide => self.white_king_side_castling,
            CastlingType::WhiteQueenSide => self.white_queen_side_castling,
            CastlingType::BlackKingSide => self.black_king_side_castling,
            CastlingType::BlackQueenSide => self.black_queen_side_castling,
        }
    }

    /// Whether every right held here is also held in `other`.
    pub open spec fn is_subset_of(self, other: CastlingRights) -> bool {
        forall|t: CastlingType| self.spec_has(t) ==> other.spec_has(t)
    }

    /// These rights without the given one.
    pub open spec fn without(self, castling_type: CastlingType) -> CastlingRights {
        match castling_type {
            CastlingType::WhiteKingSide => CastlingRights {
                white_king_side_castling: false,
                ..self
            },
            CastlingType::WhiteQueenSide => CastlingRights {
                white_queen_side_castling: false,
                ..self
            },
            CastlingType::BlackKingSide => CastlingRights {
                black_king_side_castling: false,
                ..self
            },
            CastlingType::BlackQueenSide => CastlingRights {
                black_queen_side_castling: false,
                ..self
            },
        }
    }

    /// These rights without the two of the given colour.
    pub open spec fn without_color(self, color: PieceColor) -> CastlingRights {
        match color {
            PieceColor::White => CastlingRights {
                white_king_side_castling: false,
                white_queen_side_castling: false,
                ..self
            },
            PieceColor::Black => CastlingRights {
                black_king_side_castling: false,
                black_queen_side_castling: false,
                ..self
            },
        }
    }

    /// Every right, as at the start of a game.
    pub fn all_castling_rights() -> (r: CastlingRights)
        ensures
            forall|t: CastlingType| r.spec_has(t),
    {
        CastlingRights {
            white_king_side_castling: true,
            white_queen_side_castling: true,
            black_king_side_castling: true,
            black_queen_side_castling: true,
        }
    }

    /// Gives up one right.
    pub fn remove_castling_right(&mut self, castling_type: CastlingType)
        ensures
            *final(self) == old(self).without(castling_type),
    {
        match castling_type {
            CastlingType::WhiteKingSide => self.white_king_side_castling = false,
            CastlingType::WhiteQueenSide => self.white_queen_side_castling = false,
            CastlingType::BlackKingSide => self.black_king_side_castling = false,
            CastlingType::BlackQueenSide => self.black_queen_side_castling = false,
        }
    }

    /// Gives up both rights of a colour.
    pub fn remove_color_castling_rights(&mut self, color: PieceColor)
        ensures
            *final(self) == old(self).without_color(color),
    {
        match color {
            PieceColor::White => {
                self.white_king_side_castling = false;
                self.white_queen_side_castling = false;
            },
            PieceColor::Black => {
                self.black_king_side_castling = false;
                self.black_queen_side_castling = false;
            },
        }
    }

    /// The four ways of castling in their fixed order, each kept where the
    /// two sets of rights disagree on it.
    pub open spec fn spec_diff_from(self, other: CastlingRights) -> Seq<CastlingType> {
        let a = if self.white_king_side_castling != other.white_king_side_castling {
            seq![CastlingType::WhiteKingSide]
        } else {
            Seq::empty()
        };
        let b = if self.white_queen_side_castling != other.white_queen_side_castling {
            seq![CastlingType::WhiteQueenSide]
        } else {
            Seq::empty()
        };
        let c = if self.black_king_side_castling != other.black_king_side_castling {
            seq![CastlingType::BlackKingSide]
        } else {
            Seq::empty()
        };
        let d = if self.black_queen_side_castling != other.black_queen_side_castling {
            seq![CastlingType::BlackQueenSide]
        } else {
            Seq::empty()
        };
        a + b + c + d
    }

    /// The ways of castling on which `self` and `other` disagree.
    pub fn diff_from(&self, other: CastlingRights) -> (r: Vec<CastlingType>)
        ensures
            r@ == self.spec_diff_from(other),
    {
        let mut castling_rights_diff: Vec<CastlingType> = Vec::new();
        if self.white_king_side_castling != other.white_king_side_castling {
            castling_rights_diff.push(CastlingType::WhiteKingSide);
        }
        if self.white_queen_side_castling != other.white_queen_side_castling {
            castling_rights_diff.push(CastlingType::WhiteQueenSide);
        }
        if self.black_king_side_castling != other.black_king_side_castling {
            castling_rights_diff.push(CastlingType::BlackKingSide);
        }
        if self.black_queen_side_castling != other.black_queen_side_castling {
            castling_rights_diff.push(CastlingType::BlackQueenSide);
        }
        assert(castling_rights_diff@ =~= self.spec_diff_from(other));
        castling_rights_diff
    }
}

/// Whether bit `index` of `bits` is set.
pub open spec fn bit_is_set(bits: u64, index: u64) -> bool {
    (bits >> index) & 1 == 1
}

/// The squares of one colour as a set of bits: bit `i` stands for the cell
/// with dense index `i`.
#[derive(Debug, Clone, Copy, PartialEq, Eq, Structural)]
pub struct BitBoard(pub u64);

impl BitBoard {
    /// Whether the cell with the given dense index is in the set.
    pub open spec fn spec_contains(self, index: usize) -> bool {
        bit_is_set(self.0, index as u64)
    }

    #[verifier::when_used_as_spec(spec_contains)]
    pub fn contains(self, index: usize) -> (r: bool)
        requires
            index < 64,
        ensures
            r == self.spec_contains(index),
    {
        (self.0 >> (index as u64)) & 1 == 1
    }

    /// The set with the given cell added.
    pub open spec fn with(self, index: usize) -> BitBoard {
        BitBoard(self.0 | (1u64 << (index as u64)))
    }

    /// The set with the given cell removed.
    pub open spec fn without(self, index: usize) -> BitBoard {
        BitBoard(self.0 & !(1u64 << (index as u64)))
    }

    /// Takes the cell with the given dense index out of the set.
    pub fn remove_piece(&mut self, index: usize)
        requires
            index < 64,
        ensures
            *final(self) == old(self).without(index),
            forall|j: usize|
                j < 64 ==> (#[trigger] final(self).spec_contains(j) <==> j != index && old(
                    self,
                ).spec_contains(j)),
    {
        let mask: u64 = !(1u64 << (index as u64));
        let ghost before = self.0;
        self.0 = self.0 & mask;
        proof {
            assert forall|j: usize| j < 64 implies (#[trigger] self.spec_contains(j) <==> j != index
                && old(self).spec_contains(j)) by {
                lemma_clear_bit(before, index as u64, j as u64);
            }
        }
    }

    /// Puts the cell with the given dense index into the set.
    pub fn add_piece(&mut self, index: usize)
        requires
            index < 64,
        ensures
            *final(self) == old(self).with(index),
            forall|j: usize|
                j < 64 ==> (#[trigger] final(self).spec_contains(j) <==> j == index || old(
                    self,
                ).spec_contains(j)),
    {
        let mask: u64 = 1u64 << (index as u64);
        let ghost before = self.0;
        self.0 = self.0 | mask;
        proof {
            assert forall|j: usize| j < 64 implies (#[trigger] self.spec_contains(j) <==> j == index
                || old(self).spec_contains(j)) by {
                lemma_set_bit(before, index as u64, j as u64);
            }
        }
    }
}

/// Clearing bit `i` leaves every other bit as it was.
pub proof fn lemma_clear_bit(bits: u64, i: u64, j: u64)
    by (bit_vector)
    requires
        i < 64,
        j < 64,
    ensures
        bit_is_set(bits & !(1u64 << i), j) <==> j != i && bit_is_set(bits, j),
{
}

/// Setting bit `i` leaves every other bit as it was.
pub proof fn lemma_set_bit(bits: u64, i: u64, j: u64)
    by (bit_vector)
    requires
        i < 64,
        j < 64,
    ensures
        bit_is_set(bits | (1u64 << i), j) <==> j == i || bit_is_set(bits, j),
{
}

/// A square of the padded grid by rank and file, in that order. The cell
/// `b4` is `ChessCell(5, 3)`.
#[derive(Debug, Clone, Copy, PartialEq, Eq, Structural)]
pub struct ChessCell(pub usize, pub usize);

impl From<(usize, usize)> for ChessCell {
    fn from(value: (usize, usize)) -> (r: ChessCell) {
        ChessCell(value.0, value.1)
    }
}

impl vstd::std_specs::convert::FromSpecImpl<(usize, usize)> for ChessCell {
    open spec fn obeys_from_spec() -> bool {
        true
    }

    open spec fn from_spec(value: (usize, usize)) -> ChessCell {
        ChessCell(value.0, value.1)
    }
}

/// Why a text is not the name of a cell.
#[derive(Debug, Clone, Copy, PartialEq, Eq, Structural)]
pub enum CellParseError {
    /// The text is not two bytes long.
    LengthNotTwo,
    /// The first byte is not a letter from `a` to `h`.
    InvalidFile,
    /// The second byte is not a decimal digit.
    InvalidRank,
}

impl CellParseError {
    /// The reason in words, as a sequence of characters.
    pub open spec fn text(self) -> Seq<char> {
        match self {
            CellParseError::LengthNotTwo => "Failed to parse ChessCell from string: Length was not 2"@,
            CellParseError::InvalidFile => "Failed to parse ChessCell from string: Invalid file"@,
            CellParseError::InvalidRank => "Failed to parse ChessCell from string: rank was not a valid number"@,
        }
    }

    /// The reason in words.
    pub fn message(self) -> (r: &'static str)
        ensures
            r@ == self.text(),
    {
        match self {
            CellParseError::LengthNotTwo => "Failed to parse ChessCell from string: Length was not 2",
            CellParseError::InvalidFile => "Failed to parse ChessCell from string: Invalid file",
            CellParseError::InvalidRank => "Failed to parse ChessCell from string: rank was not a valid number",
        }
    }
}

impl ChessCell {
    /// Whether the cell lies in the playing area.
    pub open spec fn on_board(self) -> bool {
        BOARD_START <= self.0 <= BOARD_END && BOARD_START <= self.1 <= BOARD_END
    }

    /// Whether the cell lies in the padded grid.
    pub open spec fn in_grid(self) -> bool {
        self.0 < 12 && self.1 < 12
    }

    /// The position of the cell in the row-major padded grid.
    pub open spec fn grid_index(self) -> int {
        self.0 * 12 + self.1
    }

    pub open spec fn spec_as_index(self) -> usize {
        ((self.0 - BOARD_START) * 8 + (self.1 - BOARD_START)) as usize
    }

    /// The dense index of a cell of the playing area: `a1` is 0, `h1` is 7,
    /// `h8` is 63.
    #[verifier::when_used_as_spec(spec_as_index)]
    pub fn as_index(self) -> (r: usize)
        requires
            self.on_board(),
        ensures
            r == self.spec_as_index(),
            r < 64,
    {
        let rank_index = self.0 - BOARD_START;
        let file_index = self.1 - BOARD_START;
        rank_index * 8 + file_index
    }

    pub open spec fn spec_from_index(index: usize) -> ChessCell {
        ChessCell((index / 8 + BOARD_START) as usize, (index % 8 + BOARD_START) as usize)
    }

    /// The cell with the given dense index.
    #[verifier::when_used_as_spec(spec_from_index)]
    pub fn from_index(index: usize) -> (r: ChessCell)
        ensures
            r == ChessCell::spec_from_index(index),
            index < 64 ==> r.on_board(),
    {
        let rank = index / 8 + BOARD_START;
        let file = index % 8 + BOARD_START;
        ChessCell(rank, file)
    }

    pub open spec fn spec_is_aether(self) -> bool {
        self.0 <= 1 || self.0 >= 10 || self.1 <= 1 || self.1 >= 10
    }

    /// Whether the cell lies outside the playing area.
    #[verifier::when_used_as_spec(spec_is_aether)]
    pub fn is_aether(self) -> (r: bool)
        ensures
            r == self.spec_is_aether(),
            r == !self.on_board(),
    {
        self.0 <= 1 || self.0 >= 10 || self.1 <= 1 || self.1 >= 10
    }

    /// The cell that two bytes name: a file letter from `a` to `h`, then a
    /// decimal digit for the rank. The digits `0` and `9` are read too and
    /// give cells outside the playing area.
    pub open spec fn spec_parse(text: Seq<u8>) -> Result<ChessCell, CellParseError> {
        if text.len() != 2 {
            Err(CellParseError::LengthNotTwo)
        } else if !(0x61 <= text[0] <= 0x68) {
            Err(CellParseError::InvalidFile)
        } else if !(0x30 <= text[1] <= 0x39) {
            Err(CellParseError::InvalidRank)
        } else {
            Ok(ChessCell((text[1] - 0x30 + 1) as usize, (text[0] - 0x61 + BOARD_START) as usize))
        }
    }

    /// Reads a cell from its name in bytes.
    pub fn parse(text: &[u8]) -> (r: Result<ChessCell, CellParseError>)
        ensures
            r == ChessCell::spec_parse(text@),
    {
        if text.len() != 2 {
            return Err(CellParseError::LengthNotTwo);
        }
        let col = text[0];
        let row = text[1];
        if !(0x61 <= col && col <= 0x68) {
            return Err(CellParseError::InvalidFile);
        }
        if !(0x30 <= row && row <= 0x39) {
            return Err(CellParseError::InvalidRank);
        }
        let file = (col - 0x61) as usize;
        let rank = (row - 0x30) as usize;
        Ok(ChessCell(rank + 1, file + BOARD_START))
    }

    /// The letter of a file of the playing area.
    pub open spec fn file_letter(file: usize) -> char {
        if file == A_FILE {
            'a'
        } else if file == B_FILE {
            'b'
        } else if file == C_FILE {
            'c'
        } else if file == D_FILE {
            'd'
        } else if file == E_FILE {
            'e'
        } else if file == F_FILE {
            'f'
        } else if file == G_FILE {
            'g'
        } else {
            'h'
        }
    }

    /// The digit of a rank of the playing area.
    pub open spec fn rank_digit(rank: usize) -> char {
        if rank == RANK_1 {
            '1'
        } else if rank == RANK_2 {
            '2'
        } else if rank == RANK_3 {
            '3'
        } else if rank == RANK_4 {
            '4'
        } else if rank == RANK_5 {
            '5'
        } else if rank == RANK_6 {
            '6'
        } else if rank == RANK_7 {
            '7'
        } else {
            '8'
        }
    }

    /// The name of a cell of the playing area: file letter, then rank digit.
    pub open spec fn name(self) -> Seq<char> {
        seq![ChessCell::file_letter(self.1), ChessCell::rank_digit(self.0)]
    }

    fn file_str(file: usize) -> (r: &'static str)
        requires
            BOARD_START <= file <= BOARD_END,
        ensures
            r@ == seq![ChessCell::file_letter(file)],
    {
        proof {
            reveal_strlit("a");
            reveal_strlit("b");
            reveal_strlit("c");
            reveal_strlit("d");
            reveal_strlit("e");
            reveal_strlit("f");
            reveal_strlit("g");
            reveal_strlit("h");
        }
        let r = if file == A_FILE {
            "a"
        } else if file == B_FILE {
            "b"
        } else if file == C_FILE {
            "c"
        } else if file == D_FILE {
            "d"
        } else if file == E_FILE {
            "e"
        } else if file == F_FILE {
            "f"
        } else if file == G_FILE {
            "g"
        } else {
            "h"
        };
        assert(r@ =~= seq![ChessCell::file_letter(file)]);
        r
    }

    fn rank_str(rank: usize) -> (r: &'static str)
        requires
            BOARD_START <= rank <= BOARD_END,
        ensures
            r@ == seq![ChessCell::rank_digit(rank)],
    {
        proof {
            reveal_strlit("1");
            reveal_strlit("2");
            reveal_strlit("3");
            reveal_strlit("4");
            reveal_strlit("5");
            reveal_strlit("6");
            reveal_strlit("7");
            reveal_strlit("8");
        }
        let r = if rank == RANK_1 {
            "1"
        } else if rank == RANK_2 {
            "2"
        } else if rank == RANK_3 {
            "3"
        } else if rank == RANK_4 {
            "4"
        } else if rank == RANK_5 {
            "5"
        } else if rank == RANK_6 {
            "6"
        } else if rank == RANK_7 {
            "7"
        } else {
            "8"
        };
        assert(r@ =~= seq![ChessCell::rank_digit(rank)]);
        r
    }

    /// Writes the name of a cell of the playing area, such as `e4`.
    pub fn to_string(&self) -> (r: String)
        requires
            self.on_board(),
        ensures
            r@ == self.name(),
    {
        let file = ChessCell::file_str(self.1);
        let rank = ChessCell::rank_str(self.0);
        let r = String::from_str(file).concat(rank);
        assert(r@ =~= self.name());
        r
    }
}

impl core::str::FromStr for ChessCell {
    type Err = &'static str;

    /// Reads a cell from its name: the cell that the bytes of the text
    /// name, or the reason in words why they name none.
    fn from_str(s: &str) -> (r: Result<ChessCell, &'static str>)
        ensures
            match ChessCell::spec_parse(s.spec_bytes()) {
                Ok(cell) => r == Ok::<ChessCell, &'static str>(cell),
                Err(error) => r is Err && r->Err_0@ == error.text(),
            },
    {
        match ChessCell::parse(s.as_bytes()) {
            Ok(cell) => Ok(cell),
            Err(e) => Err(e.message()),
        }
    }
}

/// A move from one cell to another. Castling is the king's move of two
/// files, en passant the pawn's diagonal step onto the target cell; a
/// promotion names the piece that replaces the pawn.
#[derive(Debug, PartialEq, Eq, Clone, Copy, Structural)]
pub struct ChessMove {
    pub start: ChessCell,
    pub dest: ChessCell,
    pub promotion: Option<Piece>,
}

impl ChessMove {
    /// The written form of a move between cells of the playing area, such
    /// as `e2->e4`.
    pub open spec fn text(self) -> Seq<char> {
        self.start.name() + seq!['-', '>'] + self.dest.name()
    }

    /// Writes the move as its start, an arrow, and its destination.
    pub fn to_string(&self) -> (r: String)
        requires
            self.start.on_board(),
            self.dest.on_board(),
        ensures
            r@ == self.text(),
    {
        proof {
            reveal_strlit("->");
        }
        let dest = self.dest.to_string();
        let r = self.start.to_string().concat("->").concat(dest.as_str());
        assert(r@ =~= self.text());
        r
    }
}

impl From<(ChessCell, ChessCell)> for ChessMove {
    fn from(cells: (ChessCell, ChessCell)) -> (r: ChessMove) {
        ChessMove { start: cells.0, dest: cells.1, promotion: None }
    }
}

impl vstd::std_specs::convert::FromSpecImpl<(ChessCell, ChessCell)> for ChessMove {
    open spec fn obeys_from_spec() -> bool {
        true
    }

    open spec fn from_spec(cells: (ChessCell, ChessCell)) -> ChessMove {
        ChessMove { start: cells.0, dest: cells.1, promotion: None }
    }
}

impl From<(ChessCell, ChessCell, Piece)> for ChessMove {
    fn from(value: (ChessCell, ChessCell, Piece)) -> (r: ChessMove) {
        ChessMove { start: value.0, dest: value.1, promotion: Some(value.2) }
    }
}

impl vstd::std_specs::convert::FromSpecImpl<(ChessCell, ChessCell, Piece)> for ChessMove {
    open spec fn obeys_from_spec() -> bool {
        true
    }

    open spec fn from_spec(value: (ChessCell, ChessCell, Piece)) -> ChessMove {
        ChessMove { start: value.0, dest: value.1, promotion: Some(value.2) }
    }
}

impl From<CastlingType> for ChessMove {
    fn from(value: CastlingType) -> (r: ChessMove) {
        let (start, dest) = match value {
            CastlingType::WhiteKingSide => (ChessCell(RANK_1, E_FILE), ChessCell(RANK_1, G_FILE)),
            CastlingType::WhiteQueenSide => (ChessCell(RANK_1, E_FILE), ChessCell(RANK_1, C_FILE)),
            CastlingType::BlackKingSide => (ChessCell(RANK_8, E_FILE), ChessCell(RANK_8, G_FILE)),
            CastlingType::BlackQueenSide => (ChessCell(RANK_8, E_FILE), ChessCell(RANK_8, C_FILE)),
        };
        ChessMove { start, dest, promotion: None }
    }
}

impl vstd::std_specs::convert::FromSpecImpl<CastlingType> for ChessMove {
    open spec fn obeys_from_spec() -> bool {
        true
    }

    open spec fn from_spec(value: CastlingType) -> ChessMove {
        ChessMove { start: value.king_home(), dest: value.king_dest(), promotion: None }
    }
}

} // verus!
