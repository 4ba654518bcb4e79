//! Reading a position from its written form: six fields separated by
//! white space, of which the first four are read. They give the pieces
//! rank by rank from the eighth to the first, the side to move, the
//! castling rights and the en passant target.

use vstd::prelude::*;
use crate::board_elements::{CastlingRights, ChessCell, Piece, PieceColor, PieceKind, Square};
use crate::board_state::BoardState;
use crate::chess_board::{empty_square, put, square_at, ChessBoard};
use crate::constants::{A_FILE, BOARD_END, RANK_1};
use crate::position::lemma_put_grid_wf;

verus! {

/// Why a text is not the written form of a position.
#[derive(Debug, Clone, Copy, PartialEq, Eq, Structural)]
pub enum FenError {
    /// The text does not have six fields.
    FieldCount,
    /// The placement of the pieces does not have eight ranks.
    RankCount,
    /// A digit skips beyond the end of its rank.
    RankOutOfBounds,
    /// A letter does not stand for a piece.
    NotAPiece,
    /// A rank does not have eight files.
    RankLength,
    /// One of the kings is not on the board.
    MissingKing,
    /// The side to move is neither `w` nor `b`.
    ToMove,
    /// The castling rights are longer than four letters.
    CastlingTooLong,
    /// The castling rights hold a letter other than `K Q k q -`.
    CastlingInvalid,
    /// The en passant target is neither `-` nor the name of a cell.
    EnPassant,
}

impl FenError {
    /// The reason in words.
    pub fn message(self) -> (r: &'static str)
        ensures
            r@ == (match self {
                FenError::FieldCount => "Failed to parse FEN string: FEN string did not have length 6"@,
                FenError::RankCount => "Failed to parse FEN string: piece placements did not contain 8 ranks."@,
                FenError::RankOutOfBounds => "Failed to parse FEN string: Rank went out of bounds"@,
                FenError::NotAPiece => "Failed to parse FEN string: Character was not a chess piece"@,
                FenError::RankLength => "Failed to parse FEN string: Rank did not have length 8"@,
                FenError::MissingKing => "Failed to parse FEN string: Could not find both kings"@,
                FenError::ToMove => "Failed to parse FEN string: player to move was not black or white"@,
                FenError::CastlingTooLong => "Failed to parse FEN string: Castling rights string was too long"@,
                FenError::CastlingInvalid => "Failed to parse FEN string: Castling rights contained invalid characters"@,
                FenError::EnPassant => "Failed to parse FEN string: En passant value was not valid FEN"@,
            }),
    {
        match self {
            FenError::FieldCount => "Failed to parse FEN string: FEN string did not have length 6",
            FenError::RankCount => "Failed to parse FEN string: piece placements did not contain 8 ranks.",
            FenError::RankOutOfBounds => "Failed to parse FEN string: Rank went out of bounds",
            FenError::NotAPiece => "Failed to parse FEN string: Character was not a chess piece",
            FenError::RankLength => "Failed to parse FEN string: Rank did not have length 8",
            FenError::MissingKing => "Failed to parse FEN string: Could not find both kings",
            FenError::ToMove => "Failed to parse FEN string: player to move was not black or white",
            FenError::CastlingTooLong => "Failed to parse FEN string: Castling rights string was too long",
            FenError::CastlingInvalid => "Failed to parse FEN string: Castling rights contained invalid characters",
            FenError::EnPassant => "Failed to parse FEN string: En passant value was not valid FEN",
        }
    }
}

/// Whether the byte is white space: space, tab, line feed, form feed or
/// carriage return.
pub open spec fn is_space(byte: u8) -> bool {
    byte == 0x20 || byte == 0x09 || byte == 0x0a || byte == 0x0c || byte == 0x0d
}

/// Whether the byte separates parts: white space where `by_space` is set,
/// a slash where it is not.
pub open spec fn separates(byte: u8, by_space: bool) -> bool {
    if by_space {
        is_space(byte)
    } else {
        byte == 0x2f
    }
}

/// The parts of the first `n` bytes that are closed by a separator, and
/// the part that is still open. Between white space, parts without bytes
/// are left out; between slashes they are kept.
pub open spec fn split_state(text: Seq<u8>, by_space: bool, n: nat) -> (Seq<Seq<u8>>, Seq<u8>)
    decreases n,
{
    if n == 0 {
        (Seq::empty(), Seq::empty())
    } else {
        let (done, open) = split_state(text, by_space, (n - 1) as nat);
        let byte = text[n - 1];
        if separates(byte, by_space) {
            if by_space && open.len() == 0 {
                (done, open)
            } else {
                (done.push(open), Seq::empty())
            }
        } else {
            (done, open.push(byte))
        }
    }
}

/// The parts into which the separators cut the text.
pub open spec fn split(text: Seq<u8>, by_space: bool) -> Seq<Seq<u8>> {
    let (done, open) = split_state(text, by_space, text.len());
    if by_space && open.len() == 0 {
        done
    } else {
        done.push(open)
    }
}

/// Cuts the text into its parts.
fn split_text(text: &[u8], by_space: bool) -> (r: Vec<Vec<u8>>)
    ensures
        r@.len() == split(text@, by_space).len(),
        forall|i: int| 0 <= i < r@.len() ==> (#[trigger] r@[i])@ == split(text@, by_space)[i],
{
    let mut done: Vec<Vec<u8>> = Vec::new();
    let mut open: Vec<u8> = Vec::new();
    let mut index: usize = 0;
    while index < text.len()
        invariant
            index <= text.len(),
            done@.len() == split_state(text@, by_space, index as nat).0.len(),
            forall|i: int|
                0 <= i < done@.len() ==> (#[trigger] done@[i])@ == split_state(
                    text@,
                    by_space,
                    index as nat,
                ).0[i],
            open@ == split_state(text@, by_space, index as nat).1,
        decreases text.len() - index,
    {
        let byte = text[index];
        let separator = if by_space {
            byte == 0x20 || byte == 0x09 || byte == 0x0a || byte == 0x0c || byte == 0x0d
        } else {
            byte == 0x2f
        };
        if separator {
            if !(by_space && open.len() == 0) {
                done.push(open);
                open = Vec::new();
            }
        } else {
            open.push(byte);
        }
        index += 1;
    }
    if !(by_space && open.len() == 0) {
        done.push(open);
    }
    done
}

/// Whether the byte is a decimal digit.
pub open spec fn is_digit(byte: u8) -> bool {
    0x30 <= byte <= 0x39
}

/// The board after the bytes of one rank from the `index`-th on have been
/// read, with `file` the file that the next byte speaks of: a digit skips
/// that many files and must not skip beyond the rank; a letter puts its
/// piece on the board; at the end the rank must be full.
pub open spec fn rank_from_fen(
    board: Seq<Square>,
    rank: usize,
    text: Seq<u8>,
    index: nat,
    file: nat,
) -> Result<Seq<Square>, FenError>
    decreases text.len() - index,
{
    if index >= text.len() {
        if file == BOARD_END + 1 {
            Ok(board)
        } else {
            Err(FenError::RankLength)
        }
    } else if is_digit(text[index as int]) {
        let skipped = (text[index as int] - 0x30) as nat;
        if file + skipped > 10 {
            Err(FenError::RankOutOfBounds)
        } else {
            rank_from_fen(board, rank, text, index + 1, file + skipped)
        }
    } else {
        match Piece::spec_from_letter(text[index as int]) {
            None => Err(FenError::NotAPiece),
            Some(piece) => rank_from_fen(
                if file <= BOARD_END {
                    put(board, ChessCell(rank, file as usize), Square::Full(piece))
                } else {
                    board
                },
                rank,
                text,
                index + 1,
                file + 1,
            ),
        }
    }
}

/// The board after the first `n` ranks, counted from the first rank up,
/// have been read. The text names the eighth rank first.
pub open spec fn ranks_from_fen(ranks: Seq<Seq<u8>>, n: nat) -> Result<Seq<Square>, FenError>
    decreases n,
{
    if n == 0 {
        Ok(BoardState::spec_empty_board())
    } else {
        match ranks_from_fen(ranks, (n - 1) as nat) {
            Err(error) => Err(error),
            Ok(board) => rank_from_fen(
                board,
                (RANK_1 + n - 1) as usize,
                ranks[8 - n],
                0,
                A_FILE as nat,
            ),
        }
    }
}

/// The board that the placement field describes.
pub open spec fn spec_board_from_fen(text: Seq<u8>) -> Result<Seq<Square>, FenError> {
    let ranks = split(text, false);
    if ranks.len() != 8 {
        Err(FenError::RankCount)
    } else {
        ranks_from_fen(ranks, 8)
    }
}

/// Once a rank has gone wrong, the ranks above it do not mend it.
proof fn lemma_ranks_from_fen_error(ranks: Seq<Seq<u8>>, failed: nat, n: nat)
    requires
        failed <= n,
        ranks_from_fen(ranks, failed) is Err,
    ensures
        ranks_from_fen(ranks, n) == ranks_from_fen(ranks, failed),
    decreases n,
{
    if failed < n {
        lemma_ranks_from_fen_error(ranks, failed, (n - 1) as nat);
    }
}

/// Beyond the end of a rank the file no longer matters: the rank is
/// refused, and for the same reason whatever the file.
proof fn lemma_rank_from_fen_beyond(
    board: Seq<Square>,
    other: Seq<Square>,
    rank: usize,
    text: Seq<u8>,
    index: nat,
    file: nat,
    beyond: nat,
)
    requires
        file > BOARD_END + 1,
        beyond > BOARD_END + 1,
    ensures
        rank_from_fen(board, rank, text, index, file) is Err,
        rank_from_fen(board, rank, text, index, file) == rank_from_fen(
            other,
            rank,
            text,
            index,
            beyond,
        ),
    decreases text.len() - index,
{
    if index < text.len() && !is_digit(text[index as int]) && Piece::spec_from_letter(
        text[index as int],
    ) is Some {
        lemma_rank_from_fen_beyond(board, other, rank, text, index + 1, file + 1, beyond + 1);
        lemma_rank_from_fen_beyond(other, other, rank, text, index + 1, beyond + 1, beyond);
    }
}

/// Reads the placement of the pieces.
pub fn board_from_fen(fen_board: &[u8]) -> (r: Result<ChessBoard, FenError>)
    ensures
        match r {
            Ok(board) => spec_board_from_fen(fen_board@) == Ok::<Seq<Square>, FenError>(board@)
                && board.wf(),
            Err(error) => spec_board_from_fen(fen_board@) == Err::<Seq<Square>, FenError>(error),
        },
{
    let mut board = ChessBoard::empty();
    let fen_ranks = split_text(fen_board, false);
    if fen_ranks.len() != 8 {
        return Err(FenError::RankCount);
    }
    let ghost ranks = split(fen_board@, false);
    proof {
        assert(board@ =~= BoardState::spec_empty_board()) by {
            assert forall|i: int| 0 <= i < 144 implies board@[i] == empty_square(
                ChessCell((i / 12) as usize, (i % 12) as usize),
            ) by {
                let cell = ChessCell((i / 12) as usize, (i % 12) as usize);
                assert(cell.in_grid());
                assert(board.spec_square(cell) == empty_square(cell));
            }
        }
    }
    let mut board_rank: usize = RANK_1;
    let mut done: usize = 0;
    while done < 8
        invariant
            done <= 8,
            board_rank == RANK_1 + done,
            fen_ranks@.len() == 8,
            spec_board_from_fen(fen_board@) == ranks_from_fen(ranks, 8),
            ranks == split(fen_board@, false),
            ranks.len() == 8,
            forall|i: int| 0 <= i < 8 ==> (#[trigger] fen_ranks@[i])@ == ranks[i],
            board.wf(),
            ranks_from_fen(ranks, done as nat) == Ok::<Seq<Square>, FenError>(board@),
        decreases 8 - done,
    {
        let fen_rank = &fen_ranks[7 - done];
        let ghost text = ranks[7 - done];
        let ghost start = board@;
        let mut board_file: usize = A_FILE;
        let mut index: usize = 0;
        while index < fen_rank.len()
            invariant
                index <= fen_rank.len(),
                fen_rank@ == text,
                done < 8,
                ranks.len() == 8,
                text == ranks[7 - done],
                ranks_from_fen(ranks, done as nat) == Ok::<Seq<Square>, FenError>(start),
                board_rank == RANK_1 + done,
                spec_board_from_fen(fen_board@) == ranks_from_fen(ranks, 8),
                A_FILE <= board_file <= BOARD_END + 2,
                board.wf(),
                rank_from_fen(start, board_rank, text, 0, A_FILE as nat) == rank_from_fen(
                    board@,
                    board_rank,
                    text,
                    index as nat,
                    board_file as nat,
                ),
            decreases fen_rank.len() - index,
        {
            let square = fen_rank[index];
            if 0x30 <= square && square <= 0x39 {
                let skipped_squares = (square - 0x30) as usize;
                if board_file + skipped_squares > 10 {
                    proof {
                        lemma_ranks_from_fen_error(ranks, (done + 1) as nat, 8);
                    }
                    return Err(FenError::RankOutOfBounds);
                }
                board_file += skipped_squares;
            } else {
                let piece = Piece::from_letter(square);
                if piece.is_none() {
                    proof {
                        lemma_ranks_from_fen_error(ranks, (done + 1) as nat, 8);
                    }
                    return Err(FenError::NotAPiece);
                }
                let piece = piece.unwrap();
                let ghost before = board@;
                if board_file <= BOARD_END {
                    *board.square_mut(ChessCell(board_rank, board_file)) = Square::Full(piece);
                    proof {
                        lemma_put_grid_wf(
                            before,
                            ChessCell(board_rank, board_file),
                            Square::Full(piece),
                        );
                    }
                }
                if board_file <= BOARD_END + 1 {
                    board_file += 1;
                } else {
                    proof {
                        lemma_rank_from_fen_beyond(
                            before,
                            before,
                            board_rank,
                            text,
                            (index + 1) as nat,
                            (board_file + 1) as nat,
                            board_file as nat,
                        );
                    }
                }
            }
            index += 1;
        }
        if board_file != BOARD_END + 1 {
            proof {
                lemma_ranks_from_fen_error(ranks, (done + 1) as nat, 8);
            }
            return Err(FenError::RankLength);
        }
        board_rank += 1;
        done += 1;
    }
    Ok(board)
}

/// The castling rights that the field describes: at most four bytes, each
/// one of `K Q k q -`; a right is held where its letter occurs.
pub open spec fn spec_castling_rights_from_fen(text: Seq<u8>) -> Result<CastlingRights, FenError> {
    if text.len() > 4 {
        Err(FenError::CastlingTooLong)
    } else if exists|i: int|
        0 <= i < text.len() && !(#[trigger] text[i] == 0x71 || text[i] == 0x6b || text[i] == 0x51
            || text[i] == 0x4b || text[i] == 0x2d) {
        Err(FenError::CastlingInvalid)
    } else {
        Ok(
            CastlingRights {
                white_king_side_castling: text.contains(0x4b),
                white_queen_side_castling: text.contains(0x51),
                black_king_side_castling: text.contains(0x6b),
                black_queen_side_castling: text.contains(0x71),
            },
        )
    }
}

/// Reads the castling rights.
pub fn castling_rights_from_fen(fen_castling_rights: &[u8]) -> (r: Result<
    CastlingRights,
    FenError,
>)
    ensures
        r == spec_castling_rights_from_fen(fen_castling_rights@),
{
    if fen_castling_rights.len() > 4 {
        return Err(FenError::CastlingTooLong);
    }
    let mut rights = CastlingRights {
        white_king_side_castling: false,
        white_queen_side_castling: false,
        black_king_side_castling: false,
        black_queen_side_castling: false,
    };
    let mut valid = true;
    let mut index: usize = 0;
    while index < fen_castling_rights.len()
        invariant
            index <= fen_castling_rights.len(),
            valid <==> forall|i: int|
                0 <= i < index ==> (#[trigger] fen_castling_rights@[i] == 0x71
                    || fen_castling_rights@[i] == 0x6b || fen_castling_rights@[i] == 0x51
                    || fen_castling_rights@[i] == 0x4b || fen_castling_rights@[i] == 0x2d),
            rights.white_king_side_castling <==> exists|i: int|
                0 <= i < index && fen_castling_rights@[i] == 0x4b,
            rights.white_queen_side_castling <==> exists|i: int|
                0 <= i < index && fen_castling_rights@[i] == 0x51,
            rights.black_king_side_castling <==> exists|i: int|
                0 <= i < index && fen_castling_rights@[i] == 0x6b,
            rights.black_queen_side_castling <==> exists|i: int|
                0 <= i < index && fen_castling_rights@[i] == 0x71,
        decreases fen_castling_rights.len() - index,
    {
        let c = fen_castling_rights[index];
        if !(c == 0x71 || c == 0x6b || c == 0x51 || c == 0x4b || c == 0x2d) {
            valid = false;
        }
        if c == 0x4b {
            rights.white_king_side_castling = true;
        }
        if c == 0x51 {
            rights.white_queen_side_castling = true;
        }
        if c == 0x6b {
            rights.black_king_side_castling = true;
        }
        if c == 0x71 {
            rights.black_queen_side_castling = true;
        }
        index += 1;
    }
    if !valid {
        return Err(FenError::CastlingInvalid);
    }
    Ok(rights)
}

/// The side to move that the field describes.
pub open spec fn spec_to_move_from_fen(text: Seq<u8>) -> Result<PieceColor, FenError> {
    if text.len() == 1 && text[0] == 0x77 {
        Ok(PieceColor::White)
    } else if text.len() == 1 && text[0] == 0x62 {
        Ok(PieceColor::Black)
    } else {
        Err(FenError::ToMove)
    }
}

/// Reads the side to move: `w` or `b`.
pub fn to_move_from_fen(fen_to_move: &[u8]) -> (r: Result<PieceColor, FenError>)
    ensures
        r == spec_to_move_from_fen(fen_to_move@),
{
    if fen_to_move.len() == 1 && fen_to_move[0] == 0x77 {
        Ok(PieceColor::White)
    } else if fen_to_move.len() == 1 && fen_to_move[0] == 0x62 {
        Ok(PieceColor::Black)
    } else {
        Err(FenError::ToMove)
    }
}

/// The en passant target that the field describes.
pub open spec fn spec_en_passant_square_from_fen(text: Seq<u8>) -> Result<
    Option<ChessCell>,
    FenError,
> {
    if text.len() == 1 && text[0] == 0x2d {
        Ok(None)
    } else {
        match ChessCell::spec_parse(text) {
            Ok(cell) => Ok(Some(cell)),
            Err(_) => Err(FenError::EnPassant),
        }
    }
}

/// Reads the en passant target: `-` for none, or the name of a cell.
pub fn en_passant_square_from_fen(fen_en_passant_square: &[u8]) -> (r: Result<
    Option<ChessCell>,
    FenError,
>)
    ensures
        r == spec_en_passant_square_from_fen(fen_en_passant_square@),
{
    if fen_en_passant_square.len() == 1 && fen_en_passant_square[0] == 0x2d {
        return Ok(None);
    }
    match ChessCell::parse(fen_en_passant_square) {
        Ok(cell) => Ok(Some(cell)),
        Err(_) => Err(FenError::EnPassant),
    }
}

/// The cell with the highest dense index below `n` on which the king of
/// the given colour stands.
pub open spec fn last_king_upto(board: Seq<Square>, color: PieceColor, n: nat) -> Option<ChessCell>
    decreases n,
{
    if n == 0 {
        None
    } else {
        let cell = ChessCell::spec_from_index((n - 1) as usize);
        if square_at(board, cell) == Square::Full(Piece { color, kind: PieceKind::King }) {
            Some(cell)
        } else {
            last_king_upto(board, color, (n - 1) as nat)
        }
    }
}

/// The king that is found is a king on the board.
pub proof fn lemma_last_king(board: Seq<Square>, color: PieceColor, n: nat)
    requires
        n <= 64,
    ensures
        match last_king_upto(board, color, n) {
            Some(cell) => cell.on_board() && square_at(board, cell) == Square::Full(
                Piece { color, kind: PieceKind::King },
            ),
            None => true,
        },
    decreases n,
{
    if n > 0 {
        lemma_last_king(board, color, (n - 1) as nat);
    }
}

/// What the first four fields of the written form of a position say.
pub struct FenFields {
    pub board: Seq<Square>,
    pub white_king_location: ChessCell,
    pub black_king_location: ChessCell,
    pub to_move: PieceColor,
    pub castling_rights: CastlingRights,
    pub en_passant: Option<ChessCell>,
}

/// What the written form of a position says, or why it is refused. The
/// fields are read in their order, the kings are looked for once the
/// board has been read, and the first fault decides. Where a colour has
/// several kings, the one on the cell with the highest dense index counts.
pub open spec fn spec_from_fen(text: Seq<u8>) -> Result<FenFields, FenError> {
    let fields = split(text, true);
    if fields.len() != 6 {
        Err(FenError::FieldCount)
    } else {
        match spec_board_from_fen(fields[0]) {
            Err(error) => Err(error),
            Ok(board) => match (
                last_king_upto(board, PieceColor::White, 64),
                last_king_upto(board, PieceColor::Black, 64),
            ) {
                (Some(white_king_location), Some(black_king_location)) => match (
                    spec_to_move_from_fen(fields[1]),
                    spec_castling_rights_from_fen(fields[2]),
                    spec_en_passant_square_from_fen(fields[3]),
                ) {
                    (Err(error), _, _) => Err(error),
                    (Ok(_), Err(error), _) => Err(error),
                    (Ok(_), Ok(_), Err(error)) => Err(error),
                    (Ok(to_move), Ok(castling_rights), Ok(en_passant)) => Ok(
                        FenFields {
                            board,
                            white_king_location,
                            black_king_location,
                            to_move,
                            castling_rights,
                            en_passant,
                        },
                    ),
                },
                _ => Err(FenError::MissingKing),
            },
        }
    }
}

/// Cuts the written form of a position into its fields.
pub fn fields_of(fen: &[u8]) -> (r: Vec<Vec<u8>>)
    ensures
        r@.len() == split(fen@, true).len(),
        forall|i: int| 0 <= i < r@.len() ==> (#[trigger] r@[i])@ == split(fen@, true)[i],
{
    split_text(fen, true)
}

} // verus!
