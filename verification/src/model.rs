//! Plain values for what the library reads of a chess position.

use vstd::prelude::*;

verus! {

/// The two sides of a game.
#[derive(Clone, Copy, Debug, PartialEq, Eq, Structural)]
pub enum Side {
    White,
    Black,
}

/// The side that is not `side`.
pub open spec fn opponent(side: Side) -> Side {
    match side {
        Side::White => Side::Black,
        Side::Black => Side::White,
    }
}

/// The kinds of chess pieces.
#[derive(Clone, Copy, Debug, PartialEq, Eq, Structural)]
pub enum PieceKind {
    King,
    Queen,
    Rook,
    Bishop,
    Knight,
    Pawn,
}

/// A piece as it stands on a square: its side and its kind.
#[derive(Clone, Copy, Debug, PartialEq, Eq, Structural)]
pub struct ChessPiece {
    pub side: Side,
    pub kind: PieceKind,
}

/// Which castlings each side may still make.
#[derive(Clone, Copy, Debug, PartialEq, Eq, Structural)]
pub struct Castling {
    pub white_kingside: bool,
    pub white_queenside: bool,
    pub black_kingside: bool,
    pub black_queenside: bool,
}

/// Every castling still allowed.
pub open spec fn all_castling() -> Castling {
    Castling { white_kingside: true, white_queenside: true, black_kingside: true, black_queenside: true }
}

/// A square given by row (0 is rank 1) and column (0 is file a).
#[derive(Clone, Copy, Debug, PartialEq, Eq, Structural)]
pub struct Pos {
    pub row: i32,
    pub col: i32,
}

/// Whether `pos` is one of the 64 squares of the board.
pub open spec fn on_board(pos: Pos) -> bool {
    0 <= pos.row < 8 && 0 <= pos.col < 8
}

/// The key under which a square is found in a map of the board.
pub open spec fn square_key(pos: Pos) -> (i32, i32) {
    (pos.row, pos.col)
}

impl Pos {
    /// Whether this position is a square of the board.
    pub fn is_on_board(&self) -> (res: bool)
        ensures
            res == on_board(*self),
    {
        0 <= self.row && self.row < 8 && 0 <= self.col && self.col < 8
    }
}

/// Whether `c` names a file of the board, in lower or upper case.
pub open spec fn is_file_letter(c: char) -> bool {
    ('a' <= c <= 'h') || ('A' <= c <= 'H')
}

/// The column that a file letter names.
pub open spec fn file_index(c: char) -> i32 {
    if 'a' <= c <= 'h' {
        (c as i32 - 'a' as i32) as i32
    } else {
        (c as i32 - 'A' as i32) as i32
    }
}

/// A move as the engine takes it.
#[derive(Clone, Copy, Debug, PartialEq, Eq, Structural)]
pub enum MoveCmd {
    QueenSideCastle,
    KingSideCastle,
    Piece(Pos, Pos),
    Resign,
}

/// The squares that a file letter and a single digit can name: a column
/// of the board and a row from -1 to 8.
pub open spec fn pgn_square_range(p: Pos) -> bool {
    0 <= p.col < 8 && -1 <= p.row <= 8
}

/// Whether a text is a file letter followed by a digit, such as `e4`.
pub open spec fn is_square_text(text: Seq<char>) -> bool {
    text.len() == 2 && is_file_letter(text[0]) && '0' <= text[1] <= '9'
}

/// The square that a text such as `e4` names: row `digit - 1`; the digit 0
/// gives row -1 and the digit 9 row 8, which are off the board.
pub open spec fn square_of_text(text: Seq<char>) -> Pos {
    Pos { row: (text[1] as i32 - '1' as i32) as i32, col: file_index(text[0]) }
}

/// The successful reading of a text such as `e4`.
pub open spec fn square_text_result(text: Seq<char>) -> Result<Pos, Seq<char>> {
    Ok(square_of_text(text))
}

/// A result whose error message is taken as text.
pub open spec fn with_text_error<T>(res: Result<T, String>) -> Result<T, Seq<char>> {
    match res {
        Ok(v) => Ok(v),
        Err(e) => Err(e@),
    }
}

/// A board map with no piece on it.
pub open spec fn no_pieces() -> Map<(i32, i32), ChessPiece> {
    Map::empty()
}

/// The piece that a board map holds on `pos`, if any.
pub open spec fn piece_on(pieces: Map<(i32, i32), ChessPiece>, pos: Pos) -> Option<ChessPiece> {
    if on_board(pos) && pieces.contains_key(square_key(pos)) {
        Some(pieces[square_key(pos)])
    } else {
        None
    }
}

} // verus!
