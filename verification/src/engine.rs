//! The calls that the library makes into the `chess_engine` crate, with the
//! contracts that are taken on trust from that crate's source.

use vstd::prelude::*;
use chess_engine::{Board, BoardBuilder, Color, Evaluate, GameResult, Move, Piece, Position};
use crate::model::{
    Castling, ChessPiece, PieceKind, Pos, Side, MoveCmd, all_castling, on_board, square_key, no_pieces, with_text_error,
    is_square_text, square_text_result, pgn_square_range, piece_on, opponent,
};
use crate::text::{utf8_len, splits_at, byte_slice};

verus! {

/// The engine's board: 64 squares, the side to move, castling rights and
/// an en-passant square.
#[verifier::external_type_specification]
#[verifier::external_body]
pub struct ExBoard(chess_engine::Board);

/// The engine's builder, which holds a board that is being set up.
#[verifier::external_type_specification]
#[verifier::external_body]
pub struct ExBoardBuilder(chess_engine::BoardBuilder);

/// The pieces on a board, keyed by `(row, col)` of their square.
pub uninterp spec fn board_pieces(board: Board) -> Map<(i32, i32), ChessPiece>;

/// The side to move on a board.
pub uninterp spec fn board_turn(board: Board) -> Side;

/// Which castlings are still allowed on a board.
pub uninterp spec fn board_castling(board: Board) -> Castling;

/// The en-passant square of a board, if any.
pub uninterp spec fn board_en_passant(board: Board) -> Option<Pos>;

/// Which castlings are still allowed on the board that a builder holds.
pub uninterp spec fn builder_castling(builder: BoardBuilder) -> Castling;

/// The en-passant square of the board that a builder holds, if any.
pub uninterp spec fn builder_en_passant(builder: BoardBuilder) -> Option<Pos>;

/// The pieces on the board that a builder holds, keyed by `(row, col)`.
pub uninterp spec fn builder_pieces(builder: BoardBuilder) -> Map<(i32, i32), ChessPiece>;

/// The side to move on the board that a builder holds.
pub uninterp spec fn builder_turn(builder: BoardBuilder) -> Side;

/// What `Position::pgn` returns for a text: the square as
/// `(row, col)`, or the error message.
pub uninterp spec fn spec_pgn(text: Seq<char>) -> Result<Pos, Seq<char>>;

/// `chess_engine::Board::empty`: a board with no piece on it, White to
/// move, every castling allowed and no en-passant square.
#[verifier::external_body]
pub(crate) fn empty_board() -> (board: Board)
    ensures
        board_pieces(board) == no_pieces(),
        board_turn(board) == Side::White,
        board_castling(board) == all_castling(),
        board_en_passant(board) is None,
{
    Board::empty()
}

/// `BoardBuilder::from(Board)`: the builder holds the given board.
#[verifier::external_body]
pub(crate) fn builder_from_board(board: Board) -> (builder: BoardBuilder)
    ensures
        builder_pieces(builder) == board_pieces(board),
        builder_turn(builder) == board_turn(board),
        builder_castling(builder) == board_castling(board),
        builder_en_passant(builder) == board_en_passant(board),
{
    BoardBuilder::from(board)
}

/// `BoardBuilder::piece`: puts the piece on its square, replacing what stood
/// there, and changes nothing else. The engine indexes its square array by
/// the position, so a position off the board is left out (it panics there).
#[verifier::external_body]
pub(crate) fn builder_with_piece(builder: BoardBuilder, piece: ChessPiece, at: Pos) -> (res: BoardBuilder)
    requires
        on_board(at),
    ensures
        builder_pieces(res) == builder_pieces(builder).insert(square_key(at), piece),
        builder_turn(res) == builder_turn(builder),
        builder_castling(res) == builder_castling(builder),
        builder_en_passant(res) == builder_en_passant(builder),
{
    let c = match piece.side { Side::White => Color::White, Side::Black => Color::Black };
    let p = Position::new(at.row, at.col);
    builder.piece(match piece.kind {
        PieceKind::King => Piece::King(c, p),
        PieceKind::Queen => Piece::Queen(c, p),
        PieceKind::Rook => Piece::Rook(c, p),
        PieceKind::Bishop => Piece::Bishop(c, p),
        PieceKind::Knight => Piece::Knight(c, p),
        PieceKind::Pawn => Piece::Pawn(c, p),
    })
}

/// `BoardBuilder::build`: hands out the board that the builder holds.
#[verifier::external_body]
pub(crate) fn builder_finish(builder: BoardBuilder) -> (board: Board)
    ensures
        board_pieces(board) == builder_pieces(builder),
        board_turn(board) == builder_turn(builder),
        board_castling(board) == builder_castling(builder),
        board_en_passant(board) == builder_en_passant(builder),
{
    builder.build()
}

/// `Board::get_turn_color`: the side to move.
#[verifier::external_body]
pub(crate) fn turn_of(board: &Board) -> (side: Side)
    ensures
        side == board_turn(*board),
{
    match board.get_turn_color() {
        Color::White => Side::White,
        Color::Black => Side::Black,
    }
}

/// `Position::pgn`: reads a square such as `e4` or `D8`.
/// Its result is named by `spec_pgn`. The source trims and lowercases the
/// text, reads a column letter `a` to `h` and a digit, and returns row
/// `digit - 1`: so the column is on the board and the row is from -1 to 8.
/// A text of a column letter and a digit alone is read as that square.
#[verifier::external_body]
pub(crate) fn pgn_position(text: &str) -> (res: Result<Pos, String>)
    ensures
        spec_pgn(text@) == with_text_error(res),
        res matches Ok(p) ==> pgn_square_range(p),
        is_square_text(text@) ==> with_text_error(res) == square_text_result(text@),
{
    match Position::pgn(text) {
        Ok(p) => Ok(Pos { row: p.get_row(), col: p.get_col() }),
        Err(e) => Err(e),
    }
}

/// `Board::get_piece`: the piece on a square; none off the board.
#[verifier::external_body]
pub(crate) fn board_piece_at(board: &Board, at: Pos) -> (res: Option<ChessPiece>)
    ensures
        res == piece_on(board_pieces(*board), at),
{
    match board.get_piece(Position::new(at.row, at.col)) {
        Some(p) => Some(ChessPiece {
            side: match p.get_color() { Color::White => Side::White, Color::Black => Side::Black },
            kind: match p {
                Piece::King(..) => PieceKind::King,
                Piece::Queen(..) => PieceKind::Queen,
                Piece::Rook(..) => PieceKind::Rook,
                Piece::Bishop(..) => PieceKind::Bishop,
                Piece::Knight(..) => PieceKind::Knight,
                Piece::Pawn(..) => PieceKind::Pawn,
            },
        }),
        None => None,
    }
}

/// What `str::trim` returns: the text without leading and trailing
/// whitespace.
pub uninterp spec fn spec_trim(text: Seq<char>) -> Seq<char>;

/// What `char::is_whitespace` returns: whether the character has the
/// Unicode property White_Space.
pub uninterp spec fn spec_is_whitespace(c: char) -> bool;

/// What `Move::try_from(String)` returns for a text: the move, or the
/// error message.
pub uninterp spec fn spec_move_text(text: Seq<char>) -> Result<MoveCmd, Seq<char>>;

/// `str::trim`: the text without leading and trailing whitespace.
#[verifier::external_body]
pub(crate) fn trim_text(text: &str) -> (res: &str)
    ensures
        res@ == spec_trim(text@),
{
    text.trim()
}

/// `char::is_whitespace`.
#[verifier::external_body]
pub(crate) fn is_whitespace_char(c: char) -> (res: bool)
    ensures
        res == spec_is_whitespace(c),
{
    c.is_whitespace()
}

/// Whether some character of the text is whitespace.
pub open spec fn has_whitespace(text: Seq<char>) -> bool {
    exists|i: int| 0 <= i < text.len() && spec_is_whitespace(#[trigger] text[i])
}

/// The texts that the engine reads as castling or resigning, as its source
/// lists them.
pub open spec fn special_move_text(text: Seq<char>) -> Option<MoveCmd> {
    if text == "resign"@ || text == "resigns"@ {
        Some(MoveCmd::Resign)
    } else if text == "queenside castle"@ || text == "castle queenside"@ || text == "O-O-O"@
        || text == "0-0-0"@ || text == "o-o-o"@ {
        Some(MoveCmd::QueenSideCastle)
    } else if text == "kingside castle"@ || text == "castle kingside"@ || text == "O-O"@
        || text == "0-0"@ || text == "o-o"@ {
        Some(MoveCmd::KingSideCastle)
    } else {
        None
    }
}

/// A single word of four bytes that the engine cuts at byte 2 and reads
/// as two squares.
pub open spec fn is_coordinate_word(text: Seq<char>) -> bool {
    !has_whitespace(text) && utf8_len(text) == 4 && splits_at(text, 2)
}

/// How the engine reads a coordinate word: both halves as squares, the
/// first error winning.
pub open spec fn coordinate_move(text: Seq<char>) -> Result<MoveCmd, Seq<char>> {
    match spec_pgn(byte_slice(text, 0, 2)) {
        Err(e) => Err(e),
        Ok(from) => match spec_pgn(byte_slice(text, 2, 4)) {
            Err(e) => Err(e),
            Ok(to) => Ok(MoveCmd::Piece(from, to)),
        },
    }
}

/// The texts on which `Move::try_from` panics: after trimming, a single word
/// of four bytes that cannot be cut after its second byte.
pub open spec fn move_text_panics(text: Seq<char>) -> bool {
    let t = spec_trim(text);
    !has_whitespace(t) && utf8_len(t) == 4 && !splits_at(t, 2)
}

/// What the source of `Move::try_from` shows of its result: the listed texts
/// are castling or resigning, and a single coordinate word is read as two
/// squares.
pub open spec fn move_text_facts(text: Seq<char>, res: Result<MoveCmd, Seq<char>>) -> bool {
    &&& special_move_text(text) is Some ==> res == Ok::<MoveCmd, Seq<char>>(special_move_text(text)->0)
    &&& is_coordinate_word(text) ==> res == coordinate_move(text)
}

/// `Move::try_from(String)`: reads a move such as `e2e4`, `e2 to e4`,
/// `O-O` or `resign`. Its result is named by `spec_move_text`; the facts
/// of `move_text_facts` are read off its source. It slices a single word of
/// four bytes at byte 2, so a text on which that panics is left out.
#[verifier::external_body]
pub(crate) fn move_from_text(text: &str) -> (res: Result<MoveCmd, String>)
    requires
        !move_text_panics(text@),
    ensures
        spec_move_text(text@) == with_text_error(res),
        move_text_facts(text@, with_text_error(res)),
{
    match Move::try_from(text.to_string()) {
        Ok(Move::QueenSideCastle) => Ok(MoveCmd::QueenSideCastle),
        Ok(Move::KingSideCastle) => Ok(MoveCmd::KingSideCastle),
        Ok(Move::Piece(f, t)) => Ok(MoveCmd::Piece(
            Pos { row: f.get_row(), col: f.get_col() },
            Pos { row: t.get_row(), col: t.get_col() },
        )),
        Ok(Move::Resign) => Ok(MoveCmd::Resign),
        Err(e) => Err(e),
    }
}

/// What playing a move on a board gives.
pub enum PlayOutcome {
    /// The game goes on from this board.
    Continuing(Board),
    /// This side has won.
    Victory(Side),
    /// The game is drawn.
    Stalemate,
    /// The move is not legal; the board stays as it was.
    Illegal,
}

/// What `Board::play_move` returns for a board and a move.
pub uninterp spec fn spec_play(board: Board, m: MoveCmd) -> PlayOutcome;

/// What the source of `Board::play_move` shows of its result: resigning
/// hands the win to the other side; otherwise only the side that moved can
/// win, and after a move the game goes on with the other side to move.
pub open spec fn play_facts(board: Board, m: MoveCmd, res: PlayOutcome) -> bool {
    &&& m is Resign ==> res == PlayOutcome::Victory(opponent(board_turn(board)))
    &&& !(m is Resign) ==> match res {
        PlayOutcome::Continuing(next) => board_turn(next) == opponent(board_turn(board)),
        PlayOutcome::Victory(w) => w == board_turn(board),
        _ => true,
    }
    &&& res is Continuing ==> !(m is Resign)
}

/// `Board::play_move`: plays a move for the side to move. Its result is a
/// function of the board and the move, named by `spec_play`. Which legal
/// moves exist, and whether a move mates or stalemates, is the engine's
/// rule book and is not stated; `play_facts` states what its source shows.
#[verifier::external_body]
pub(crate) fn play_on(board: &Board, m: MoveCmd) -> (res: PlayOutcome)
    ensures
        res == spec_play(*board, m),
        play_facts(*board, m, res),
{
    let mv = match m {
        MoveCmd::QueenSideCastle => Move::QueenSideCastle,
        MoveCmd::KingSideCastle => Move::KingSideCastle,
        MoveCmd::Piece(f, t) => Move::Piece(Position::new(f.row, f.col), Position::new(t.row, t.col)),
        MoveCmd::Resign => Move::Resign,
    };
    match board.play_move(mv) {
        GameResult::Continuing(next) => PlayOutcome::Continuing(next),
        GameResult::Victory(c) => PlayOutcome::Victory(match c { Color::White => Side::White, Color::Black => Side::Black }),
        GameResult::Stalemate => PlayOutcome::Stalemate,
        GameResult::IllegalMove(_) => PlayOutcome::Illegal,
    }
}

/// What `Evaluate::get_best_next_move` chooses on a board, searching `depth`
/// moves ahead: the move, and how many boards it looked at.
pub uninterp spec fn spec_best_move(board: Board, depth: i32) -> (MoveCmd, u64);

/// `Evaluate::get_best_next_move`: the engine's choice of move for the side
/// to move, searching `depth` moves ahead, and how many boards it looked at.
/// The choice is a function of the board and the depth, named by
/// `spec_best_move`; the evaluation that makes it (in floating point) and the
/// legality of the move are not stated. Its search stops only at depth 0, so
/// a negative depth is left out (the search never returns there).
#[verifier::external_body]
pub(crate) fn best_next_move(board: &Board, depth: i32) -> (res: (MoveCmd, u64))
    requires
        0 <= depth,
    ensures
        res == spec_best_move(*board, depth),
{
    let (m, count, _) = board.get_best_next_move(depth);
    let mv = match m {
        Move::QueenSideCastle => MoveCmd::QueenSideCastle,
        Move::KingSideCastle => MoveCmd::KingSideCastle,
        Move::Piece(f, t) => MoveCmd::Piece(
            Pos { row: f.get_row(), col: f.get_col() }, Pos { row: t.get_row(), col: t.get_col() }),
        Move::Resign => MoveCmd::Resign,
    };
    (mv, count)
}

} // verus!
