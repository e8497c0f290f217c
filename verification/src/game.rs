//! A game between a player and the engine: what each turn asks for, which
//! move is played, and what the game records. Reading the player's moves and
//! printing are left to the caller, who hands each line in and is told what
//! to show.

use vstd::prelude::*;
use chess_engine::Board;
use crate::model::{
    ChessPiece, MoveCmd, PieceKind, Pos, Side, opponent, piece_on, with_text_error, on_board,
    square_key,
};
use crate::engine::{
    board_pieces, board_turn, spec_trim, spec_move_text, spec_is_whitespace, has_whitespace,
    move_text_panics, trim_text, is_whitespace_char, move_from_text, PlayOutcome, play_on,
    best_next_move, board_piece_at, turn_of, is_coordinate_word, coordinate_move, spec_play,
    spec_best_move,
};
use crate::gameparse::spec_parse_move;
use crate::text::{utf8_len, byte_len};

verus! {

/// How many moves ahead the engine searches when it chooses its move.
pub const LOOKAHEAD: i32 = 5;

/// What the engine's move does, as it is announced.
#[derive(Clone, Copy, Debug, PartialEq, Eq, Structural)]
pub enum CpuMoveNote {
    /// The piece `mover` on `from` takes the piece `taken` on `to`.
    Take { taken: PieceKind, to: Pos, mover: PieceKind, from: Pos },
    /// The piece `mover` on `from` goes to the empty square `to`.
    Shift { mover: PieceKind, from: Pos, to: Pos },
    /// A move from `from` to `to` with no piece on `from`.
    Squares { from: Pos, to: Pos },
    CastleKingside,
    CastleQueenside,
    Resign,
}

/// How a move is announced on a board with the given pieces.
pub open spec fn cpu_note(pieces: Map<(i32, i32), ChessPiece>, mv: MoveCmd) -> CpuMoveNote {
    match mv {
        MoveCmd::Piece(from, to) => match (piece_on(pieces, from), piece_on(pieces, to)) {
            (Some(p), Some(t)) => CpuMoveNote::Take { taken: t.kind, to, mover: p.kind, from },
            (Some(p), None) => CpuMoveNote::Shift { mover: p.kind, from, to },
            _ => CpuMoveNote::Squares { from, to },
        },
        MoveCmd::KingSideCastle => CpuMoveNote::CastleKingside,
        MoveCmd::QueenSideCastle => CpuMoveNote::CastleQueenside,
        MoveCmd::Resign => CpuMoveNote::Resign,
    }
}

/// How a move must be announced, case by case: a move between two occupied
/// squares of the board takes the piece on the target, whichever sides the
/// pieces belong to; a move from an occupied square to an empty one moves
/// the piece; a move from an empty or off-board square names the squares.
pub open spec fn announces(pieces: Map<(i32, i32), ChessPiece>, mv: MoveCmd, note: CpuMoveNote) -> bool {
    match mv {
        MoveCmd::Piece(from, to) => {
            let has_from = on_board(from) && pieces.contains_key(square_key(from));
            let has_to = on_board(to) && pieces.contains_key(square_key(to));
            &&& has_from && has_to ==> note == CpuMoveNote::Take {
                taken: pieces[square_key(to)].kind,
                to,
                mover: pieces[square_key(from)].kind,
                from,
            }
            &&& has_from && !has_to ==> note == CpuMoveNote::Shift {
                mover: pieces[square_key(from)].kind,
                from,
                to,
            }
            &&& !has_from ==> note == CpuMoveNote::Squares { from, to }
        },
        MoveCmd::KingSideCastle => note == CpuMoveNote::CastleKingside,
        MoveCmd::QueenSideCastle => note == CpuMoveNote::CastleQueenside,
        MoveCmd::Resign => note == CpuMoveNote::Resign,
    }
}

/// Every announcement meets `announces`: captures are announced as takes
/// for either side, plain moves as moves.
pub proof fn lemma_cpu_note_announces(pieces: Map<(i32, i32), ChessPiece>, mv: MoveCmd)
    ensures
        announces(pieces, mv, cpu_note(pieces, mv)),
{
}

/// Announces a move of the engine on `board`: which piece takes which, or
/// moves where, or the castling or resignation.
pub fn describe_cpu_move(board: &Board, mv: MoveCmd) -> (res: CpuMoveNote)
    ensures
        res == cpu_note(board_pieces(*board), mv),
        announces(board_pieces(*board), mv, res),
{
    match mv {
        MoveCmd::Piece(from, to) => match (board_piece_at(board, from), board_piece_at(board, to)) {
            (Some(p), Some(t)) => CpuMoveNote::Take { taken: t.kind, to, mover: p.kind, from },
            (Some(p), None) => CpuMoveNote::Shift { mover: p.kind, from, to },
            _ => CpuMoveNote::Squares { from, to },
        },
        MoveCmd::KingSideCastle => CpuMoveNote::CastleKingside,
        MoveCmd::QueenSideCastle => CpuMoveNote::CastleQueenside,
        MoveCmd::Resign => CpuMoveNote::Resign,
    }
}

/// The engine's choice of move, with how many boards it looked at and how
/// the move is announced.
#[derive(Clone, Copy, Debug, PartialEq, Eq, Structural)]
pub struct CpuChoice {
    pub mv: MoveCmd,
    pub boards_evaluated: u64,
    pub note: CpuMoveNote,
}

/// The engine's choice on a board: its best move searching `LOOKAHEAD`
/// moves ahead, the number of boards it looked at, and the move's
/// announcement.
pub open spec fn engine_choice(board: Board) -> CpuChoice {
    let (mv, count) = spec_best_move(board, LOOKAHEAD);
    CpuChoice { mv, boards_evaluated: count, note: cpu_note(board_pieces(board), mv) }
}

/// Lets the engine choose its move on `board`, searching `LOOKAHEAD` moves
/// ahead, and announces it.
pub fn get_cpu_move(board: &Board) -> (res: CpuChoice)
    ensures
        res == engine_choice(*board),
        announces(board_pieces(*board), res.mv, res.note),
{
    let (mv, count) = best_next_move(board, LOOKAHEAD);
    proof {
        lemma_cpu_note_announces(board_pieces(*board), mv);
    }
    CpuChoice { mv, boards_evaluated: count, note: describe_cpu_move(board, mv) }
}

/// Whether some character of `t` is whitespace.
fn text_has_whitespace(t: &str) -> (res: bool)
    ensures
        res == has_whitespace(t@),
{
    let n = t.unicode_len();
    let mut i: usize = 0;
    while i < n
        invariant
            n == t@.len(),
            i <= n,
            forall|k: int| 0 <= k < i ==> !spec_is_whitespace(#[trigger] t@[k]),
        decreases n - i,
    {
        if is_whitespace_char(t.get_char(i)) {
            return true;
        }
        i = i + 1;
    }
    false
}

/// Whether the engine's move reader panics on `text`.
pub fn move_text_would_panic(text: &str) -> (res: bool)
    ensures
        res == move_text_panics(text@),
{
    let t = trim_text(text);
    if text_has_whitespace(t) {
        return false;
    }
    byte_len(t) == 4 && !t.is_char_boundary(2)
}

/// A move read from a text, with the error message as text.
pub open spec fn move_of_squares(res: Result<(Pos, Pos), Seq<char>>) -> Result<MoveCmd, Seq<char>> {
    match res {
        Ok((from, to)) => Ok(MoveCmd::Piece(from, to)),
        Err(e) => Err(e),
    }
}

/// The engine reads a coordinate word as `parse_move` reads it.
pub proof fn lemma_coordinate_word_as_parse_move(text: Seq<char>)
    requires
        utf8_len(text) == 4,
    ensures
        coordinate_move(text) == move_of_squares(spec_parse_move(text)),
{
}

/// Reads a move as the engine does, such as `e2e4`, `e2 to e4`, `O-O` or
/// `resign`; gives `None` for a text on which the engine's reader panics.
/// A single word of four bytes is read exactly as `parse_move` reads it.
pub fn read_move(text: &str) -> (res: Option<Result<MoveCmd, String>>)
    ensures
        res is None <==> move_text_panics(text@),
        res matches Some(r) ==> with_text_error(r) == spec_move_text(text@),
        res matches Some(r) ==> (is_coordinate_word(text@) ==> with_text_error(r) == move_of_squares(
            spec_parse_move(text@),
        )),
{
    if move_text_would_panic(text) {
        return None;
    }
    let r = move_from_text(text);
    proof {
        if is_coordinate_word(text@) {
            lemma_coordinate_word_as_parse_move(text@);
        }
    }
    Some(r)
}

/// How a turn ended.
#[derive(Clone, Copy, Debug, PartialEq, Eq, Structural)]
pub enum TurnResult {
    /// The move was played and the game goes on.
    Continued,
    /// This side has won.
    Won(Side),
    /// The move was not legal; the same side moves again.
    Illegal,
    /// The game is drawn.
    Drawn,
}

/// What a turn gave, and what the caller shows for it.
#[derive(Debug, PartialEq, Eq)]
pub enum TurnReport {
    /// The player gave an empty line; the player is asked again.
    NeedMove,
    /// No scripted move is left, or the next one is empty: the game cannot go
    /// on; the game stops here.
    NoMoveProvided,
    /// The engine's move reader panics on the text that was given.
    MoveTextPanics,
    /// The text could not be read as a move; this is the error.
    BadMoveText(String),
    /// A move was played: by the engine where `cpu` holds its choice, else as
    /// given by the player or the script.
    Played { cpu: Option<CpuChoice>, mv: MoveCmd, result: TurnResult },
}

/// A game in progress.
pub struct Game {
    /// The current board.
    pub board: Board,
    /// The side that the engine plays.
    pub cpu: Side,
    /// Whether the player's moves are read one line at a time; else they come
    /// from `scripted`.
    pub interactive: bool,
    /// The moves given in advance.
    pub scripted: Vec<String>,
    /// The index of the next scripted move.
    pub next_scripted: usize,
    /// The moves recorded in interactive play (see `played_spec`).
    pub recorded: Vec<String>,
    /// Every board reached by a move, in order.
    pub history: Vec<Board>,
    /// Whether the game has ended.
    pub over: bool,
}

/// Where the move of a turn comes from.
pub enum MoveSource {
    /// The engine chooses.
    Cpu,
    /// The player's line, trimmed.
    Human(Seq<char>),
    /// The next scripted move, trimmed.
    Scripted(Seq<char>),
    /// The player's line is empty once trimmed.
    EmptyLine,
    /// No scripted move is left, or the next one is empty once trimmed.
    Exhausted,
}

/// Where the move of the next turn of `g` comes from, given the player's
/// line.
pub open spec fn move_source(g: Game, line: Seq<char>) -> MoveSource {
    if board_turn(g.board) == g.cpu {
        MoveSource::Cpu
    } else if g.interactive {
        if spec_trim(line).len() == 0 {
            MoveSource::EmptyLine
        } else {
            MoveSource::Human(spec_trim(line))
        }
    } else if g.next_scripted >= g.scripted@.len() {
        MoveSource::Exhausted
    } else if spec_trim(g.scripted@[g.next_scripted as int]@).len() == 0 {
        MoveSource::Exhausted
    } else {
        MoveSource::Scripted(spec_trim(g.scripted@[g.next_scripted as int]@))
    }
}

/// The index of the next scripted move after a turn: one further where the
/// turn took a scripted move.
pub open spec fn scripted_after(g: Game) -> int {
    if board_turn(g.board) != g.cpu && !g.interactive && g.next_scripted < g.scripted@.len() {
        g.next_scripted + 1
    } else {
        g.next_scripted as int
    }
}

/// The text of a move given by the player or the script.
pub open spec fn source_text(src: MoveSource) -> Option<Seq<char>> {
    match src {
        MoveSource::Human(t) => Some(t),
        MoveSource::Scripted(t) => Some(t),
        _ => None,
    }
}

/// What a turn records: the player's line in interactive
/// play, and an empty text otherwise.
pub open spec fn recorded_text(src: MoveSource) -> Seq<char> {
    match src {
        MoveSource::Human(t) => t,
        _ => Seq::empty(),
    }
}

/// What a player's turn that takes the scripted text `t` reports: nothing
/// played for an empty text; the reader's panic, the reader's error, or the
/// move played as the reader gives it.
pub open spec fn scripted_turn_report(t: Seq<char>, report: TurnReport) -> bool {
    if t.len() == 0 {
        report is NoMoveProvided
    } else if move_text_panics(t) {
        report is MoveTextPanics
    } else {
        match spec_move_text(t) {
            Err(e) => report matches TurnReport::BadMoveText(m) && m@ == e,
            Ok(mv) => report matches TurnReport::Played { cpu, mv: played, .. } && cpu is None
                && played == mv,
        }
    }
}

/// The parts of a game that no turn changes.
pub open spec fn same_setting(a: Game, b: Game) -> bool {
    &&& a.cpu == b.cpu
    &&& a.interactive == b.interactive
    &&& a.scripted@ == b.scripted@
}

/// The parts of a game that a turn without a played move leaves as they were.
pub open spec fn same_play(a: Game, b: Game) -> bool {
    &&& a.board == b.board
    &&& a.recorded@ == b.recorded@
    &&& a.history@ == b.history@
    &&& a.over == b.over
}

/// What a turn of `old` does, given the player's line, to give `new` and
/// the report.
pub open spec fn turn_spec(old: Game, line: Seq<char>, new: Game, report: TurnReport) -> bool {
    let src = move_source(old, line);
    &&& same_setting(old, new)
    &&& new.next_scripted == scripted_after(old)
    &&& match src {
        MoveSource::EmptyLine => report is NeedMove && same_play(old, new),
        MoveSource::Exhausted => report is NoMoveProvided && same_play(old, new),
        MoveSource::Cpu => report matches TurnReport::Played { cpu, mv, result } && cpu matches Some(
            c,
        ) && c == engine_choice(old.board) && c.mv == mv && played_spec(old, recorded_text(src), mv, result, new),
        _ => {
            let t = source_text(src)->0;
            if move_text_panics(t) {
                report is MoveTextPanics && same_play(old, new)
            } else {
                match spec_move_text(t) {
                    Err(e) => report matches TurnReport::BadMoveText(m) && m@ == e && same_play(
                        old,
                        new,
                    ),
                    Ok(mv) => report matches TurnReport::Played { cpu, mv: played, result }
                        && cpu is None && played == mv && played_spec(old, recorded_text(src), mv, result, new),
                }
            }
        },
    }
}

/// What playing `mv` does to the game, where `rec` is the text that the
/// turn records. The result is the engine's outcome of the move on the
/// board; then a move that goes on is kept on the
/// board and in the history, and recorded in interactive play where the
/// player moves next; a win ends the game and is recorded in interactive
/// play; a draw ends the game; an illegal move changes nothing.
pub open spec fn played_spec(old: Game, rec: Seq<char>, mv: MoveCmd, result: TurnResult, new: Game) -> bool {
    let turn = board_turn(old.board);
    &&& match spec_play(old.board, mv) {
        PlayOutcome::Continuing(next) => result == TurnResult::Continued && new.board == next,
        PlayOutcome::Victory(w) => result == TurnResult::Won(w),
        PlayOutcome::Stalemate => result == TurnResult::Drawn,
        PlayOutcome::Illegal => result == TurnResult::Illegal,
    }
    &&& match result {
        TurnResult::Continued => {
            &&& !(mv is Resign)
            &&& board_turn(new.board) == opponent(turn)
            &&& new.history@ == old.history@.push(new.board)
            &&& if old.interactive && board_turn(new.board) != old.cpu {
                pushed(old.recorded@, new.recorded@, rec)
            } else {
                new.recorded@ == old.recorded@
            }
            &&& !new.over
        },
        TurnResult::Won(w) => {
            &&& (if mv is Resign { w == opponent(turn) } else { w == turn })
            &&& new.board == old.board
            &&& new.history@ == old.history@
            &&& if old.interactive {
                pushed(old.recorded@, new.recorded@, rec)
            } else {
                new.recorded@ == old.recorded@
            }
            &&& new.over
        },
        TurnResult::Illegal => {
            &&& !(mv is Resign)
            &&& same_play(old, new)
        },
        TurnResult::Drawn => {
            &&& !(mv is Resign)
            &&& new.board == old.board
            &&& new.history@ == old.history@
            &&& new.recorded@ == old.recorded@
            &&& new.over
        },
    }
}

/// `new` is `old` with one more text at the end, whose view is `text`.
pub open spec fn pushed(old: Seq<String>, new: Seq<String>, text: Seq<char>) -> bool {
    &&& new.len() == old.len() + 1
    &&& new.take(old.len() as int) == old
    &&& new.last()@ == text
}

/// The player's line matters only where the player moves in interactive
/// play: elsewhere every line gives the same turn.
pub proof fn lemma_line_ignored_off_turn(g: Game, line1: Seq<char>, line2: Seq<char>)
    requires
        !(board_turn(g.board) != g.cpu && g.interactive),
    ensures
        move_source(g, line1) == move_source(g, line2),
{
}

/// A turn keeps what was recorded and played before it: the record and the
/// history grow by at most one entry at the end, and the history's new entry
/// is the board that the turn reached.
pub proof fn lemma_turn_keeps_past(old: Game, line: Seq<char>, new: Game, report: TurnReport)
    requires
        turn_spec(old, line, new, report),
    ensures
        old.recorded@.len() <= new.recorded@.len() <= old.recorded@.len() + 1,
        new.recorded@.take(old.recorded@.len() as int) == old.recorded@,
        new.history@ == old.history@ || new.history@ == old.history@.push(new.board),
{
    assert(old.recorded@.take(old.recorded@.len() as int) =~= old.recorded@);
}

/// The engine moves exactly on its own turn, and the move it plays is its
/// best move searching `LOOKAHEAD` moves ahead on the board of that turn,
/// announced on that board.
pub proof fn lemma_engine_moves_on_its_turn(old: Game, line: Seq<char>, new: Game, report: TurnReport)
    requires
        turn_spec(old, line, new, report),
    ensures
        (board_turn(old.board) == old.cpu) <==> (report matches TurnReport::Played { cpu: Some(_), .. }),
        report matches TurnReport::Played { cpu: Some(c), mv, .. } ==> mv == spec_best_move(
            old.board,
            LOOKAHEAD,
        ).0 && c.boards_evaluated == spec_best_move(old.board, LOOKAHEAD).1 && c.note == cpu_note(
            board_pieces(old.board),
            mv,
        ),
{
    let src = move_source(old, line);
    if let MoveSource::Cpu = src {
    } else {
        assert(!(report matches TurnReport::Played { cpu: Some(_), .. }));
    }
}

/// On a player's turn of a game that is not interactive, with moves left,
/// the turn reads the scripted move at `next_scripted` and then moves past
/// it: the k-th player turn reads the k-th scripted move, however many
/// boards the history holds.
pub proof fn lemma_scripted_turn_reads_next(old: Game, line: Seq<char>, new: Game, report: TurnReport)
    requires
        turn_spec(old, line, new, report),
        !old.interactive,
        board_turn(old.board) != old.cpu,
        old.next_scripted < old.scripted@.len(),
    ensures
        scripted_turn_report(spec_trim(old.scripted@[old.next_scripted as int]@), report),
        new.next_scripted == old.next_scripted + 1,
{
}

/// Where a turn's move comes from does not depend on the history, the
/// record or whether the game is over.
pub proof fn lemma_source_ignores_history(g1: Game, g2: Game, line: Seq<char>)
    requires
        g1.board == g2.board,
        same_setting(g1, g2),
        g1.next_scripted == g2.next_scripted,
    ensures
        move_source(g1, line) == move_source(g2, line),
{
}

/// What a turn records: a game that is not interactive records nothing; in
/// interactive play, a winning move of the player records its trimmed line,
/// and a player's move that goes on records nothing.
pub proof fn lemma_record_of_a_turn(old: Game, line: Seq<char>, new: Game, report: TurnReport)
    requires
        turn_spec(old, line, new, report),
    ensures
        !old.interactive ==> new.recorded@ == old.recorded@,
        report matches TurnReport::Played { result: TurnResult::Won(_), .. } ==> (old.interactive
            && board_turn(old.board) != old.cpu ==> new.recorded@.len() == old.recorded@.len() + 1
            && new.recorded@.last()@ == spec_trim(line)),
        report matches TurnReport::Played { result: TurnResult::Continued, .. } ==> (old.interactive
            && board_turn(old.board) != old.cpu ==> new.recorded@ == old.recorded@),
{
}

/// Equal boards give the engine the same choice.
pub proof fn lemma_engine_choice_depends_on_board(b1: Board, b2: Board)
    requires
        b1 == b2,
    ensures
        engine_choice(b1) == engine_choice(b2),
{
}

/// A played move has the outcome that the engine gives for it on the board
/// of the turn: a move that goes on leaves the engine's next board, and a
/// win, a draw or an illegal move is reported as the engine gives it.
pub proof fn lemma_turn_follows_engine(old: Game, line: Seq<char>, new: Game, report: TurnReport)
    requires
        turn_spec(old, line, new, report),
        report is Played,
    ensures
        report matches TurnReport::Played { mv, result, .. } ==> match spec_play(old.board, mv) {
            PlayOutcome::Continuing(next) => result == TurnResult::Continued && new.board == next,
            PlayOutcome::Victory(w) => result == TurnResult::Won(w) && new.board == old.board,
            PlayOutcome::Stalemate => result == TurnResult::Drawn && new.board == old.board,
            PlayOutcome::Illegal => result == TurnResult::Illegal && new.board == old.board,
        },
{
}

/// Resigning ends the game, and the other side wins.
pub proof fn lemma_resign_ends_game(old: Game, line: Seq<char>, new: Game, report: TurnReport)
    requires
        turn_spec(old, line, new, report),
        report matches TurnReport::Played { mv: MoveCmd::Resign, .. },
    ensures
        report matches TurnReport::Played { result, .. } && result == TurnResult::Won(
            opponent(board_turn(old.board)),
        ),
        new.over,
        new.board == old.board,
{
}

/// A move that is played and does not end the game passes the turn to the
/// other side; a turn ends the game exactly when someone wins or it is
/// drawn.
pub proof fn lemma_turns_alternate(old: Game, line: Seq<char>, new: Game, report: TurnReport)
    requires
        turn_spec(old, line, new, report),
        !old.over,
    ensures
        report matches TurnReport::Played { result: TurnResult::Continued, .. } ==> board_turn(new.board)
            == opponent(board_turn(old.board)),
        new.over <==> (report matches TurnReport::Played { result, .. } && (result is Won
            || result is Drawn)),
        !(report is Played) ==> new.board == old.board,
{
}

/// The script advances by one move exactly on the player's turns of a game
/// that is not interactive, while moves are left.
pub proof fn lemma_script_advances(old: Game, line: Seq<char>, new: Game, report: TurnReport)
    requires
        turn_spec(old, line, new, report),
    ensures
        new.next_scripted == if board_turn(old.board) != old.cpu && !old.interactive
            && old.next_scripted < old.scripted@.len() {
            old.next_scripted + 1
        } else {
            old.next_scripted as int
        },
{
}

impl Game {
    /// A new game on `board`, with the engine playing Black; the player's
    /// moves are read line by line in interactive play, else taken from
    /// `scripted`.
    pub fn new(board: Board, interactive: bool, scripted: Vec<String>) -> (g: Game)
        ensures
            g.board == board,
            g.cpu == Side::Black,
            g.interactive == interactive,
            g.scripted@ == scripted@,
            g.next_scripted == 0,
            g.recorded@.len() == 0,
            g.history@.len() == 0,
            !g.over,
    {
        Game {
            board,
            cpu: Side::Black,
            interactive,
            scripted,
            next_scripted: 0,
            recorded: Vec::new(),
            history: Vec::new(),
            over: false,
        }
    }

    /// Whether the engine moves next.
    pub fn cpu_to_move(&self) -> (res: bool)
        ensures
            res == (board_turn(self.board) == self.cpu),
    {
        turn_of(&self.board) == self.cpu
    }

    /// Whether the next turn takes a line typed by the player.
    pub fn awaits_line(&self) -> (res: bool)
        ensures
            res == (board_turn(self.board) != self.cpu && self.interactive),
    {
        turn_of(&self.board) != self.cpu && self.interactive
    }

    /// Plays `mv` and keeps what the game keeps of it.
    fn play(&mut self, mv: MoveCmd, recorded: String, cpu: Option<CpuChoice>) -> (report: TurnReport)
        requires
            !old(self).over,
        ensures
            same_setting(*old(self), *final(self)),
            final(self).next_scripted == old(self).next_scripted,
            report matches TurnReport::Played { cpu: c, mv: played, result } && c == cpu
                && played == mv && played_spec(*old(self), recorded@, mv, result, *final(self)),
    {
        match play_on(&self.board, mv) {
            PlayOutcome::Continuing(next) => {
                self.board = next;
                self.history.push(next);
                if self.interactive && turn_of(&self.board) != self.cpu {
                    self.recorded.push(recorded);
                    assert(self.recorded@.take(old(self).recorded@.len() as int) =~= old(self).recorded@);
                }
                TurnReport::Played { cpu, mv, result: TurnResult::Continued }
            },
            PlayOutcome::Victory(w) => {
                if self.interactive {
                    self.recorded.push(recorded);
                    assert(self.recorded@.take(old(self).recorded@.len() as int) =~= old(self).recorded@);
                }
                self.over = true;
                TurnReport::Played { cpu, mv, result: TurnResult::Won(w) }
            },
            PlayOutcome::Stalemate => {
                self.over = true;
                TurnReport::Played { cpu, mv, result: TurnResult::Drawn }
            },
            PlayOutcome::Illegal => TurnReport::Played { cpu, mv, result: TurnResult::Illegal },
        }
    }

    /// Plays one turn. The player's line is used only where the player moves
    /// in interactive play. The engine moves on its turn; the player's move
    /// comes from the line or the script.
    pub fn take_turn(&mut self, line: &str) -> (report: TurnReport)
        requires
            !old(self).over,
        ensures
            turn_spec(*old(self), line@, *final(self), report),
            !old(self).interactive && board_turn(old(self).board) != old(self).cpu
                && old(self).next_scripted < old(self).scripted@.len() ==> scripted_turn_report(
                spec_trim(old(self).scripted@[old(self).next_scripted as int]@),
                report,
            ),
    {
        if self.cpu_to_move() {
            let choice = get_cpu_move(&self.board);
            return self.play(choice.mv, String::new(), Some(choice));
        }
        let text: String;
        let recorded: String;
        if self.interactive {
            let t = trim_text(line);
            if t.unicode_len() == 0 {
                return TurnReport::NeedMove;
            }
            text = t.to_owned();
            recorded = t.to_owned();
        } else {
            if self.next_scripted >= self.scripted.len() {
                return TurnReport::NoMoveProvided;
            }
            let t = trim_text(self.scripted[self.next_scripted].as_str());
            self.next_scripted = self.next_scripted + 1;
            if t.unicode_len() == 0 {
                return TurnReport::NoMoveProvided;
            }
            text = t.to_owned();
            recorded = String::new();
        }
        match read_move(text.as_str()) {
            None => TurnReport::MoveTextPanics,
            Some(Ok(mv)) => self.play(mv, recorded, None),
            Some(Err(e)) => TurnReport::BadMoveText(e),
        }
    }
}

} // verus!
