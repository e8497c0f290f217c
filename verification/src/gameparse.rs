//! Reading a puzzle: pieces written as `Ke1` or `Pd2`, moves written as
//! `e2e4`, and the board that a list of white and black pieces sets up.

use vstd::prelude::*;
use chess_engine::{Board, BoardBuilder};
use crate::model::{
    ChessPiece, PieceKind, Pos, Side, on_board, square_key, no_pieces, with_text_error, all_castling,
    is_square_text, square_of_text,
};
use crate::engine::{
    board_pieces, board_turn, builder_pieces, builder_turn, board_castling, board_en_passant,
    builder_castling, builder_en_passant, spec_pgn, empty_board,
    builder_from_board, builder_with_piece, builder_finish, pgn_position,
};
use crate::text::{utf8_len, splits_at, byte_slice, split_text, byte_len, char_text, concat2, concat4};

verus! {

/// A piece letter and the square that it was written with, as in `Ke1`.
#[derive(Clone, Copy, Debug, PartialEq, Eq, Structural)]
pub struct PiecePosition {
    pub piece_type: char,
    pub pos: Pos,
}

/// What reading a piece text gives: fewer than three bytes are refused;
/// otherwise the first character is the piece letter and the rest, from
/// byte 1 on, is read as a square.
pub open spec fn spec_piece_position(s: Seq<char>) -> Result<PiecePosition, Seq<char>> {
    if utf8_len(s) < 3 {
        Err("Invalid position string"@)
    } else {
        match spec_pgn(byte_slice(s, 1, utf8_len(s))) {
            Ok(pos) => Ok(PiecePosition { piece_type: s[0], pos }),
            Err(e) => Err(e),
        }
    }
}

/// The text after the piece letter: bytes 1 to the end.
pub open spec fn piece_square_text(s: Seq<char>) -> Seq<char> {
    byte_slice(s, 1, utf8_len(s))
}

/// A piece text is read as its first character and the square that the
/// engine's square reader gives for the text after it: the position is that
/// square whatever its rank, and an error of the square reader is the error.
pub proof fn lemma_piece_text_is_letter_and_square(s: Seq<char>)
    requires
        utf8_len(s) >= 3,
    ensures
        spec_piece_position(s) is Ok <==> spec_pgn(piece_square_text(s)) is Ok,
        spec_piece_position(s) matches Ok(pp) ==> pp.piece_type == s[0] && spec_pgn(
            piece_square_text(s),
        ) == Ok::<Pos, Seq<char>>(pp.pos),
        spec_piece_position(s) matches Err(e) ==> spec_pgn(piece_square_text(s)) == Err::<
            Pos,
            Seq<char>,
        >(e),
{
}

/// A piece text of three bytes or more whose first character takes more
/// than one byte: the text cannot be cut after its first byte.
pub open spec fn piece_position_panics(s: Seq<char>) -> bool {
    utf8_len(s) >= 3 && !splits_at(s, 1)
}

impl PiecePosition {
    /// Reads a piece text such as `Ke1`: the piece letter, then the square.
    pub fn from_str(s: &str) -> (res: Result<PiecePosition, String>)
        requires
            !piece_position_panics(s@),
        ensures
            with_text_error(res) == spec_piece_position(s@),
            res matches Ok(pp) ==> pp.piece_type == s@[0] && spec_pgn(piece_square_text(s@))
                == Ok::<Pos, Seq<char>>(pp.pos),
            utf8_len(s@) >= 3 && is_square_text(piece_square_text(s@)) ==> (res matches Ok(pp)
                && pp.pos == square_of_text(piece_square_text(s@))),
    {
        if byte_len(s) < 3 {
            return Err("Invalid position string".to_owned());
        }
        proof {
            if s@.len() == 0 {
                assert(utf8_len(s@) == 0);
            }
        }
        let piece_type = s.get_char(0);
        let (_, pos_str) = split_text(s, 1);
        match pgn_position(pos_str) {
            Ok(pos) => Ok(PiecePosition { piece_type, pos }),
            Err(e) => Err(e),
        }
    }
}

/// What reading a move text gives: a text of other than four bytes is
/// refused; otherwise bytes 0..2 and 2..4 are read as squares, the first
/// error winning.
pub open spec fn spec_parse_move(s: Seq<char>) -> Result<(Pos, Pos), Seq<char>> {
    if utf8_len(s) != 4 {
        Err("Move string must be exactly 4 characters"@)
    } else {
        match spec_pgn(byte_slice(s, 0, 2)) {
            Err(e) => Err(e),
            Ok(from) => match spec_pgn(byte_slice(s, 2, 4)) {
                Err(e) => Err(e),
                Ok(to) => Ok((from, to)),
            },
        }
    }
}

/// A move text is read as two squares exactly where it has four bytes and
/// the engine's square reader reads both halves; the squares are those it
/// gives, in order, and otherwise the first error is the error.
pub proof fn lemma_move_text_is_two_squares(s: Seq<char>)
    ensures
        spec_parse_move(s) is Ok <==> utf8_len(s) == 4 && spec_pgn(byte_slice(s, 0, 2)) is Ok && spec_pgn(
            byte_slice(s, 2, 4),
        ) is Ok,
        spec_parse_move(s) matches Ok(squares) ==> spec_pgn(byte_slice(s, 0, 2)) == Ok::<
            Pos,
            Seq<char>,
        >(squares.0) && spec_pgn(byte_slice(s, 2, 4)) == Ok::<Pos, Seq<char>>(squares.1),
        spec_pgn(byte_slice(s, 0, 2)) matches Err(e) ==> (utf8_len(s) == 4 ==> spec_parse_move(s)
            == Err::<(Pos, Pos), Seq<char>>(e)),
{
}

/// A move text of four bytes that cannot be cut after its second byte.
pub open spec fn parse_move_panics(s: Seq<char>) -> bool {
    utf8_len(s) == 4 && !splits_at(s, 2)
}

/// Reads a move text such as `e2e4` as the squares it goes from and to.
pub fn parse_move(move_str: &str) -> (res: Result<(Pos, Pos), String>)
    requires
        !parse_move_panics(move_str@),
    ensures
        with_text_error(res) == spec_parse_move(move_str@),
        res matches Ok(squares) ==> utf8_len(move_str@) == 4 && spec_pgn(byte_slice(move_str@, 0, 2))
            == Ok::<Pos, Seq<char>>(squares.0) && spec_pgn(byte_slice(move_str@, 2, 4)) == Ok::<
            Pos,
            Seq<char>,
        >(squares.1),
        utf8_len(move_str@) == 4 && is_square_text(byte_slice(move_str@, 0, 2)) && is_square_text(
            byte_slice(move_str@, 2, 4),
        ) ==> (res matches Ok(squares) && squares.0 == square_of_text(byte_slice(move_str@, 0, 2))
            && squares.1 == square_of_text(byte_slice(move_str@, 2, 4))),
{
    if byte_len(move_str) != 4 {
        return Err("Move string must be exactly 4 characters".to_owned());
    }
    let (from_str, to_str) = split_text(move_str, 2);
    let from = match pgn_position(from_str) {
        Ok(p) => p,
        Err(e) => return Err(e),
    };
    let to = match pgn_position(to_str) {
        Ok(p) => p,
        Err(e) => return Err(e),
    };
    Ok((from, to))
}

/// The texts of a list of moves.
pub open spec fn move_texts(moves: Seq<String>) -> Seq<Seq<char>> {
    moves.map_values(|s: String| s@)
}

/// One step of reading moves: the first move read, and the moves left,
/// which lose their first only where it could be read.
pub open spec fn next_move_step(moves: Seq<Seq<char>>) -> (Result<(Pos, Pos), Seq<char>>, Seq<Seq<char>>) {
    if moves.len() == 0 {
        (Err("No moves remaining"@), moves)
    } else {
        let r = spec_parse_move(moves[0]);
        (r, if r is Ok { moves.drop_first() } else { moves })
    }
}

/// `k` steps of reading moves: the results in order, and the moves left.
pub open spec fn move_steps(moves: Seq<Seq<char>>, k: nat) -> (Seq<Result<(Pos, Pos), Seq<char>>>, Seq<Seq<char>>)
    decreases k,
{
    if k == 0 {
        (seq![], moves)
    } else {
        let (results, left) = move_steps(moves, (k - 1) as nat);
        let (r, rest) = next_move_step(left);
        (results.push(r), rest)
    }
}

/// `k` steps give `k` results.
proof fn lemma_move_steps_len(moves: Seq<Seq<char>>, k: nat)
    ensures
        move_steps(moves, k).0.len() == k,
    decreases k,
{
    if k > 0 {
        lemma_move_steps_len(moves, (k - 1) as nat);
    }
}

/// Moves are read front to back: where `k` steps all succeed, step `i` read
/// move `i`, and the moves left are those after the first `k`.
pub proof fn lemma_moves_read_in_order(moves: Seq<Seq<char>>, k: nat)
    requires
        forall|i: int| 0 <= i < k ==> (#[trigger] move_steps(moves, k).0[i]) is Ok,
    ensures
        k <= moves.len(),
        move_steps(moves, k).1 == moves.skip(k as int),
        forall|i: int| 0 <= i < k ==> #[trigger] move_steps(moves, k).0[i] == spec_parse_move(moves[i]),
    decreases k,
{
    if k == 0 {
        assert(moves.skip(0) =~= moves);
    } else {
        let prev = move_steps(moves, (k - 1) as nat);
        lemma_move_steps_len(moves, (k - 1) as nat);
        assert(move_steps(moves, k).0 == prev.0.push(next_move_step(prev.1).0));
        assert forall|i: int| 0 <= i < k - 1 implies (#[trigger] prev.0[i]) is Ok by {
            assert(move_steps(moves, k).0[i] == prev.0[i]);
        }
        lemma_moves_read_in_order(moves, (k - 1) as nat);
        assert(move_steps(moves, k).0[k - 1] == next_move_step(prev.1).0);
        assert(prev.1.len() > 0);
        assert(prev.1[0] == moves[k - 1]);
        assert(moves.skip(k - 1).drop_first() =~= moves.skip(k as int));
        assert forall|i: int| 0 <= i < k implies #[trigger] move_steps(moves, k).0[i] == spec_parse_move(moves[i]) by {
            if i < k - 1 {
                assert(move_steps(moves, k).0[i] == prev.0[i]);
            }
        }
    }
}

/// Reads the first of the remaining moves, and takes it off the list only
/// where it could be read.
pub fn process_next_move(moves: &mut Vec<String>) -> (res: Result<(Pos, Pos), String>)
    requires
        old(moves)@.len() > 0 ==> !parse_move_panics(old(moves)@[0]@),
    ensures
        old(moves)@.len() == 0 ==> with_text_error(res) == Err::<(Pos, Pos), Seq<char>>(
            "No moves remaining"@,
        ) && final(moves)@ == old(moves)@,
        old(moves)@.len() > 0 ==> with_text_error(res) == spec_parse_move(old(moves)@[0]@),
        res is Ok ==> final(moves)@ == old(moves)@.drop_first(),
        res is Err ==> final(moves)@ == old(moves)@,
        next_move_step(move_texts(old(moves)@)) == (with_text_error(res), move_texts(final(moves)@)),
{
    if moves.len() == 0 {
        return Err("No moves remaining".to_owned());
    }
    let result = parse_move(moves[0].as_str());
    match result {
        Ok(squares) => {
            let _ = moves.remove(0);
            assert(move_texts(moves@) =~= move_texts(old(moves)@).drop_first());
            Ok(squares)
        },
        Err(e) => Err(e),
    }
}

/// A piece set on a square.
#[derive(Clone, Copy, Debug, PartialEq, Eq, Structural)]
pub struct Placement {
    pub piece: ChessPiece,
    pub pos: Pos,
}

/// The kind that a piece letter names in a puzzle: only kings, queens,
/// bishops and pawns are written there.
pub open spec fn kind_for_letter(c: char) -> Option<PieceKind> {
    if c == 'K' {
        Some(PieceKind::King)
    } else if c == 'Q' {
        Some(PieceKind::Queen)
    } else if c == 'B' {
        Some(PieceKind::Bishop)
    } else if c == 'P' {
        Some(PieceKind::Pawn)
    } else {
        None
    }
}

/// The piece kind of a letter, where the puzzle format has one.
pub fn kind_of_letter(c: char) -> (res: Option<PieceKind>)
    ensures
        res == kind_for_letter(c),
{
    if c == 'K' {
        Some(PieceKind::King)
    } else if c == 'Q' {
        Some(PieceKind::Queen)
    } else if c == 'B' {
        Some(PieceKind::Bishop)
    } else if c == 'P' {
        Some(PieceKind::Pawn)
    } else {
        None
    }
}

/// How an error about a piece text of `side` begins.
pub open spec fn parse_error_prefix(side: Side) -> Seq<char> {
    match side {
        Side::White => "Error parsing white piece "@,
        Side::Black => "Error parsing black piece "@,
    }
}

/// What one piece text of `side` sets up: a placement, or the error that
/// names the text.
pub open spec fn entry_result(side: Side, s: Seq<char>) -> Result<Placement, Seq<char>> {
    match spec_piece_position(s) {
        Err(e) => Err(parse_error_prefix(side) + s + ": "@ + e),
        Ok(pp) => match kind_for_letter(pp.piece_type) {
            Some(kind) => Ok(Placement { piece: ChessPiece { side, kind }, pos: pp.pos }),
            None => Err("Unsupported piece type: "@ + seq![pp.piece_type]),
        },
    }
}

/// A piece text of a list is placed as a piece of that list's side, of the
/// kind its letter names (`K`, `Q`, `B`, `P`), on the square read from the
/// rest of the text.
pub proof fn lemma_entry_piece(side: Side, s: Seq<char>)
    ensures
        entry_result(side, s) matches Ok(pl) ==> {
            &&& pl.piece.side == side
            &&& utf8_len(s) >= 3
            &&& spec_pgn(piece_square_text(s)) == Ok::<Pos, Seq<char>>(pl.pos)
            &&& s[0] == 'K' ==> pl.piece.kind == PieceKind::King
            &&& s[0] == 'Q' ==> pl.piece.kind == PieceKind::Queen
            &&& s[0] == 'B' ==> pl.piece.kind == PieceKind::Bishop
            &&& s[0] == 'P' ==> pl.piece.kind == PieceKind::Pawn
            &&& s[0] == 'K' || s[0] == 'Q' || s[0] == 'B' || s[0] == 'P'
        },
        utf8_len(s) >= 3 && (s[0] == 'K' || s[0] == 'Q' || s[0] == 'B' || s[0] == 'P') && spec_pgn(
            piece_square_text(s),
        ) is Ok ==> entry_result(side, s) is Ok,
{
}

/// Where setting up a board from piece texts ends.
pub enum SetupOutcome {
    /// Every text was placed, in this order.
    Placed(Seq<Placement>),
    /// A text was refused, with this message.
    Rejected(Seq<char>),
    /// A text could not be cut after its first byte, or named a square off
    /// the board: the engine's builder panics there.
    Panics,
}

/// The outcome after one more piece text, from the placements so far.
pub open spec fn next_outcome(placed: Seq<Placement>, side: Side, s: Seq<char>) -> SetupOutcome {
    if piece_position_panics(s) {
        SetupOutcome::Panics
    } else {
        match entry_result(side, s) {
            Err(e) => SetupOutcome::Rejected(e),
            Ok(pl) => if on_board(pl.pos) {
                SetupOutcome::Placed(placed.push(pl))
            } else {
                SetupOutcome::Panics
            },
        }
    }
}

/// The outcome of setting up a board from piece texts taken in order; the
/// first text that is refused or panics ends it.
pub open spec fn setup_outcome(entries: Seq<(Side, Seq<char>)>) -> SetupOutcome
    decreases entries.len(),
{
    if entries.len() == 0 {
        SetupOutcome::Placed(seq![])
    } else {
        match setup_outcome(entries.drop_last()) {
            SetupOutcome::Placed(placed) => next_outcome(placed, entries.last().0, entries.last().1),
            other => other,
        }
    }
}

/// The board map that placements give: a later piece on a square replaces
/// an earlier one.
pub open spec fn placements_map(placed: Seq<Placement>) -> Map<(i32, i32), ChessPiece>
    decreases placed.len(),
{
    if placed.len() == 0 {
        no_pieces()
    } else {
        placements_map(placed.drop_last()).insert(square_key(placed.last().pos), placed.last().piece)
    }
}

/// The outcome of setting up after the first `n` piece texts.
pub proof fn lemma_setup_step(entries: Seq<(Side, Seq<char>)>, n: int)
    requires
        0 <= n < entries.len(),
    ensures
        setup_outcome(entries.take(n + 1)) == (match setup_outcome(entries.take(n)) {
            SetupOutcome::Placed(placed) => next_outcome(placed, entries[n].0, entries[n].1),
            other => other,
        }),
{
    assert(entries.take(n + 1).drop_last() =~= entries.take(n));
}

/// Once setting up has stopped, at a refused text or one on which the
/// setup panics, the texts that follow change nothing.
pub proof fn lemma_setup_stops(entries: Seq<(Side, Seq<char>)>, n: int)
    requires
        0 <= n <= entries.len(),
        !(setup_outcome(entries.take(n)) is Placed),
    ensures
        setup_outcome(entries) == setup_outcome(entries.take(n)),
    decreases entries.len() - n,
{
    if n == entries.len() {
        assert(entries.take(n) =~= entries);
    } else {
        lemma_setup_step(entries, n);
        lemma_setup_stops(entries, n + 1);
    }
}

/// A square on which a piece is placed, and on which no later piece is
/// placed, holds that piece on the board that the placements give.
pub proof fn lemma_last_placement_wins(placed: Seq<Placement>, k: int)
    requires
        0 <= k < placed.len(),
        forall|j: int| k < j < placed.len() ==> square_key(#[trigger] placed[j].pos) != square_key(placed[k].pos),
    ensures
        placements_map(placed).contains_key(square_key(placed[k].pos)),
        placements_map(placed)[square_key(placed[k].pos)] == placed[k].piece,
    decreases placed.len(),
{
    if k < placed.len() - 1 {
        let prefix = placed.drop_last();
        assert forall|j: int| k < j < prefix.len() implies square_key(#[trigger] prefix[j].pos) != square_key(prefix[k].pos) by {
            assert(prefix[j] == placed[j]);
        }
        lemma_last_placement_wins(prefix, k);
    }
}

/// A square on which no piece is placed holds nothing on the board that
/// the placements give.
pub proof fn lemma_unplaced_square_is_empty(placed: Seq<Placement>, key: (i32, i32))
    requires
        forall|j: int| 0 <= j < placed.len() ==> square_key(#[trigger] placed[j].pos) != key,
    ensures
        !placements_map(placed).contains_key(key),
    decreases placed.len(),
{
    if placed.len() > 0 {
        let prefix = placed.drop_last();
        assert forall|j: int| 0 <= j < prefix.len() implies square_key(#[trigger] prefix[j].pos) != key by {
            assert(prefix[j] == placed[j]);
        }
        lemma_unplaced_square_is_empty(prefix, key);
    }
}

/// A setup that places every text places one piece per text, in order:
/// the piece that the text names, on its square, which is on the board.
pub proof fn lemma_setup_placements(entries: Seq<(Side, Seq<char>)>)
    ensures
        setup_outcome(entries) matches SetupOutcome::Placed(placed) ==> {
            &&& placed.len() == entries.len()
            &&& forall|j: int| 0 <= j < placed.len() ==> entry_result(entries[j].0, entries[j].1)
                == Ok::<Placement, Seq<char>>(#[trigger] placed[j]) && on_board(placed[j].pos)
        },
    decreases entries.len(),
{
    if entries.len() > 0 {
        let prefix = entries.drop_last();
        lemma_setup_placements(prefix);
        if let SetupOutcome::Placed(prev) = setup_outcome(prefix) {
            if let SetupOutcome::Placed(placed) = setup_outcome(entries) {
                assert forall|j: int| 0 <= j < placed.len() implies entry_result(entries[j].0, entries[j].1)
                    == Ok::<Placement, Seq<char>>(#[trigger] placed[j]) && on_board(placed[j].pos) by {
                    if j < prev.len() {
                        assert(placed[j] == prev[j]);
                        assert(entries[j] == prefix[j]);
                    }
                }
            }
        }
    }
}

/// The placement that a piece text gives, where it gives one.
pub open spec fn entry_placement(e: (Side, Seq<char>)) -> Placement {
    entry_result(e.0, e.1)->Ok_0
}

/// Every text can be cut, is read as a piece, and names a square of the
/// board.
pub open spec fn all_entries_good(entries: Seq<(Side, Seq<char>)>) -> bool {
    forall|j: int| 0 <= j < entries.len() ==> {
        &&& !piece_position_panics((#[trigger] entries[j]).1)
        &&& entry_result(entries[j].0, entries[j].1) is Ok
        &&& on_board(entry_placement(entries[j]).pos)
    }
}

/// No two texts name the same square.
pub open spec fn distinct_squares(entries: Seq<(Side, Seq<char>)>) -> bool {
    forall|i: int, j: int| 0 <= i < entries.len() && 0 <= j < entries.len() && i != j ==> square_key(
        entry_placement(#[trigger] entries[i]).pos,
    ) != square_key(entry_placement(#[trigger] entries[j]).pos)
}

/// Texts that are all good are all placed, each as it reads.
pub proof fn lemma_good_entries_placed(entries: Seq<(Side, Seq<char>)>)
    requires
        all_entries_good(entries),
    ensures
        setup_outcome(entries) is Placed,
        setup_outcome(entries)->Placed_0.len() == entries.len(),
        forall|j: int| 0 <= j < entries.len() ==> (#[trigger] setup_outcome(entries)->Placed_0[j])
            == entry_placement(entries[j]),
    decreases entries.len(),
{
    if entries.len() > 0 {
        let prefix = entries.drop_last();
        assert forall|j: int| 0 <= j < prefix.len() implies {
            &&& !piece_position_panics((#[trigger] prefix[j]).1)
            &&& entry_result(prefix[j].0, prefix[j].1) is Ok
            &&& on_board(entry_placement(prefix[j]).pos)
        } by {
            assert(prefix[j] == entries[j]);
        }
        lemma_good_entries_placed(prefix);
        let prev = setup_outcome(prefix)->Placed_0;
        let last = entries[entries.len() - 1];
        assert(entries.last() == last);
        let placed = setup_outcome(entries)->Placed_0;
        assert(placed == prev.push(entry_placement(last)));
        assert forall|j: int| 0 <= j < entries.len() implies (#[trigger] setup_outcome(entries)->Placed_0[j])
            == entry_placement(entries[j]) by {
            if j < prefix.len() {
                assert(prefix[j] == entries[j]);
                assert(placed[j] == prev[j]);
            }
        }
    }
}

/// With all texts good and no square named twice, the board maps exactly
/// the squares of the texts, each to the piece of its text.
pub proof fn lemma_distinct_board(entries: Seq<(Side, Seq<char>)>, key: (i32, i32))
    requires
        all_entries_good(entries),
        distinct_squares(entries),
    ensures
        placements_map(setup_outcome(entries)->Placed_0).contains_key(key) <==> exists|j: int|
            0 <= j < entries.len() && square_key(entry_placement(#[trigger] entries[j]).pos) == key,
        forall|j: int| 0 <= j < entries.len() && square_key(entry_placement(#[trigger] entries[j]).pos) == key
            ==> placements_map(setup_outcome(entries)->Placed_0)[key] == entry_placement(entries[j]).piece,
{
    lemma_good_entries_placed(entries);
    let placed = setup_outcome(entries)->Placed_0;
    assert forall|j: int| 0 <= j < entries.len() && square_key(entry_placement(#[trigger] entries[j]).pos) == key
        implies placements_map(placed).contains_key(key) && placements_map(placed)[key]
        == entry_placement(entries[j]).piece by {
        assert(placed[j] == entry_placement(entries[j]));
        assert forall|i: int| j < i < placed.len() implies square_key(#[trigger] placed[i].pos) != square_key(
            placed[j].pos,
        ) by {
            assert(placed[i] == entry_placement(entries[i]));
        }
        lemma_last_placement_wins(placed, j);
    }
    if !(exists|j: int| 0 <= j < entries.len() && square_key(entry_placement(#[trigger] entries[j]).pos) == key) {
        assert forall|j: int| 0 <= j < placed.len() implies square_key(#[trigger] placed[j].pos) != key by {
            assert(placed[j] == entry_placement(entries[j]));
        }
        lemma_unplaced_square_is_empty(placed, key);
    }
}

/// The board does not depend on the order of the texts where all are good
/// and no square is named twice: two such lists that hold the same texts
/// (as for white and black lists each given in another order) set up the
/// same pieces.
pub proof fn lemma_setup_order_free(e1: Seq<(Side, Seq<char>)>, e2: Seq<(Side, Seq<char>)>)
    requires
        all_entries_good(e1),
        all_entries_good(e2),
        distinct_squares(e1),
        distinct_squares(e2),
        forall|x: (Side, Seq<char>)| e1.contains(x) <==> e2.contains(x),
    ensures
        setup_outcome(e1) is Placed,
        setup_outcome(e2) is Placed,
        placements_map(setup_outcome(e1)->Placed_0) == placements_map(setup_outcome(e2)->Placed_0),
{
    lemma_good_entries_placed(e1);
    lemma_good_entries_placed(e2);
    let m1 = placements_map(setup_outcome(e1)->Placed_0);
    let m2 = placements_map(setup_outcome(e2)->Placed_0);
    assert forall|key: (i32, i32)| m1.contains_key(key) <==> m2.contains_key(key) by {
        lemma_distinct_board(e1, key);
        lemma_distinct_board(e2, key);
        if m1.contains_key(key) {
            let j = choose|j: int| 0 <= j < e1.len() && square_key(entry_placement(#[trigger] e1[j]).pos) == key;
            assert(e1.contains(e1[j]));
            let k = choose|k: int| 0 <= k < e2.len() && e2[k] == e1[j];
            assert(square_key(entry_placement(e2[k]).pos) == key);
        }
        if m2.contains_key(key) {
            let j = choose|j: int| 0 <= j < e2.len() && square_key(entry_placement(#[trigger] e2[j]).pos) == key;
            assert(e2.contains(e2[j]));
            let k = choose|k: int| 0 <= k < e1.len() && e1[k] == e2[j];
            assert(square_key(entry_placement(e1[k]).pos) == key);
        }
    }
    assert forall|key: (i32, i32)| m1.contains_key(key) implies m1[key] == m2[key] by {
        lemma_distinct_board(e1, key);
        lemma_distinct_board(e2, key);
        let j = choose|j: int| 0 <= j < e1.len() && square_key(entry_placement(#[trigger] e1[j]).pos) == key;
        assert(e1.contains(e1[j]));
        let k = choose|k: int| 0 <= k < e2.len() && e2[k] == e1[j];
        assert(square_key(entry_placement(e2[k]).pos) == key);
    }
    assert(m1 =~= m2);
}

/// On a board set up from a puzzle, the pieces of the white list are White
/// and those of the black list are Black: piece `j` of the placements comes
/// from text `j`, white texts first.
pub proof fn lemma_setup_sides(c: ChessInput)
    ensures
        setup_outcome(c.entries()) matches SetupOutcome::Placed(placed) ==> {
            &&& placed.len() == c.w@.len() + c.b@.len()
            &&& forall|j: int| 0 <= j < c.w@.len() ==> (#[trigger] placed[j]).piece.side == Side::White
            &&& forall|j: int| c.w@.len() <= j < placed.len() ==> (#[trigger] placed[j]).piece.side
                == Side::Black
        },
{
    let es = c.entries();
    lemma_setup_placements(es);
    if let SetupOutcome::Placed(placed) = setup_outcome(es) {
        assert forall|j: int| 0 <= j < placed.len() implies (#[trigger] placed[j]).piece.side == es[j].0 by {
            lemma_entry_piece(es[j].0, es[j].1);
        }
        assert forall|j: int| 0 <= j < c.w@.len() implies (#[trigger] placed[j]).piece.side == Side::White by {
            assert(es[j] == (Side::White, c.w@[j]@));
        }
        assert forall|j: int| c.w@.len() <= j < placed.len() implies (#[trigger] placed[j]).piece.side
            == Side::Black by {
            assert(es[j] == (Side::Black, c.b@[j - c.w@.len()]@));
        }
    }
}

/// Two puzzles that hold the same piece texts, all good and with no square
/// named twice, set up boards with the same pieces (see `to_board`).
pub proof fn lemma_to_board_order_free(c1: ChessInput, c2: ChessInput)
    requires
        all_entries_good(c1.entries()),
        all_entries_good(c2.entries()),
        distinct_squares(c1.entries()),
        distinct_squares(c2.entries()),
        forall|x: (Side, Seq<char>)| c1.entries().contains(x) <==> c2.entries().contains(x),
    ensures
        !c1.setup_panics(),
        !c2.setup_panics(),
        placements_map(setup_outcome(c1.entries())->Placed_0) == placements_map(
            setup_outcome(c2.entries())->Placed_0,
        ),
{
    lemma_setup_order_free(c1.entries(), c2.entries());
}

/// What one step of setting up the board gives.
pub enum EntryStep {
    Placed(BoardBuilder),
    Rejected(String),
    Panics,
}

/// Reads one piece text of `side` and puts the piece on the board being
/// built; or gives the error for the text; or reports that setting up
/// panics on this text.
fn place_entry(builder: BoardBuilder, side: Side, s: &str) -> (res: EntryStep)
    ensures
        match res {
            EntryStep::Panics => next_outcome(seq![], side, s@) is Panics,
            EntryStep::Rejected(m) => next_outcome(seq![], side, s@) == SetupOutcome::Rejected(m@),
            EntryStep::Placed(b) => {
                &&& !piece_position_panics(s@)
                &&& entry_result(side, s@) matches Ok(pl)
                &&& on_board(pl.pos)
                &&& builder_pieces(b) == builder_pieces(builder).insert(square_key(pl.pos), pl.piece)
                &&& builder_turn(b) == builder_turn(builder)
                &&& builder_castling(b) == builder_castling(builder)
                &&& builder_en_passant(b) == builder_en_passant(builder)
            },
        },
{
    if byte_len(s) >= 3 && !s.is_char_boundary(1) {
        return EntryStep::Panics;
    }
    let pp = match PiecePosition::from_str(s) {
        Ok(pp) => pp,
        Err(e) => {
            let prefix = match side {
                Side::White => "Error parsing white piece ",
                Side::Black => "Error parsing black piece ",
            };
            return EntryStep::Rejected(concat4(prefix, s, ": ", e.as_str()));
        },
    };
    let kind = match kind_of_letter(pp.piece_type) {
        Some(k) => k,
        None => {
            let letter = char_text(pp.piece_type);
            return EntryStep::Rejected(concat2("Unsupported piece type: ", letter.as_str()));
        },
    };
    if !pp.pos.is_on_board() {
        return EntryStep::Panics;
    }
    EntryStep::Placed(builder_with_piece(builder, ChessPiece { side, kind }, pp.pos))
}

/// A puzzle as it is written: white pieces, black pieces, and moves.
pub struct ChessInput {
    /// White pieces, such as `Ke1`.
    pub w: Vec<String>,
    /// Black pieces, such as `Kf8`.
    pub b: Vec<String>,
    /// Moves, such as `f3f7`.
    pub moves: Vec<String>,
}

impl ChessInput {
    /// The piece texts in the order that they are set up: white, then black.
    pub open spec fn entries(&self) -> Seq<(Side, Seq<char>)> {
        self.w@.map_values(|s: String| (Side::White, s@)) + self.b@.map_values(
            |s: String| (Side::Black, s@),
        )
    }

    /// Whether setting up this puzzle reaches a text that cannot be cut after
    /// its first byte, or a square off the board, where the engine's builder
    /// would panic.
    pub open spec fn setup_panics(&self) -> bool {
        setup_outcome(self.entries()) is Panics
    }

    /// Sets up the board of the puzzle, or says which text is refused; or
    /// gives `None` where the text cannot be cut or the square is off the
    /// board (see `setup_panics`).
    pub fn to_board_checked(&self) -> (res: Option<Result<Board, String>>)
        ensures
            match setup_outcome(self.entries()) {
                SetupOutcome::Panics => res is None,
                SetupOutcome::Rejected(e) => res matches Some(Err(m)) && m@ == e,
                SetupOutcome::Placed(placed) => res matches Some(Ok(board)) && board_pieces(board)
                    == placements_map(placed) && board_turn(board) == Side::White && board_castling(board)
                    == all_castling() && board_en_passant(board) is None,
            },
    {
        let ghost entries = self.entries();
        let mut builder = builder_from_board(empty_board());
        let ghost mut placed: Seq<Placement> = seq![];
        let wl = self.w.len();
        let mut i: usize = 0;
        assert(entries.take(0) =~= seq![]);
        while i < wl
            invariant
                i <= wl == self.w@.len(),
                entries == self.entries(),
                setup_outcome(entries.take(i as int)) == SetupOutcome::Placed(placed),
                builder_pieces(builder) == placements_map(placed),
                builder_turn(builder) == Side::White,
                builder_castling(builder) == all_castling(),
                builder_en_passant(builder) is None,
            decreases wl - i,
        {
            proof {
                lemma_setup_step(entries, i as int);
                assert(entries[i as int] == (Side::White, self.w@[i as int]@));
            }
            match place_entry(builder, Side::White, self.w[i].as_str()) {
                EntryStep::Placed(next) => {
                    proof {
                        let pl = entry_result(Side::White, self.w@[i as int]@)->Ok_0;
                        assert(placed.push(pl).drop_last() =~= placed);
                        placed = placed.push(pl);
                    }
                    builder = next;
                },
                EntryStep::Rejected(m) => {
                    proof {
                        lemma_setup_stops(entries, i + 1);
                    }
                    return Some(Err(m));
                },
                EntryStep::Panics => {
                    proof {
                        lemma_setup_stops(entries, i + 1);
                    }
                    return None;
                },
            }
            i = i + 1;
        }
        let bl = self.b.len();
        let mut j: usize = 0;
        while j < bl
            invariant
                j <= bl == self.b@.len(),
                wl == self.w@.len(),
                entries == self.entries(),
                setup_outcome(entries.take(wl + j)) == SetupOutcome::Placed(placed),
                builder_pieces(builder) == placements_map(placed),
                builder_turn(builder) == Side::White,
                builder_castling(builder) == all_castling(),
                builder_en_passant(builder) is None,
            decreases bl - j,
        {
            proof {
                lemma_setup_step(entries, wl + j);
                assert(entries[wl + j] == (Side::Black, self.b@[j as int]@));
            }
            match place_entry(builder, Side::Black, self.b[j].as_str()) {
                EntryStep::Placed(next) => {
                    proof {
                        let pl = entry_result(Side::Black, self.b@[j as int]@)->Ok_0;
                        assert(placed.push(pl).drop_last() =~= placed);
                        placed = placed.push(pl);
                    }
                    builder = next;
                },
                EntryStep::Rejected(m) => {
                    proof {
                        lemma_setup_stops(entries, wl + j + 1);
                    }
                    return Some(Err(m));
                },
                EntryStep::Panics => {
                    proof {
                        lemma_setup_stops(entries, wl + j + 1);
                    }
                    return None;
                },
            }
            j = j + 1;
        }
        assert(entries.take(wl + bl) =~= entries);
        Some(Ok(builder_finish(builder)))
    }

    /// Sets up the board of the puzzle: every white piece, then every black
    /// piece, each on its square, with White to move, every castling allowed
    /// and no en-passant square; or the error of the
    /// first text that is refused.
    pub fn to_board(&self) -> (res: Result<Board, String>)
        requires
            !self.setup_panics(),
        ensures
            match setup_outcome(self.entries()) {
                SetupOutcome::Rejected(e) => res matches Err(m) && m@ == e,
                SetupOutcome::Placed(placed) => res matches Ok(board) && board_pieces(board)
                    == placements_map(placed) && board_turn(board) == Side::White && board_castling(board)
                    == all_castling() && board_en_passant(board) is None,
                SetupOutcome::Panics => false,
            },
    {
        match self.to_board_checked() {
            Some(res) => res,
            None => {
                proof {
                    assert(false);
                }
                Err(String::new())
            },
        }
    }

    /// The moves of the puzzle.
    pub fn get_moves(&self) -> (res: &Vec<String>)
        ensures
            res@ == self.moves@,
    {
        &self.moves
    }
}

} // verus!
