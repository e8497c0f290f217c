use chess_engine::{Color, Piece, Position};
use zkchess::game::{
    describe_cpu_move, get_cpu_move, move_text_would_panic, read_move, CpuMoveNote, Game,
    TurnReport, TurnResult,
};
use zkchess::gameparse::ChessInput;
use zkchess::model::{ChessPiece, MoveCmd, PieceKind, Pos, Side};


fn at(board: &chess_engine::Board, pos: Pos) -> Option<ChessPiece> {
    board.get_piece(Position::new(pos.row, pos.col)).map(|p| ChessPiece {
        side: if p.get_color() == Color::White { Side::White } else { Side::Black },
        kind: match p {
            Piece::King(..) => PieceKind::King,
            Piece::Queen(..) => PieceKind::Queen,
            Piece::Rook(..) => PieceKind::Rook,
            Piece::Bishop(..) => PieceKind::Bishop,
            Piece::Knight(..) => PieceKind::Knight,
            Piece::Pawn(..) => PieceKind::Pawn,
        },
    })
}

fn turn(board: &chess_engine::Board) -> Side {
    if board.get_turn_color() == Color::White { Side::White } else { Side::Black }
}

fn strings(items: &[&str]) -> Vec<String> {
    items.iter().map(|s| s.to_string()).collect()
}

fn board(w: &[&str], b: &[&str]) -> chess_engine::Board {
    ChessInput { w: strings(w), b: strings(b), moves: Vec::new() }.to_board().unwrap()
}

fn puzzle_board() -> chess_engine::Board {
    board(&["Ke1", "Qf3", "Bc4", "Pd2", "Pe4"], &["Kf8", "Pf7", "Pg7", "Ph7", "Pe7"])
}

fn sq(row: i32, col: i32) -> Pos {
    Pos { row, col }
}

fn mate_move() -> MoveCmd {
    MoveCmd::Piece(sq(2, 5), sq(6, 5))
}

#[test]
fn scripted_mate_wins_the_game() {
    let start = puzzle_board();
    let mut game = Game::new(start, false, strings(&["f3f7"]));
    assert!(!game.cpu_to_move());
    assert!(!game.awaits_line());
    let report = game.take_turn("");
    assert_eq!(
        report,
        TurnReport::Played { cpu: None, mv: mate_move(), result: TurnResult::Won(Side::White) }
    );
    assert!(game.over);
    assert_eq!(game.next_scripted, 1);
    assert!(game.recorded.is_empty());
    assert!(game.history.is_empty());
    assert_eq!(game.board, start);
}

#[test]
fn interactive_mate_is_recorded() {
    let mut game = Game::new(puzzle_board(), true, Vec::new());
    assert!(game.awaits_line());
    let report = game.take_turn("  f3f7 \n");
    assert_eq!(
        report,
        TurnReport::Played { cpu: None, mv: mate_move(), result: TurnResult::Won(Side::White) }
    );
    assert_eq!(game.recorded, strings(&["f3f7"]));
    assert!(game.over);
}

#[test]
fn interactive_empty_line_asks_again() {
    let start = puzzle_board();
    let mut game = Game::new(start, true, Vec::new());
    assert_eq!(game.take_turn("   "), TurnReport::NeedMove);
    assert_eq!(game.board, start);
    assert!(!game.over);
    assert!(game.recorded.is_empty());
}

#[test]
fn script_runs_out() {
    let mut game = Game::new(puzzle_board(), false, Vec::new());
    assert_eq!(game.take_turn("f3f7"), TurnReport::NoMoveProvided);
    assert_eq!(game.next_scripted, 0);
    let mut game = Game::new(puzzle_board(), false, strings(&["  "]));
    assert_eq!(game.take_turn(""), TurnReport::NoMoveProvided);
    assert_eq!(game.next_scripted, 1);
}

#[test]
fn unreadable_move_text() {
    let mut game = Game::new(puzzle_board(), true, Vec::new());
    assert_eq!(
        game.take_turn("hello"),
        TurnReport::BadMoveText("invalid move format `hello`".to_string())
    );
    assert!(!game.over);
    let mut game = Game::new(puzzle_board(), false, strings(&["z9 e4", "f3f7"]));
    assert_eq!(
        game.take_turn(""),
        TurnReport::BadMoveText("invalid column character `z`".to_string())
    );
    assert_eq!(game.next_scripted, 1);
}

#[test]
fn illegal_move_changes_nothing() {
    let start = puzzle_board();
    let mut game = Game::new(start, true, Vec::new());
    let report = game.take_turn("e1e3");
    assert_eq!(
        report,
        TurnReport::Played {
            cpu: None,
            mv: MoveCmd::Piece(sq(0, 4), sq(2, 4)),
            result: TurnResult::Illegal
        }
    );
    assert_eq!(game.board, start);
    assert!(!game.over);
    assert!(game.recorded.is_empty());
}

#[test]
fn resigning_hands_the_win_over() {
    let mut game = Game::new(puzzle_board(), true, Vec::new());
    let report = game.take_turn("resign");
    assert_eq!(
        report,
        TurnReport::Played { cpu: None, mv: MoveCmd::Resign, result: TurnResult::Won(Side::Black) }
    );
    assert!(game.over);
    assert_eq!(game.recorded, strings(&["resign"]));
}

#[test]
fn castling_texts_are_read() {
    let mut game = Game::new(board(&["Ke1", "Pa2"], &["Kh8"]), false, strings(&["O-O"]));
    match game.take_turn("") {
        TurnReport::Played { cpu: None, mv, .. } => assert_eq!(mv, MoveCmd::KingSideCastle),
        other => panic!("unexpected report {:?}", other),
    }
}

#[test]
fn move_text_panics_on_a_split_character() {
    assert!(move_text_would_panic("\u{20ac}a"));
    assert!(move_text_would_panic("  \u{20ac}a  "));
    assert!(!move_text_would_panic("e2e4"));
    assert!(!move_text_would_panic("\u{e9}e4"));
    assert!(!move_text_would_panic("\u{20ac} a"));
    let mut game = Game::new(puzzle_board(), true, Vec::new());
    assert_eq!(game.take_turn("\u{20ac}a"), TurnReport::MoveTextPanics);
    assert!(!game.over);
}

#[test]
fn turns_alternate_and_engine_replies() {
    let mut game = Game::new(board(&["Ke1", "Pa2"], &["Kh8"]), true, Vec::new());
    let report = game.take_turn("a2a3");
    assert_eq!(
        report,
        TurnReport::Played {
            cpu: None,
            mv: MoveCmd::Piece(sq(1, 0), sq(2, 0)),
            result: TurnResult::Continued
        }
    );
    assert_eq!(turn(&game.board), Side::Black);
    assert!(game.cpu_to_move());
    assert_eq!(game.history.len(), 1);
    assert!(game.recorded.is_empty());
    let report = game.take_turn("ignored");
    match report {
        TurnReport::Played { cpu: Some(choice), mv, result: TurnResult::Continued } => {
            assert_eq!(choice.mv, mv);
        }
        other => panic!("unexpected report {:?}", other),
    }
    assert_eq!(turn(&game.board), Side::White);
    assert_eq!(game.history.len(), 2);
    assert_eq!(game.recorded, strings(&[""]));
}

#[test]
fn describe_cpu_moves() {
    let b = puzzle_board();
    assert_eq!(
        describe_cpu_move(&b, mate_move()),
        CpuMoveNote::Take {
            taken: PieceKind::Pawn,
            to: sq(6, 5),
            mover: PieceKind::Queen,
            from: sq(2, 5)
        }
    );
    assert_eq!(
        describe_cpu_move(&b, MoveCmd::Piece(sq(1, 3), sq(2, 3))),
        CpuMoveNote::Shift { mover: PieceKind::Pawn, from: sq(1, 3), to: sq(2, 3) }
    );
    assert_eq!(
        describe_cpu_move(&b, MoveCmd::Piece(sq(4, 4), sq(5, 4))),
        CpuMoveNote::Squares { from: sq(4, 4), to: sq(5, 4) }
    );
    assert_eq!(describe_cpu_move(&b, MoveCmd::KingSideCastle), CpuMoveNote::CastleKingside);
    assert_eq!(describe_cpu_move(&b, MoveCmd::QueenSideCastle), CpuMoveNote::CastleQueenside);
    assert_eq!(describe_cpu_move(&b, MoveCmd::Resign), CpuMoveNote::Resign);
}

#[test]
fn engine_choice_is_announced() {
    let b = board(&["Kh1"], &["Ka8", "Pb7"]);
    let choice = get_cpu_move(&b);
    assert_eq!(choice.note, describe_cpu_move(&b, choice.mv));
    assert!(choice.boards_evaluated > 0);
    assert_eq!(get_cpu_move(&b), choice);
    assert_eq!(
        at(&b, sq(6, 1)),
        Some(ChessPiece { side: Side::Black, kind: PieceKind::Pawn })
    );
    match choice.mv {
        MoveCmd::Piece(from, _) => {
            assert_eq!(at(&b, from).unwrap().side, Side::White);
        }
        other => panic!("unexpected move {:?}", other),
    }
}

#[test]
fn read_move_forms() {
    let e2e4 = MoveCmd::Piece(sq(1, 4), sq(3, 4));
    assert_eq!(read_move("e2e4"), Some(Ok(e2e4)));
    assert_eq!(read_move(" e2 e4 "), Some(Ok(e2e4)));
    assert_eq!(read_move("e2 to e4"), Some(Ok(e2e4)));
    assert_eq!(read_move("E2E4"), Some(Ok(e2e4)));
    assert_eq!(read_move("castle kingside"), Some(Ok(MoveCmd::KingSideCastle)));
    assert_eq!(read_move("0-0-0"), Some(Ok(MoveCmd::QueenSideCastle)));
    assert_eq!(read_move("resigns"), Some(Ok(MoveCmd::Resign)));
    assert_eq!(read_move("xx"), Some(Err("invalid move format `xx`".to_string())));
    assert_eq!(read_move("e9e4"), Some(Ok(MoveCmd::Piece(sq(8, 4), sq(3, 4)))));
    assert_eq!(read_move("\u{20ac}a"), None);
}

#[test]
fn read_move_agrees_with_parse_move() {
    for text in ["e2e4", "a1h8", "x2e4", "e2ex", "h0a9"] {
        let expected = zkchess::gameparse::parse_move(text).map(|(f, t)| MoveCmd::Piece(f, t));
        assert_eq!(read_move(text), Some(expected));
    }
}
