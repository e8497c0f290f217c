use chess_engine::{Color, Piece, Position};
use zkchess::gameparse::{parse_move, process_next_move, ChessInput, PiecePosition};
use zkchess::model::{ChessPiece, PieceKind, Pos, Side};


fn at(board: &chess_engine::Board, pos: Pos) -> Option<ChessPiece> {
    board.get_piece(Position::new(pos.row, pos.col)).map(|p| ChessPiece {
        side: if p.get_color() == Color::White { Side::White } else { Side::Black },
        kind: match p {
            Piece::King(..) => PieceKind::King,
            Piece::Queen(..) => PieceKind::Queen,
            Piece::Rook(..) => PieceKind::Rook,
            Piece::Bishop(..) => PieceKind::Bishop,
            Piece::Knight(..) => PieceKind::Knight,
            Piece::Pawn(..) => PieceKind::Pawn,
        },
    })
}

fn turn(board: &chess_engine::Board) -> Side {
    if board.get_turn_color() == Color::White { Side::White } else { Side::Black }
}

fn strings(items: &[&str]) -> Vec<String> {
    items.iter().map(|s| s.to_string()).collect()
}

fn puzzle(w: &[&str], b: &[&str]) -> ChessInput {
    ChessInput { w: strings(w), b: strings(b), moves: Vec::new() }
}

fn sq(row: i32, col: i32) -> Pos {
    Pos { row, col }
}

fn piece(side: Side, kind: PieceKind) -> Option<ChessPiece> {
    Some(ChessPiece { side, kind })
}

#[test]
fn piece_position_reads_letter_and_square() {
    let pp = PiecePosition::from_str("Ke1").unwrap();
    assert_eq!(pp.piece_type, 'K');
    assert_eq!(pp.pos, sq(0, 4));
    let pp = PiecePosition::from_str("Ph7").unwrap();
    assert_eq!(pp.piece_type, 'P');
    assert_eq!(pp.pos, sq(6, 7));
}

#[test]
fn piece_position_square_in_upper_case() {
    let pp = PiecePosition::from_str("QF3").unwrap();
    assert_eq!(pp.pos, sq(2, 5));
}

#[test]
fn piece_position_too_short() {
    assert_eq!(PiecePosition::from_str("K1"), Err("Invalid position string".to_string()));
    assert_eq!(PiecePosition::from_str(""), Err("Invalid position string".to_string()));
}

#[test]
fn piece_position_bad_column() {
    assert_eq!(PiecePosition::from_str("Kz1"), Err("invalid column character `z`".to_string()));
}

#[test]
fn piece_position_bad_row() {
    assert_eq!(PiecePosition::from_str("Kex"), Err("invalid pgn `ex`".to_string()));
}

#[test]
fn piece_position_rows_off_the_board_are_read() {
    assert_eq!(PiecePosition::from_str("Pa9").unwrap().pos, sq(8, 0));
    assert_eq!(PiecePosition::from_str("Pa0").unwrap().pos, sq(-1, 0));
}

#[test]
fn parse_move_reads_two_squares() {
    assert_eq!(parse_move("e2e4"), Ok((sq(1, 4), sq(3, 4))));
    assert_eq!(parse_move("f3f7"), Ok((sq(2, 5), sq(6, 5))));
}

#[test]
fn parse_move_wrong_length() {
    let msg = Err("Move string must be exactly 4 characters".to_string());
    assert_eq!(parse_move("e2e"), msg);
    assert_eq!(parse_move("e2e45"), msg);
    assert_eq!(parse_move(""), msg);
}

#[test]
fn parse_move_first_error_wins() {
    assert_eq!(parse_move("x2y4"), Err("invalid column character `x`".to_string()));
    assert_eq!(parse_move("e2y4"), Err("invalid column character `y`".to_string()));
}

#[test]
fn process_next_move_takes_the_move_off_when_it_reads() {
    let mut moves = strings(&["e2e4", "d7d5"]);
    assert_eq!(process_next_move(&mut moves), Ok((sq(1, 4), sq(3, 4))));
    assert_eq!(moves, strings(&["d7d5"]));
    assert_eq!(process_next_move(&mut moves), Ok((sq(6, 3), sq(4, 3))));
    assert!(moves.is_empty());
}

#[test]
fn process_next_move_keeps_a_move_that_does_not_read() {
    let mut moves = strings(&["zz99", "e2e4"]);
    assert_eq!(process_next_move(&mut moves), Err("invalid pgn `zz`".to_string()));
    assert_eq!(moves, strings(&["zz99", "e2e4"]));
}

#[test]
fn process_next_move_on_no_moves() {
    let mut moves: Vec<String> = Vec::new();
    assert_eq!(process_next_move(&mut moves), Err("No moves remaining".to_string()));
    assert!(moves.is_empty());
}

#[test]
fn to_board_sets_up_the_puzzle() {
    let input = puzzle(&["Ke1", "Qf3", "Bc4", "Pd2", "Pe4"], &["Kf8", "Pf7", "Pg7", "Ph7", "Pe7"]);
    let board = input.to_board().unwrap();
    assert_eq!(turn(&board), Side::White);
    assert_eq!(at(&board, sq(0, 4)), piece(Side::White, PieceKind::King));
    assert_eq!(at(&board, sq(2, 5)), piece(Side::White, PieceKind::Queen));
    assert_eq!(at(&board, sq(3, 2)), piece(Side::White, PieceKind::Bishop));
    assert_eq!(at(&board, sq(1, 3)), piece(Side::White, PieceKind::Pawn));
    assert_eq!(at(&board, sq(3, 4)), piece(Side::White, PieceKind::Pawn));
    assert_eq!(at(&board, sq(7, 5)), piece(Side::Black, PieceKind::King));
    assert_eq!(at(&board, sq(6, 4)), piece(Side::Black, PieceKind::Pawn));
    assert_eq!(at(&board, sq(4, 4)), None);
    let mut count = 0;
    for row in 0..8 {
        for col in 0..8 {
            if at(&board, sq(row, col)).is_some() {
                count += 1;
            }
        }
    }
    assert_eq!(count, 10);
}

#[test]
fn to_board_later_piece_replaces_earlier() {
    let board = puzzle(&["Ke1", "Qe1"], &["Pe1"]).to_board().unwrap();
    assert_eq!(at(&board, sq(0, 4)), piece(Side::Black, PieceKind::Pawn));
    let board = puzzle(&["Ke1", "Qe1"], &[]).to_board().unwrap();
    assert_eq!(at(&board, sq(0, 4)), piece(Side::White, PieceKind::Queen));
}

#[test]
fn to_board_empty_puzzle() {
    let board = puzzle(&[], &[]).to_board().unwrap();
    assert_eq!(turn(&board), Side::White);
    assert_eq!(at(&board, sq(0, 0)), None);
}

#[test]
fn to_board_names_the_white_text() {
    let err = puzzle(&["Ke1", "K1"], &["Kf8"]).to_board().unwrap_err();
    assert_eq!(err, "Error parsing white piece K1: Invalid position string");
}

#[test]
fn to_board_names_the_black_text() {
    let err = puzzle(&["Ke1"], &["Kz8"]).to_board().unwrap_err();
    assert_eq!(err, "Error parsing black piece Kz8: invalid column character `z`");
}

#[test]
fn to_board_refuses_unsupported_pieces() {
    let err = puzzle(&["Ke1", "Ra1"], &[]).to_board().unwrap_err();
    assert_eq!(err, "Unsupported piece type: R");
    let err = puzzle(&["Ke1"], &["Nb8"]).to_board().unwrap_err();
    assert_eq!(err, "Unsupported piece type: N");
}

#[test]
fn to_board_first_error_wins() {
    let err = puzzle(&["Xe1", "K1"], &[]).to_board().unwrap_err();
    assert_eq!(err, "Unsupported piece type: X");
}

#[test]
fn to_board_checked_off_board_square() {
    assert!(puzzle(&["Ke9"], &[]).to_board_checked().is_none());
    assert!(puzzle(&["Ke1"], &["Pa0"]).to_board_checked().is_none());
}

#[test]
fn to_board_checked_multibyte_first_character() {
    assert!(puzzle(&["\u{e9}e1"], &[]).to_board_checked().is_none());
}

#[test]
fn to_board_checked_error_before_off_board_square() {
    let res = puzzle(&["K1", "Ke9"], &[]).to_board_checked();
    assert_eq!(res.unwrap().unwrap_err(), "Error parsing white piece K1: Invalid position string");
}

#[test]
fn to_board_checked_agrees_with_to_board() {
    let input = puzzle(&["Ke1", "Pd2"], &["Kf8"]);
    let board = input.to_board_checked().unwrap().unwrap();
    assert_eq!(board, input.to_board().unwrap());
}

#[test]
fn get_moves_gives_the_moves() {
    let input = ChessInput { w: Vec::new(), b: Vec::new(), moves: strings(&["f3f7"]) };
    assert_eq!(input.get_moves(), &strings(&["f3f7"]));
}

#[test]
fn process_next_move_reads_front_to_back() {
    let mut moves = strings(&["e2e4", "e7e5", "g1f3"]);
    let first = process_next_move(&mut moves).unwrap();
    let second = process_next_move(&mut moves).unwrap();
    assert_eq!(first, parse_move("e2e4").unwrap());
    assert_eq!(second, parse_move("e7e5").unwrap());
    assert_eq!(moves, strings(&["g1f3"]));
}

#[test]
fn to_board_order_of_distinct_texts_does_not_matter() {
    let b1 = puzzle(&["Ke1", "Qf3", "Pd2"], &["Kf8", "Pf7"]).to_board().unwrap();
    let b2 = puzzle(&["Pd2", "Ke1", "Qf3"], &["Pf7", "Kf8"]).to_board().unwrap();
    for row in 0..8 {
        for col in 0..8 {
            assert_eq!(at(&b1, sq(row, col)), at(&b2, sq(row, col)));
        }
    }
}
