use gears::chessboard::{ChessError, Chessboard, Strictness};
use gears::moves::{ChessMove, ChessMoveFlags};
use gears::squares::parse_square;

fn knights() -> Chessboard {
    Chessboard::from_fen("4k3/8/8/8/8/8/8/1N2KN2 w - - 0 1", Strictness::Strict).unwrap()
}

#[test]
fn san_ambiguous_move_test() {
    let pos = knights();
    assert!(matches!(ChessMove::from_extended_text("Nd2", &pos), Err(ChessError::AmbiguousMove)));
}

#[test]
fn san_disambiguated_move_test() {
    let pos = knights();
    let m = ChessMove::from_extended_text("Nbd2", &pos).unwrap();
    let expected = ChessMove::new(parse_square("b1").unwrap(), parse_square("d2").unwrap(), ChessMoveFlags::NormalMove);
    assert_eq!(m, expected);
    let m2 = ChessMove::from_extended_text("Nf1-d2", &pos).unwrap();
    assert_eq!(m2, ChessMove::new(parse_square("f1").unwrap(), parse_square("d2").unwrap(), ChessMoveFlags::NormalMove));
}

#[test]
fn san_illegal_move_test() {
    let pos = Chessboard::from_name("startpos").unwrap();
    assert!(matches!(ChessMove::from_extended_text("Nd2", &pos), Err(ChessError::IllegalMove)));
    assert!(matches!(ChessMove::from_extended_text("e5", &pos), Err(ChessError::IllegalMove)));
}

#[test]
fn san_incorrect_annotation_test() {
    let pos = Chessboard::from_name("startpos").unwrap();
    assert!(matches!(ChessMove::from_extended_text("Nxf3", &pos), Err(ChessError::IncorrectAnnotation)));
    assert!(matches!(ChessMove::from_extended_text("Nf3+", &pos), Err(ChessError::IncorrectAnnotation)));
}

#[test]
fn san_trailing_text_test() {
    let pos = Chessboard::from_name("startpos").unwrap();
    assert!(matches!(ChessMove::from_extended_text("Nf3 x", &pos), Err(ChessError::InvalidMove)));
    assert!(ChessMove::from_extended_text("Nf3 !?", &pos).is_ok());
    assert!(matches!(ChessMove::from_extended_text("", &pos), Err(ChessError::EmptyInput)));
}
