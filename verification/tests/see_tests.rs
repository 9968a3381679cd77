use gears::chessboard::Chessboard;
use gears::moves::ChessMove;
use gears::see::{move_see_value, piece_see_value, SeeScore};
use gears::pieces::ChessPieceType;

#[test]
fn trivial_see_test() {
    let board = Chessboard::from_name("kiwipete").unwrap();
    let see_score_no_capture = board.see(
        ChessMove::from_compact_text("a1b1", &board).unwrap(),
        SeeScore(-1000),
        SeeScore(1000),
    );
    assert_eq!(see_score_no_capture, SeeScore(0));
    let see_score_bishop_capture = board.see(
        ChessMove::from_compact_text("e2a6", &board).unwrap(),
        SeeScore(-1000),
        SeeScore(1000),
    );
    assert_eq!(see_score_bishop_capture, SeeScore(300));
    let see_score_bishop_capture = board.see(
        ChessMove::from_compact_text("e2a6", &board).unwrap(),
        SeeScore(0),
        SeeScore(1),
    );
    assert!(see_score_bishop_capture >= SeeScore(1));

    let see_score_bad_capture = board.see(
        ChessMove::from_compact_text("f3f6", &board).unwrap(),
        SeeScore(-9999),
        SeeScore(9999),
    );
    assert_eq!(see_score_bad_capture, SeeScore(-600));

    let see_score_bad_pawn_capture = board.see(
        ChessMove::from_compact_text("f3h3", &board).unwrap(),
        SeeScore(-9999),
        SeeScore(9999),
    );
    assert_eq!(see_score_bad_pawn_capture, SeeScore(-300));

    let see_score_good_pawn_capture = board.see(
        ChessMove::from_compact_text("g2h3", &board).unwrap(),
        SeeScore(-9999),
        SeeScore(9999),
    );
    assert_eq!(see_score_good_pawn_capture, SeeScore(100));
}

#[test]
fn see_test() {
    let board = Chessboard::from_name("see_win_pawn").unwrap();
    let see_score = board.see(
        ChessMove::from_compact_text("f4e5", &board).unwrap(),
        SeeScore(-9999),
        SeeScore(9999),
    );
    assert_eq!(see_score, SeeScore(100));

    let see_score = board.see(
        ChessMove::from_compact_text("d3e5", &board).unwrap(),
        SeeScore(-120),
        SeeScore(101),
    );
    assert_eq!(see_score, SeeScore(100));

    let see_score = board.see(
        ChessMove::from_compact_text("c5d6", &board).unwrap(),
        SeeScore(-120),
        SeeScore(200),
    );
    assert_eq!(see_score, SeeScore(200));

    let see_score = board.see(
        ChessMove::from_compact_text("f4e5", &board).unwrap(),
        SeeScore(200),
        SeeScore(9999),
    );
    assert_eq!(see_score, SeeScore(200));

    let board = board.flip_side_to_move().unwrap();
    let see_score = board.see(
        ChessMove::from_compact_text("e5d4", &board).unwrap(),
        SeeScore(-999),
        SeeScore(9999),
    );
    assert_eq!(see_score, SeeScore(100));

    let see_score = board.see(
        ChessMove::from_compact_text("e5f4", &board).unwrap(),
        SeeScore(-1234),
        SeeScore(567_890),
    );
    assert_eq!(see_score, SeeScore(0));

    let see_score = board.see(
        ChessMove::from_compact_text("d7c5", &board).unwrap(),
        SeeScore(-9999),
        SeeScore(9999),
    );
    assert_eq!(see_score, SeeScore(-200));
}

#[test]
fn see_xray_test() {
    let board = Chessboard::from_name("see_xray").unwrap();
    let see_score = board.see(
        ChessMove::from_compact_text("c4f4", &board).unwrap(),
        SeeScore(-9999),
        SeeScore(9999),
    );
    assert_eq!(see_score, SeeScore(-600));
    let see_score = board.see(
        ChessMove::from_compact_text("b4b8", &board).unwrap(),
        SeeScore(-1234),
        SeeScore(1),
    );
    assert_eq!(see_score, SeeScore(-500));
}

#[test]
fn see_values_test() {
    assert_eq!(piece_see_value(ChessPieceType::Rook), SeeScore(500));
    assert_eq!(piece_see_value(ChessPieceType::Empty), SeeScore(0));
    let board = Chessboard::from_fen("4k3/1P6/8/8/8/8/8/4K3 w - - 0 1", gears::chessboard::Strictness::Strict).unwrap();
    let promo = ChessMove::from_compact_text("b7b8q", &board).unwrap();
    assert_eq!(move_see_value(promo, ChessPieceType::Empty), SeeScore(800));
    assert!(board.see_at_least(promo, SeeScore(800)));
    assert!(!board.see_at_least(promo, SeeScore(801)));
}
