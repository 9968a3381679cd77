use gears::chessboard::{Chessboard, Strictness};
use gears::moves::{ChessMove, ChessMoveFlags};
use gears::notation::ExtendedFormat;
use gears::squares::parse_square;
use gears::zobrist::PrecomputedZobristKeys;

#[test]
fn valid_algebraic_notation_test() {
    let transformations = [
        ("Na1", "Na1"),
        ("nxA7 mate", "Nxa7#"),
        ("RC1:", "Rxc1"),
        ("e2e4", "e4"),
        ("e8D", "e8=Q"),
        ("e5f6:e.p.", "exf6"),
        ("ef:e.p.", "exf6"),
        ("e:fep", "exf6"),
        ("b:", "axb5"),
        ("🨅e4", "e4"),
        ("♚f2", "Kf2"),
        ("♖b8+", "Rb8+"),
        ("Rb7d7", "Rd7"),
        ("gf8:🨂", "gxf8=R"),
        (":d8🨂 checkmate", "exd8=R#"),
        ("exf♘", "exf8=N"),
        ("gf:♝", "gxf8=B"),
        ("xf5", "gxf5"),
        ("Ra7", "Rxa7"),
        ("rB8", "Rb8+"),
        ("nA7+", "Nxa7#"),
        ("N3a5", "Nba5"),
        ("Kg1-h1", "Kh1"),
        ("Rd1-c1", "Rxc1"),
    ];
    let pos = Chessboard::from_name("unusual").unwrap();
    {
        let pos = pos.make_move_from_str("Rb8").unwrap();
        assert!(pos.checkers() != 0);
        assert!(!pos.legal_moves_slow().is_empty());
    }
    for (input, output) in transformations {
        let mov = ChessMove::from_extended_text(input, &pos).unwrap();
        let extended = mov.to_extended_text(&pos, ExtendedFormat::Standard);
        assert_eq!(extended, output, "{input}");
        assert_eq!(
            ChessMove::from_extended_text(
                &mov.to_extended_text(&pos, ExtendedFormat::Alternative),
                &pos
            )
            .unwrap(),
            mov
        );
    }
}

#[test]
fn failed_test() {
    let pos = Chessboard::from_fen("8/7r/8/K1k5/8/8/4p3/8 b - - 10 11", Strictness::Strict).unwrap();
    let mov = ChessMove::from_extended_text("e1=Q+", &pos).unwrap();
    assert!(pos.is_move_legal(mov));
}

#[test]
fn invalid_algebraic_notation_test() {
    let inputs = [
        "resign",
        "Robert'); DROP TABLE Students;--",
        "Raa",
        "R4",
        "Raaa4",
        "Qi1",
        "Ra8D",
        "f e.p.",
        "O-O-O-O",
        ":f8🨂",
        "Rb8#",
        "Rd2",
        "e3+",
        "a2aß",
    ];
    let pos = Chessboard::from_name("unusual").unwrap();
    for input in inputs {
        assert!(ChessMove::from_extended_text(input, &pos).is_err(), "{input}");
    }
}

#[test]
fn ep_pinned() {
    let input = "8/8/2k5/8/2pPp3/8/6B1/2RK4 b - d3 0 1";
    assert!(Chessboard::from_fen(input, Strictness::Strict).is_err());
    let pos = Chessboard::from_fen(input, Strictness::Relaxed).unwrap();
    assert_eq!(pos.ep_square(), None);
    for m in pos.pseudolegal_moves() {
        assert!(!m.is_ep());
    }
}

#[test]
fn invalid_moves_test() {
    let moves: [u16; 3] = [0, 60449, 28220];
    for mov in moves {
        let mov = ChessMove(mov);
        for pos in Chessboard::bench_positions() {
            if pos.is_move_pseudolegal(mov) {
                let _ = pos.make_move(mov);
                assert!(pos.pseudolegal_moves().contains(&mov), "{mov:?}");
            }
        }
    }
}

#[test]
fn compact_notation_test() {
    let pos = Chessboard::from_name("kiwipete").unwrap();
    let castle = ChessMove::from_compact_text("e1g1", &pos).unwrap();
    assert!(castle.is_castle());
    assert_eq!(castle.flags(), ChessMoveFlags::CastleKingside);
    assert_eq!(castle.dest_square(), parse_square("h1").unwrap());
    assert_eq!(ChessMove::from_compact_text("e1h1", &pos).unwrap(), castle);
    assert_eq!(castle.to_compact_text(&pos), "e1g1");
    assert!(ChessMove::from_compact_text("", &pos).is_err());
    assert!(ChessMove::from_compact_text("e1e3", &pos).is_err());
    let push = ChessMove::from_compact_text("a2a4", &pos).unwrap();
    assert!(push.is_double_pawn_push());
    assert_eq!(push.to_extended_text(&pos, ExtendedFormat::Standard), "a4");
    let _ = PrecomputedZobristKeys {};
}
