use gears::ataxx::{AtaxxBoard, Move as AtaxxMove, UnverifiedAtaxxBoard};
use gears::chessboard::{Chessboard, Strictness};
use gears::moves::ChessMove;
use gears::notation::ExtendedFormat;

const ATAXX_FENS: [&str; 5] = [
    "x5o/7/7/7/7/7/o5x x 0 1",
    "x5o/7/2-1-2/7/2-1-2/7/o5x o 0 1",
    "7/7/7/7/-------/-------/x5o o 3 7",
    "o5o/5o1/7/7/x6/1x5/6x o 1 2",
    "7/7/7/7/ooooooo/ooooooo/xxxxxxx x 0 1",
];

#[test]
fn generic_chess_test() {
    let positions = Chessboard::bench_positions();
    assert!(positions.len() > 40);
    for pos in positions {
        assert!(pos.debug_verify_invariants(Strictness::Relaxed).is_ok());
        assert_eq!(pos.compute_zobrist(), pos.hash);
        let fen = pos.as_fen();
        let parsed = Chessboard::from_fen(&fen, Strictness::Relaxed).unwrap();
        assert_eq!(parsed.as_fen(), fen);
        assert_eq!(parsed.hash, pos.hash);
        let legal = pos.legal_moves_slow();
        for mov in pos.pseudolegal_moves() {
            assert!(pos.is_move_pseudolegal(mov));
            assert_eq!(pos.is_move_legal(mov), legal.contains(&mov));
        }
        for mov in legal {
            let child = pos.make_move(mov).unwrap();
            assert!(child.debug_verify_invariants(Strictness::Relaxed).is_ok(), "{fen} {mov:?}");
            assert_eq!(child.hash, child.compute_zobrist());
            assert_eq!(child.active_player, pos.active_player.other());
            assert_eq!(child.ply, pos.ply + 1);
        }
    }
}

#[test]
fn generic_ataxx_test() {
    for fen in ATAXX_FENS {
        let pos = AtaxxBoard::from_fen(fen, Strictness::Relaxed).unwrap();
        assert_eq!(pos.as_fen(), fen);
        let moves = pos.legal_moves();
        assert_eq!(moves.len(), pos.num_moves());
        for mov in moves {
            assert!(pos.is_move_legal(mov));
            assert!(pos.is_move_pseudolegal(mov));
            let child = pos.make_move(mov).unwrap();
            assert_eq!(child.active_player, pos.active_player.other());
            assert!(UnverifiedAtaxxBoard(child).verify_with_level(false).is_ok());
            let reparsed = AtaxxBoard::from_fen(&child.as_fen(), Strictness::Relaxed).unwrap();
            assert_eq!(reparsed.as_fen(), child.as_fen());
            assert_eq!(AtaxxMove::from_text(&mov.to_compact_text(), &pos).unwrap(), mov);
        }
    }
}

#[test]
fn algebraic_notation_roundtrip_test() {
    for pos in Chessboard::bench_positions() {
        for mov in pos.legal_moves_slow() {
            for format in [ExtendedFormat::Standard, ExtendedFormat::Alternative] {
                let text = mov.to_extended_text(&pos, format);
                let parsed = ChessMove::from_text(&text, &pos).unwrap_or_else(|e| panic!("{text}: {e:?}"));
                assert_eq!(parsed, mov, "{} {text}", pos.as_fen());
            }
            let compact = mov.to_compact_text(&pos);
            assert_eq!(ChessMove::from_text(&compact, &pos).unwrap(), mov);
        }
    }
}
