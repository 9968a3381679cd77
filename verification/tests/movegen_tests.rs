use gears::chessboard::{Chessboard, Strictness};
use gears::moves::{ChessMove, ChessMoveFlags};
use gears::squares::parse_square;
use std::collections::HashSet;

#[test]
fn simple_is_move_pseudolegal_test() {
    let pos = Chessboard::from_fen("3k4/1P6/8/8/7K/8/r7/2R5 w - - 0 1", Strictness::Strict).unwrap();
    let mov = ChessMove::new(
        parse_square("b7").unwrap(),
        parse_square("b8").unwrap(),
        ChessMoveFlags::NormalMove,
    );
    assert!(!pos.is_move_pseudolegal(mov));
}

#[test]
fn is_move_pseudolegal_test() {
    for p in Chessboard::bench_positions() {
        let moves: HashSet<u16> = p.pseudolegal_moves().iter().map(|m| m.0).collect();
        for n in 0..u16::MAX {
            let m = ChessMove(n);
            assert_eq!(moves.contains(&n), p.is_move_pseudolegal(m), "{n:0x} {m:?}");
        }
        let Some(p) = p.make_nullmove() else { continue };
        let moves: HashSet<u16> = p.pseudolegal_moves().iter().map(|m| m.0).collect();
        for n in 0..u16::MAX {
            let m = ChessMove(n);
            assert_eq!(moves.contains(&n), p.is_move_pseudolegal(m), "{n:0x} {m:?}");
        }
    }
}

#[test]
fn failed_proptest() {
    let pos = Chessboard::from_fen(
        "2kb1b2/pR2P1P1/P1N1P3/1p2Pp2/P5P1/1N6/4P2B/2qR2K1 w - f6 99 123",
        Strictness::Strict,
    )
    .unwrap();
    let mov = ChessMove::new(
        parse_square("e5").unwrap(),
        parse_square("f6").unwrap(),
        ChessMoveFlags::NormalMove,
    );
    assert!(!pos.is_move_pseudolegal(mov));
    assert!(!pos.pseudolegal_moves().contains(&mov));
    let mov = ChessMove::new(mov.src_square(), mov.dest_square(), ChessMoveFlags::EnPassant);
    assert!(pos.is_move_pseudolegal(mov));
    assert!(pos.pseudolegal_moves().contains(&mov));
}

#[test]
fn attack_test() {
    for pos in Chessboard::bench_positions() {
        for mov in pos.legal_moves_slow() {
            let child = pos.make_move(mov).unwrap();
            let mut threats = 0u64;
            for i in 0..64 {
                let sq = gears::squares::ChessSquare::from_bb_idx(i);
                let attacks = child.all_attacking(sq, child.slider_generator());
                if attacks & child.inactive_player_bb() != 0 {
                    threats |= sq.bb();
                }
            }
            assert_eq!(threats, child.threats());
        }
    }
}
