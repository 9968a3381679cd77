use gears::ataxx::{ataxx_perft, AtaxxBoard, AtaxxColor, Move, UnverifiedAtaxxBoard, INVALID_EDGE_MASK};
use gears::chessboard::Strictness;

#[test]
fn ataxx_startpos_test() {
    let pos = AtaxxBoard::default();
    assert!(UnverifiedAtaxxBoard(pos).verify_with_level(false).is_ok());
    assert_eq!(pos.color_bb(AtaxxColor::O).count_ones(), 2);
    assert_eq!(pos.color_bb(AtaxxColor::X).count_ones(), 2);
    assert_eq!(pos.blocked_bb() & !INVALID_EDGE_MASK, 0);
    let moves = pos.pseudolegal_moves();
    for mov in pos.pseudolegal_moves() {
        assert!(pos.is_move_legal(mov));
        let child = pos.make_move(mov).unwrap();
        assert_ne!(child, pos);
        assert_eq!(child.active_player.other(), pos.active_player);
        assert_ne!(child.zobrist_hash(), pos.zobrist_hash());
    }
    assert_eq!(moves.len(), 16);
}

#[test]
fn empty_pos_test() {
    let pos = AtaxxBoard::empty();
    assert!(UnverifiedAtaxxBoard(pos).verify_with_level(false).is_ok());
    assert_eq!(pos.color_bb(AtaxxColor::O), 0);
    assert_eq!(pos.color_bb(AtaxxColor::X), 0);
    assert!(pos.is_game_lost_slow());
    let moves = pos.legal_moves();
    assert!(moves.is_empty());
}

#[test]
fn ataxx_simple_test() {
    let fen = "7/7/7/o6/ooooooo/1oooooo/xxxxxxx x 1 2";
    let pos = AtaxxBoard::from_fen(fen, Strictness::Strict).unwrap();
    let moves = pos.legal_moves();
    assert_eq!(moves.len(), 2);
    let pos = AtaxxBoard::from_fen("7/7/7/o6/ooooooo/ooooooo/xxxxxxx x 1 2", Strictness::Strict).unwrap();
    let moves = pos.legal_moves();
    assert_eq!(moves.len(), 1);
}

#[test]
fn moves_test() {
    let pos = AtaxxBoard::from_fen("o5o/5o1/7/7/x6/1x5/6x O 1 2", Strictness::Relaxed).unwrap();
    assert!(Move::from_text("a7a6", &pos).is_err());
    assert!(Move::from_text("c7a6", &pos).is_err());
    assert!(Move::from_text("c7a5", &pos).is_err());
    assert!(Move::from_text("a7a4", &pos).is_err());
    assert!(Move::from_text("g1g2", &pos).is_err());
    let mov = Move::from_text("g2", &AtaxxBoard::default()).unwrap();
    assert!(!pos.is_move_legal(mov));
    let mov = Move::from_text("a7c5", &pos).unwrap();
    assert!(pos.legal_moves().contains(&mov));
    let pos = pos.make_move(mov).unwrap();
    assert!(Move::from_extended_text("a3c5", &pos).is_err());
    assert!(Move::from_text("a3b5", &pos).is_ok());
}

#[test]
fn fen_roundtrip_test() {
    for fen in ["x5o/7/7/7/7/7/o5x x 0 1", "7/7/7/7/-------/-------/x5o o 3 7", "x5o/7/2-1-2/7/2-1-2/7/o5x x 0 1"] {
        let pos = AtaxxBoard::from_fen(fen, Strictness::Strict).unwrap();
        assert_eq!(pos.as_fen(), fen);
    }
    assert_eq!(Move::from_text("a7c5", &AtaxxBoard::from_fen("o5o/5o1/7/7/x6/1x5/6x O 1 2", Strictness::Relaxed).unwrap()).unwrap().to_compact_text(), "a7c5");
}

fn test_perft(positions: &[(&str, &[u64])]) {
    for (fen, counts) in positions {
        let pos = AtaxxBoard::from_fen(fen, Strictness::Strict).unwrap();
        for (depth, &count) in counts.iter().enumerate() {
            let res = ataxx_perft(depth, pos);
            assert_eq!(res.nodes, count, "{fen} {depth}");
        }
    }
}

const PERFT4_POSITIONS: &[(&str, &[u64])] = &[
    ("7/7/7/7/7/7/7 x 0 1", &[1, 0, 0, 0, 0]),
    ("7/7/7/7/7/7/7 o 0 1", &[1, 0, 0, 0, 0]),
    ("7/7/7/7/ooooooo/ooooooo/xxxxxxx o 0 1", &[1, 75, 249, 14270, 452_980]),
    ("7/7/7/7/xxxxxxx/xxxxxxx/ooooooo x 0 1", &[1, 75, 249, 14270, 452_980]),
];

const PERFT5_POSITIONS: &[(&str, &[u64])] = &[
    ("x5o/7/7/7/7/7/o5x x 0 1", &[1, 16, 256, 6460, 155_888, 4_752_668]),
    ("x5o/7/2-1-2/7/2-1-2/7/o5x x 0 1", &[1, 14, 196, 4184, 86528, 2_266_352]),
    ("x5o/7/2-1-2/3-3/2-1-2/7/o5x x 0 1", &[1, 14, 196, 4100, 83104, 2_114_588]),
    ("x5o/7/3-3/2-1-2/3-3/7/o5x x 0 1", &[1, 16, 256, 5948, 133_264, 3_639_856]),
    ("7/7/7/7/ooooooo/ooooooo/xxxxxxx x 0 1", &[1, 1, 75, 249, 14270, 452_980]),
    ("7/7/7/2x1o2/7/7/7 x 0 1", &[1, 23, 419, 7887, 168_317, 4_266_992]),
    ("7/7/7/7/xxxxxxx/xxxxxxx/ooooooo x 0 1", &[1, 75, 249, 14_270, 452_980]),
];

const PERFT6_POSITIONS: &[(&str, &[u64])] = &[
    ("7/7/7/7/-------/-------/x5o x 0 1", &[1, 2, 4, 13, 30, 73, 174]),
    ("o5x/7/2-1-2/7/2-1-2/7/x5o o 0 1", &[1, 14, 196, 4_184, 86_528, 2_266_352]),
    ("o5x/7/2-1-2/3-3/2-1-2/7/x5o x 0 1", &[1, 14, 196, 4_100, 83_104, 2_114_588]),
    ("o5x/7/3-3/2-1-2/3-3/7/x5o x 0 1", &[1, 16, 256, 5_948, 133_264, 3_639_856]),
    ("o5x/7/7/7/7/7/x5o o 0 1", &[1, 16, 256, 6_460, 155_888, 4_752_668]),
    ("7/7/7/2o1x2/7/7/7 o 0 1", &[1, 23, 419, 7_887, 168_317, 4_266_992]),
];

const PERFT7_POSITIONS: &[(&str, &[u64])] = &[
    ("7/7/7/7/-------/-------/o5x o 0 1", &[1, 2, 4, 13, 30, 73, 174]),
    ("7/7/7/7/-------/-------/o5x x 0 1", &[1, 2, 4, 13, 30, 73, 174]),
];

#[test]
fn perft4() {
    test_perft(PERFT4_POSITIONS);
}

#[test]
fn perft5() {
    test_perft(PERFT5_POSITIONS);
}

#[test]
fn perft6() {
    test_perft(PERFT6_POSITIONS);
}

#[test]
fn perft7() {
    test_perft(PERFT7_POSITIONS);
}
