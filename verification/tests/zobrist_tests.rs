use gears::chessboard::{Chessboard, Strictness};
use gears::moves::{ChessMove, ChessMoveFlags};
use gears::pieces::{ChessColor, ChessPieceType};
use gears::squares::{ChessSquare, D_FILE_NUM, E_FILE_NUM};
use gears::zobrist::{
    generate_keys, PcgXslRr128_64Oneseq, PrecomputedZobristKeys, CASTLE_KEYS, EP_FILE_KEYS, PIECE_SQUARE_KEYS,
    SIDE_TO_MOVE_KEY,
};
use std::collections::HashMap;

#[test]
fn pcg_test() {
    let gen = PcgXslRr128_64Oneseq::new(42);
    assert_eq!(gen.0 >> 64, 1_610_214_578_838_163_691);
    assert_eq!(gen.0 & ((1 << 64) - 1), 13_841_303_961_814_150_380);
    let (gen, rand) = gen.gen();
    assert_eq!(rand.0, 2_915_081_201_720_324_186);
    let (gen, rand) = gen.gen();
    assert_eq!(rand.0, 13_533_757_442_135_995_717);
    let (_gen, rand) = gen.gen();
    assert_eq!(rand.0, 13_172_715_927_431_628_928);
}

#[test]
fn zobrist_simple_test() {
    let keys = PrecomputedZobristKeys {};
    let a1 = keys
        .piece_key(ChessPieceType::Bishop, ChessColor::White, ChessSquare::from_chars('f', '4').unwrap())
        .0;
    let b1 = keys
        .piece_key(ChessPieceType::Bishop, ChessColor::White, ChessSquare::from_chars('g', '5').unwrap())
        .0;
    let a2 = keys
        .piece_key(ChessPieceType::Knight, ChessColor::Black, ChessSquare::from_chars('h', '5').unwrap())
        .0;
    let b2 = keys
        .piece_key(ChessPieceType::Knight, ChessColor::Black, ChessSquare::from_chars('g', '4').unwrap())
        .0;
    assert_ne!(a1 ^ a2, b1 ^ b2);
    let position = Chessboard::from_name("kiwipete").unwrap();
    let hash = position.hash;
    let mut hashes = HashMap::new();
    let mut collisions = HashMap::new();
    for mov in position.legal_moves_slow() {
        let new_board = position.make_move(mov).unwrap();
        assert_ne!(new_board.hash, hash);
        let previous = hashes.insert(new_board.hash.0, new_board);
        assert!(previous.is_none());
        let different_bits = (new_board.hash.0 ^ hash.0).count_ones();
        assert!((16..=48).contains(&different_bits));
        for mov in new_board.legal_moves_slow() {
            let new_board = new_board.make_move(mov).unwrap();
            let previous = hashes.insert(new_board.hash.0, new_board);
            if let Some(old_board) = previous {
                if old_board != new_board {
                    collisions.insert(new_board.hash.0, [old_board, new_board]);
                }
            }
            let different_bits = (new_board.hash.0 ^ hash.0).count_ones();
            assert!((12..52).contains(&different_bits));
        }
    }
    assert!(
        collisions.is_empty(),
        "num collisions: {0} out of {1}",
        collisions.len(),
        hashes.len()
    );
}

#[test]
fn ep_test() {
    let position = Chessboard::from_fen(
        "4r1k1/p4pp1/6bp/2p5/r2p4/P4PPP/1P2P3/2RRB1K1 w - - 1 15",
        Strictness::Strict,
    )
    .unwrap();
    assert_eq!(position.zobrist_hash(), position.compute_zobrist());
    let mov = ChessMove::new(
        ChessSquare::from_rank_file(1, E_FILE_NUM),
        ChessSquare::from_rank_file(3, E_FILE_NUM),
        ChessMoveFlags::NormalMove,
    );
    let new_pos = position.make_move(mov).unwrap();
    assert_eq!(new_pos.zobrist_hash(), new_pos.compute_zobrist());
    let ep_move = ChessMove::new(
        ChessSquare::from_rank_file(3, D_FILE_NUM),
        ChessSquare::from_rank_file(2, E_FILE_NUM),
        ChessMoveFlags::EnPassant,
    );
    let after_ep = new_pos.make_move(ep_move).unwrap();
    assert_eq!(after_ep.zobrist_hash(), after_ep.compute_zobrist());
}

#[test]
fn zobrist_after_move_test() {
    for pos in Chessboard::bench_positions() {
        for m in pos.pseudolegal_moves() {
            let Some(new_pos) = pos.make_move(m) else {
                continue;
            };
            assert!(new_pos.debug_verify_invariants(Strictness::Strict).is_ok(), "{m:?}");
            if !(m.is_double_pawn_push()
                || m.is_capture(&pos)
                || m.is_promotion()
                || pos.ep_square().is_some()
                || pos.castling != new_pos.castling)
            {
                assert_eq!(
                    Chessboard::approximate_zobrist_after_move(
                        pos.hash,
                        pos.active_player,
                        m.piece_type(&pos),
                        m.src_square(),
                        m.dest_square()
                    ),
                    new_pos.hash,
                    "{m:?}"
                );
            }
        }
    }
}

#[test]
fn key_tables_come_from_generator_test() {
    let keys = generate_keys(0x42, 768 + 16 + 8 + 1);
    assert_eq!(&keys[..768], &PIECE_SQUARE_KEYS[..]);
    assert_eq!(&keys[768..784], &CASTLE_KEYS[..]);
    assert_eq!(&keys[784..792], &EP_FILE_KEYS[..]);
    assert_eq!(keys[792], SIDE_TO_MOVE_KEY);
}
