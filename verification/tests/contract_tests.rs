use gears::ataxx::{AtaxxBoard, Move as AtaxxMove};
use gears::attacks::ChessSliderGenerator;
use gears::games::PosHash;
use gears::see::SeeScore;
use gears::chessboard::{ChessError, ChessSettings, Chessboard, Strictness, UnverifiedChessboard};
use gears::cli::{ends_output_options, is_option, select_game, Game, SelectError};
use gears::castling::{CastleRight, CastlingFlags};
use gears::fen::SelfChecks;
use gears::moves::{ChessMove, ChessMoveFlags};
use gears::notation::ExtendedFormat;
use gears::perft::perft;
use gears::tablebase::next_combination;
use gears::pieces::ChessColor;
use gears::squares::ChessSquare;
use gears::startpos::named_position_fen;
use gears::tablebase::{decode, encode};
use gears::upcoming_repetition::entry;
use rand::rngs::StdRng;
use rand::SeedableRng;

const KIWIPETE: &str = "r3k2r/p1ppqpb1/bn2pnp1/3PN3/1p2P3/2N2Q1p/PPPBBPPP/R3K2R w KQkq - 0 1";

fn all_moves() -> Vec<ChessMove> {
    let flags = [
        ChessMoveFlags::NormalMove,
        ChessMoveFlags::DoublePawnPush,
        ChessMoveFlags::CastleKingside,
        ChessMoveFlags::CastleQueenside,
        ChessMoveFlags::EnPassant,
        ChessMoveFlags::PromoKnight,
        ChessMoveFlags::PromoBishop,
        ChessMoveFlags::PromoRook,
        ChessMoveFlags::PromoQueen,
    ];
    let mut res = vec![];
    for from in 0..64 {
        for to in 0..64 {
            for f in flags {
                res.push(ChessMove::new(ChessSquare::from_bb_idx(from), ChessSquare::from_bb_idx(to), f));
            }
        }
    }
    res
}

#[test]
fn generated_moves_are_exactly_the_pseudolegal_ones() {
    for fen in [
        KIWIPETE,
        "rnbqkbnr/pppppppp/8/8/8/8/PPPPPPPP/RNBQKBNR w KQkq - 0 1",
        "8/2p5/3p4/KP5r/1R3p1k/8/4P1P1/8 w - - 0 1",
        "r3k2r/Pppp1ppp/1b3nbN/nP6/BBP1P3/q4N2/Pp1P2PP/R2Q1RK1 w kq - 0 1",
        "rnbq1k1r/pp1Pbppp/2p5/8/2B5/8/PPP1NnPP/RNBQK2R w KQ - 1 8",
    ] {
        let pos = Chessboard::from_fen(fen, Strictness::Relaxed).unwrap();
        let generated = pos.pseudolegal_moves();
        let tactical = pos.tactical_pseudolegal();
        let mut count = 0;
        for mov in all_moves() {
            let pseudo = pos.is_move_pseudolegal(mov);
            assert_eq!(pseudo, generated.contains(&mov), "{fen} {mov:?}");
            if pseudo {
                count += 1;
            }
            if tactical.contains(&mov) {
                assert!(pseudo);
            }
        }
        assert_eq!(count, generated.len());
    }
}

#[test]
fn startpos_move_counts() {
    let pos = Chessboard::default();
    assert_eq!(pos.pseudolegal_moves().len(), 20);
    assert_eq!(pos.tactical_pseudolegal().len(), 0);
    assert_eq!(pos.legal_moves_slow().len(), 20);
    let kiwipete = Chessboard::from_fen(KIWIPETE, Strictness::Strict).unwrap();
    assert_eq!(kiwipete.legal_moves_slow().len(), 48);
    assert_eq!(kiwipete.tactical_pseudolegal().len(), 8);
}

#[test]
fn legal_moves_are_the_accepted_pseudolegal_moves() {
    let pos = Chessboard::from_fen(KIWIPETE, Strictness::Strict).unwrap();
    let legal = pos.legal_moves_slow();
    for mov in pos.pseudolegal_moves() {
        assert_eq!(legal.contains(&mov), pos.make_move(mov).is_some());
        assert_eq!(legal.contains(&mov), pos.is_move_legal(mov));
        assert_eq!(legal.contains(&mov), pos.is_pseudolegal_move_legal(mov));
    }
}

#[test]
fn random_moves_are_legal() {
    let mut rng = StdRng::seed_from_u64(42);
    let pos = Chessboard::from_fen(KIWIPETE, Strictness::Strict).unwrap();
    for _ in 0..20 {
        let mov = pos.random_legal_move(&mut rng).unwrap();
        assert!(pos.is_move_legal(mov));
        let pseudo = pos.random_pseudolegal_move(&mut rng).unwrap();
        assert!(pos.is_move_pseudolegal(pseudo));
    }
    let mated = Chessboard::from_fen("R5k1/5ppp/8/8/8/8/8/6K1 b - - 0 1", Strictness::Strict).unwrap();
    assert!(mated.is_checkmate_slow());
    assert_eq!(mated.random_legal_move(&mut rng), None);
    assert!(mated.random_pseudolegal_move(&mut rng).is_some());
    let ataxx = AtaxxBoard::default();
    for _ in 0..20 {
        let mov = ataxx.random_legal_move(&mut rng).unwrap();
        assert!(ataxx.is_move_legal(mov));
        assert!(ataxx.random_pseudolegal_move(&mut rng).is_some());
    }
}

#[test]
fn gives_check_test() {
    let pos = Chessboard::from_fen("4k3/8/8/8/8/8/8/R3K3 w Q - 0 1", Strictness::Strict).unwrap();
    let a1 = ChessSquare::from_bb_idx(0);
    let a8 = ChessSquare::from_bb_idx(56);
    let e1 = ChessSquare::from_bb_idx(4);
    assert!(pos.gives_check(ChessMove::new(a1, a8, ChessMoveFlags::NormalMove)));
    assert!(!pos.gives_check(ChessMove::new(a1, ChessSquare::from_bb_idx(1), ChessMoveFlags::NormalMove)));
    // castling queenside puts the rook on d1, not giving check to e8
    assert!(!pos.gives_check(ChessMove::new(e1, a1, ChessMoveFlags::CastleQueenside)));
    // an illegal move gives no check
    assert!(!pos.gives_check(ChessMove::new(a8, a1, ChessMoveFlags::NormalMove)));
}

#[test]
fn make_move_updates_everything() {
    let pos = Chessboard::default();
    let e2 = ChessSquare::from_bb_idx(12);
    let e4 = ChessSquare::from_bb_idx(28);
    let after = pos.make_move(ChessMove::new(e2, e4, ChessMoveFlags::DoublePawnPush)).unwrap();
    assert_eq!(after.active_player, ChessColor::Black);
    assert_eq!(after.ply, 1);
    assert_eq!(after.ply_100_ctr, 0);
    // no black pawn can capture en passant, so no en passant square is set
    assert!(after.ep_square.is_none());
    assert_eq!(after.hash, after.compute_zobrist());
    let expected =
        Chessboard::from_fen("rnbqkbnr/pppppppp/8/8/4P3/8/PPPP1PPP/RNBQKBNR b KQkq - 0 1", Strictness::Strict)
            .unwrap();
    assert_eq!(after.piece_bbs, expected.piece_bbs);
    assert_eq!(after.color_bbs, expected.color_bbs);
    assert_eq!(after.hash, expected.hash);
}

#[test]
fn compute_zobrist_matches_fen_hash() {
    for fen in [KIWIPETE, "8/8/8/8/8/8/8/K6k w - - 0 1", "rnbqkbnr/ppp1p1pp/8/3pPp2/8/8/PPPP1PPP/RNBQKBNR w KQkq f6 0 3"] {
        let pos = Chessboard::from_fen(fen, Strictness::Relaxed).unwrap();
        assert_eq!(pos.compute_zobrist(), pos.hash);
    }
}

#[test]
fn verify_errors_test() {
    let check = |fen: &str, expected: ChessError| {
        let res = Chessboard::from_fen(fen, Strictness::Strict);
        assert_eq!(res.err(), Some(expected), "{fen}");
    };
    check("8/8/8/8/8/8/8/K7 w - - 0 1", ChessError::NotExactlyOneKing);
    check("P7/8/8/8/8/8/8/K6k w - - 0 1", ChessError::PawnOnBackrank);
    check("k7/8/8/8/8/8/8/R6K w - - 0 1", ChessError::InactivePlayerInCheck);
    check("k7/8/8/8/8/8/8/K7 w - - 100 60", ChessError::HalfmoveClockTooLarge);
    check("k7/8/8/8/8/8/8/K7 w - - 10 1", ChessError::HalfmoveClockLargerThanPly);
    let mut board = UnverifiedChessboard::empty();
    board.0.color_bbs[0] = 1;
    board.0.color_bbs[1] = 1;
    assert_eq!(board.verify_with_level(SelfChecks::Verify, Strictness::Relaxed).err(), Some(ChessError::OverlappingPieces));
}

#[test]
fn threats_test() {
    let pos = Chessboard::default();
    // black attacks its ranks 6 to 8 except the rook corners a8 and h8
    assert_eq!(pos.threats(), 0x7eff_ff00_0000_0000);
    assert_eq!(pos.calc_threats_of(ChessColor::White), 0x0000_0000_00ff_ff7e);
}

#[test]
fn single_pawn_moves_test() {
    let e2 = ChessSquare::from_bb_idx(12);
    let moves = Chessboard::single_pawn_moves(ChessColor::White, e2, !0, !0);
    assert_eq!(moves, (1 << 19) | (1 << 21) | (1 << 20) | (1 << 28));
    let blocked = Chessboard::single_pawn_moves(ChessColor::White, e2, 0, !(1u64 << 20));
    assert_eq!(blocked, 0);
}

#[test]
fn tablebase_roundtrip_test() {
    for k in 1..=4 {
        for n in [0usize, 1, 2, 17, 63, 100, 5000, 40000] {
            let bb = decode(n, k);
            if n < [0, 64, 2016, 41664, 635376][k] {
                assert_eq!(bb.count_ones() as usize, k);
                assert_eq!(encode(bb, k), n);
            }
        }
    }
    assert_eq!(decode(0, 3), 0b111);
}

#[test]
fn named_positions_test() {
    let name: Vec<char> = "kiwipete".chars().collect();
    assert_eq!(named_position_fen(&name), Some(KIWIPETE));
    let unknown: Vec<char> = "kiwi".chars().collect();
    assert_eq!(named_position_fen(&unknown), None);
}

#[test]
fn upcoming_repetition_entry_test() {
    assert_eq!(entry(0x1234_5678_9abc_def0), 0x9abc_def0);
}

#[test]
fn cli_option_test() {
    assert!(is_option("-o"));
    assert!(!is_option("o"));
    assert!(!is_option(""));
    assert!(ends_output_options("bench"));
    assert!(ends_output_options("--x"));
    assert!(!ends_output_options("benchmark"));
}

#[test]
fn ataxx_move_count_law_test() {
    for fen in [
        "x5o/7/7/7/7/7/o5x x 0 1",
        "x5o/7/2-1-2/7/2-1-2/7/o5x o 0 1",
        "7/7/7/7/ooooooo/ooooooo/xxxxxxx x 0 1",
        "7/7/7/7/-------/-------/x5o o 0 1",
    ] {
        let pos = AtaxxBoard::from_fen(fen, Strictness::Relaxed).unwrap();
        let moves = pos.legal_moves();
        assert_eq!(moves.len(), pos.num_moves(), "{fen}");
        for mov in &moves {
            assert!(pos.is_move_legal(*mov));
            let text = mov.to_compact_text();
            assert_eq!(AtaxxMove::from_text(&text, &pos).unwrap(), *mov);
        }
    }
}

#[test]
fn select_game_test() {
    assert_eq!(select_game("chess"), Ok(Game::Chess));
    assert_eq!(select_game("ATAXX"), Ok(Game::Ataxx));
    assert_eq!(select_game("go"), Err(SelectError::NoSuchGame));
}

#[test]
fn ray_attacks_single_attacker_test() {
    let pos = Chessboard::from_fen("r3k3/8/8/8/8/8/8/R3K3 w - - 0 1", Strictness::Relaxed).unwrap();
    let a4 = ChessSquare::from_bb_idx(24);
    let a2 = ChessSquare::from_bb_idx(8);
    let a5 = ChessSquare::from_bb_idx(32);
    let occ = pos.occupied_bb();
    assert_eq!(pos.ray_attacks(a4, a2, occ), 1);
    assert_eq!(pos.ray_attacks(a4, a5, occ), 1 << 56);
    assert_eq!(pos.ray_attacks(a4, ChessSquare::from_bb_idx(9), occ), 0);
}

#[test]
fn start_positions_test() {
    assert_eq!(AtaxxBoard::default(), AtaxxBoard::startpos());
    let start = AtaxxBoard::default();
    assert_eq!(start.blocked_bb() & !gears::ataxx::INVALID_EDGE_MASK, 0);
    let empty = AtaxxBoard::empty();
    assert_eq!(empty.empty_bb(), gears::ataxx::VALID_MASK);
    let benches = AtaxxBoard::bench_positions();
    assert_eq!(benches.len(), 50);
    for (b, fen) in benches.iter().zip(gears::ataxx::ATAXX_BENCH_FENS.iter()) {
        assert_eq!(&b.as_fen(), fen);
    }
    assert_eq!(Chessboard::bench_positions().len(), 60);
    let chess = Chessboard::startpos();
    assert_eq!(chess, Chessboard::default());
    assert_eq!(chess.hash, chess.compute_zobrist());
}

#[test]
fn castle_right_settings_test() {
    let mut flags = CastlingFlags::new();
    let mut settings = ChessSettings::default();
    assert!(flags.set_castle_right(ChessColor::White, CastleRight::Kingside, 7, &mut settings).is_ok());
    assert!(!settings.dfrc);
    assert!(flags.set_castle_right(ChessColor::White, CastleRight::Queenside, 1, &mut settings).is_ok());
    assert!(settings.dfrc);
    assert!(flags.set_castle_right(ChessColor::White, CastleRight::Queenside, 0, &mut settings).is_err());
}

#[test]
fn ep_square_checks_test() {
    // no black pawn can capture on e3: strict rejects, relaxed drops the square
    let fen = "4k3/8/8/8/4P3/8/8/4K3 b - e3 0 1";
    assert_eq!(Chessboard::from_fen(fen, Strictness::Strict).err(), Some(ChessError::InvalidEpSquare));
    let relaxed = Chessboard::from_fen(fen, Strictness::Relaxed).unwrap();
    assert!(relaxed.ep_square.is_none());
    // a capture is possible: the square is kept
    let kept = Chessboard::from_fen("4k3/8/8/8/3pP3/8/8/4K3 b - e3 0 1", Strictness::Strict).unwrap();
    assert_eq!(kept.ep_square, Some(ChessSquare::from_bb_idx(20)));
}

#[test]
fn extended_text_of_illegal_move_test() {
    let pos = Chessboard::from_fen("rnbqkbnr/pppppppp/8/8/8/8/PPPPPPPP/RNBQKBNR w KQkq - 0 1", Strictness::Strict).unwrap();
    // e2 (index 12) to e5 (index 36) is no legal move.
    let mov = ChessMove::new(ChessSquare::from_bb_idx(12), ChessSquare::from_bb_idx(36), ChessMoveFlags::NormalMove);
    assert_eq!(mov.to_extended_text(&pos, ExtendedFormat::Standard), "<Illegal move e2e5>");
}

#[test]
fn extended_text_disambiguation_test() {
    let pos = Chessboard::from_fen("8/8/8/8/8/8/8/N1N1K2k w - - 0 1", Strictness::Relaxed).unwrap();
    // a1 (0) to b3 (17), while the knight on c1 can reach b3 too.
    let mov = ChessMove::new(ChessSquare::from_bb_idx(0), ChessSquare::from_bb_idx(17), ChessMoveFlags::NormalMove);
    assert_eq!(mov.to_extended_text(&pos, ExtendedFormat::Standard), "Nab3");
    let alone = ChessMove::new(ChessSquare::from_bb_idx(0), ChessSquare::from_bb_idx(10), ChessMoveFlags::NormalMove);
    assert_eq!(alone.to_extended_text(&pos, ExtendedFormat::Standard), "Nc2");
}

#[test]
fn next_combination_grows_test() {
    assert_eq!(next_combination(0b0111), 0b1011);
    assert_eq!(next_combination(0b1011), 0b1101);
    assert!(next_combination(0b1100) > 0b1100);
}

#[test]
fn perft_without_legal_moves_test() {
    let pos = Chessboard::from_fen("7k/5Q2/6K1/8/8/8/8/8 b - - 0 1", Strictness::Relaxed).unwrap();
    assert_eq!(perft(3, pos).nodes, 0);
    assert_eq!(perft(1, pos).nodes, 0);
    assert_eq!(perft(0, pos).nodes, 1);
}

#[test]
fn approx_hash_of_quiet_move_test() {
    let pos = Chessboard::from_fen(KIWIPETE, Strictness::Strict).unwrap();
    for text in ["g1f3", "e1d1", "d5e6", "a2a3", "f3f5"] {
        if let Ok(mov) = ChessMove::from_compact_text(text, &pos) {
            if let Some(after) = pos.make_move(mov) {
                if after.castling == pos.castling && mov.flags() == ChessMoveFlags::NormalMove {
                    assert_eq!(pos.approx_hash_after(mov), after.hash);
                }
            }
        }
    }
    let start = Chessboard::from_fen("rnbqkbnr/pppppppp/8/8/8/8/PPPPPPPP/RNBQKBNR w KQkq - 0 1", Strictness::Strict).unwrap();
    let nf3 = ChessMove::from_compact_text("g1f3", &start).unwrap();
    assert_eq!(start.approx_hash_after(nf3), start.make_move(nf3).unwrap().hash);
}

#[test]
fn see_at_least_agrees_with_see_test() {
    let pos = Chessboard::from_fen(KIWIPETE, Strictness::Strict).unwrap();
    for mov in pos.legal_moves_slow() {
        let v = pos.see(mov, SeeScore(i32::MIN + 1), SeeScore(i32::MAX));
        for beta in [-1000, -300, -1, 0, 1, 100, 300, 1000] {
            assert_eq!(pos.see_at_least(mov, SeeScore(beta)), v.0 >= beta, "{mov:?} {beta}");
        }
    }
}

#[test]
fn debug_verify_detects_wrong_hash_test() {
    let mut pos = Chessboard::from_fen(KIWIPETE, Strictness::Strict).unwrap();
    assert_eq!(pos.debug_verify_invariants(Strictness::Strict), Ok(()));
    pos.hash = PosHash(pos.hash.0 ^ 1);
    assert_eq!(pos.debug_verify_invariants(Strictness::Strict), Err(ChessError::IncorrectHash));
}

#[test]
fn figurine_colors_test() {
    let pos = Chessboard::from_fen("rnbqkbnr/pppppppp/8/8/8/8/PPPPPPPP/RNBQKBNR w KQkq - 0 1", Strictness::Strict).unwrap();
    let nf3 = ChessMove::from_compact_text("g1f3", &pos).unwrap();
    assert_eq!(nf3.to_extended_text(&pos, ExtendedFormat::Alternative), "\u{2658}f3");
    let black = pos.make_move(nf3).unwrap();
    let nf6 = ChessMove::from_compact_text("g8f6", &black).unwrap();
    assert_eq!(nf6.to_extended_text(&black, ExtendedFormat::Alternative), "\u{265E}f6");
}

#[test]
fn all_attacking_other_occupancy_test() {
    let pos = Chessboard::from_fen("rnbqkbnr/pppppppp/8/8/8/8/PPPPPPPP/RNBQKBNR w KQkq - 0 1", Strictness::Strict).unwrap();
    let d4 = ChessSquare::from_bb_idx(27);
    assert_eq!(pos.all_attacking(d4, pos.slider_generator()), 0);
    assert_eq!(pos.all_attacking(d4, ChessSliderGenerator::new(0)), (1u64 << 3) | (1u64 << 59));
}

#[test]
fn ataxx_hash_input_test() {
    let pos = AtaxxBoard::default();
    let (x, o, active) = pos.hash_input();
    assert_eq!(x.count_ones(), 2);
    assert_eq!(o.count_ones(), 2);
    assert_eq!(x & o, 0);
    assert_eq!(active, pos.active_player);
    assert_eq!(pos.hash_impl(), pos.zobrist_hash());
}
