use gears::castling::CastleRight;
use gears::chessboard::{Chessboard, Strictness, UnverifiedChessboard};
use gears::games::{n_fold_repetition, BoardHistory, NoHistory, PlayerResult, ZobristHistory};
use gears::moves::ChessMove;
use gears::notation::ExtendedFormat;
use gears::perft::perft;
use gears::pieces::{ChessColor, ChessPieceType};
use gears::squares::{parse_square, ChessSquare, E_FILE_NUM, F_FILE_NUM, G_FILE_NUM};
use std::collections::HashSet;
use std::time::Instant;
use rand::rngs::StdRng;
use rand::SeedableRng;

const START_FEN: &str = "rnbqkbnr/pppppppp/8/8/8/8/PPPPPPPP/RNBQKBNR w KQkq - 0 1";

fn sorted(mut v: Vec<gears::moves::ChessMove>) -> Vec<u16> {
    let mut r: Vec<u16> = v.drain(..).map(|m| m.0).collect();
    r.sort();
    r
}

#[test]
fn chess_startpos_test() {
    let board = Chessboard::default();
    assert_eq!(board.num_squares(), 64);
    assert_eq!(board.width(), 8);
    assert_eq!(board.height(), 8);
    assert_eq!(board.halfmove_ctr_since_start(), 0);
    assert_eq!(board.fullmove_ctr_1_based(), 1);
    assert_eq!(board.ply, 0);
    assert_eq!(board.ply_100_ctr, 0);
    assert!(board.ep_square.is_none());
    assert_eq!(board.active_player(), ChessColor::White);
    for color in [ChessColor::White, ChessColor::Black] {
        for side in [CastleRight::Queenside, CastleRight::Kingside] {
            assert!(board.castling.can_castle(color, side));
        }
    }
    assert!(!board.is_in_check());
    assert_eq!(board.colored_bb(ChessColor::White), 0xffff);
    assert_eq!(board.colored_bb(ChessColor::Black), 0xffff_0000_0000_0000);
    assert_eq!(board.occupied_bb(), 0xffff_0000_0000_ffff);
    assert_eq!(board.king_square(ChessColor::White), ChessSquare::from_rank_file(0, E_FILE_NUM));
    assert_eq!(board.king_square(ChessColor::Black), ChessSquare::from_rank_file(7, E_FILE_NUM));
    let square = ChessSquare::from_rank_file(4, F_FILE_NUM);
    assert_eq!(board.colored_piece_on(square), gears::pieces::ColoredChessPieceType::Empty);
    assert_eq!(board.as_fen(), START_FEN);
    let moves = board.pseudolegal_moves();
    assert_eq!(moves.len(), 20);
    let legal_moves = board.legal_moves_slow();
    assert_eq!(legal_moves.len(), moves.len());
    assert_eq!(sorted(legal_moves), sorted(moves));
}

#[test]
fn chess_simple_perft_test() {
    let endgame_fen = "6k1/8/6K1/8/3B1N2/8/8/7R w - - 0 1";
    let board = Chessboard::from_fen(endgame_fen, Strictness::Relaxed).unwrap();
    let start = Instant::now();
    let perft_res = perft(1, board);
    let time = start.elapsed();
    assert_eq!(perft_res.depth, 1);
    assert_eq!(perft_res.nodes, 5 + 7 + 13 + 14);
    assert!(time.as_millis() <= 1);
    let board = Chessboard::default();
    let start = Instant::now();
    let perft_res = perft(1, board);
    let time = start.elapsed();
    assert_eq!(perft_res.depth, 1);
    assert_eq!(perft_res.nodes, 20);
    assert!(time.as_millis() <= 2);
    let start = Instant::now();
    let perft_res = perft(2, board);
    let time = start.elapsed();
    assert_eq!(perft_res.depth, 2);
    assert_eq!(perft_res.nodes, 20 * 20);
    assert!(time.as_millis() <= 20);

    let board = Chessboard::from_fen(
        "r1bqkbnr/1pppNppp/p1n5/8/8/8/PPPPPPPP/R1BQKBNR b KQkq - 0 3",
        Strictness::Strict,
    )
    .unwrap();
    let perft_res = perft(1, board);
    assert_eq!(perft_res.nodes, 26);
    assert_eq!(perft(3, board).nodes, 16790);

    let board = Chessboard::from_fen(
        "rbbqn1kr/pp2p1pp/6n1/2pp1p2/2P4P/P7/BP1PPPP1/R1BQNNKR w HAha - 0 9",
        Strictness::Strict,
    )
    .unwrap();
    let perft_res = perft(4, board);
    assert_eq!(perft_res.nodes, 890_435);

    let board = Chessboard::from_fen(
        "r1q1k1rn/1p1ppp1p/1npb2b1/p1N3p1/8/1BP4P/PP1PPPP1/1RQ1KRBN w BFag - 0 9",
        Strictness::Strict,
    )
    .unwrap();
    assert_eq!(perft(4, board).nodes, 1_187_103);
}

#[test]
fn empty_test() {
    let board = UnverifiedChessboard::empty();
    assert_eq!(board.0.num_squares(), 64);
    assert_eq!(board.0.width(), 8);
    assert_eq!(board.0.height(), 8);
    assert_eq!(board.0.halfmove_ctr_since_start(), 0);
    assert_eq!(board.0.fullmove_ctr_0_based(), 0);
    assert!(board.verify(Strictness::Relaxed).is_err());
}

#[test]
fn invalid_fen_test() {
    let fens = &[
        "",
        "3Ss9999999999999999999999999999999",
        "½",
        "QQQQQQQQ\u{0B}\u{0B}w\u{0B}`",
        "q0018446744073709551615",
        "QQQQKQQQ\nw\u{0B}V0\u{00} \n",
        "kQQQQQDD\u{0B}w\u{0B}-\u{0B}W0\u{0B}w",
        "2rr2k1/1p4bp/p1q1pqp1/4Pp1n/2PB4/1PN3P1/P3Q2P/2Rr2K1 w - f6 0 20",
        "QQQQQQBk/Q6B/Q6Q/Q6Q/Q6Q/Q6Q/Q6Q/KQQQQQQQ w - - 0 1",
    ];
    for fen in fens {
        let pos = Chessboard::from_fen(fen, Strictness::Relaxed);
        assert!(pos.is_err(), "{fen}");
    }
}

#[test]
fn simple_fen_test() {
    let fen = "rnbqkbnr/pppppppp/8/8/8/8/PPPPPPPP/RNBQKBNR w Qk - 0 1";
    let board = Chessboard::from_fen(fen, Strictness::Strict).unwrap();
    assert!(!board.castling.can_castle(ChessColor::White, CastleRight::Kingside));
    assert!(board.castling.can_castle(ChessColor::White, CastleRight::Queenside));
    assert!(board.castling.can_castle(ChessColor::Black, CastleRight::Kingside));
    assert!(!board.castling.can_castle(ChessColor::Black, CastleRight::Queenside));
    let converted = Chessboard::from_fen(
        "rnbqkbnr/pppppppp/8/8/8/8/PPPPPPPP/RNBQKBNR w HhAa - 0 1",
        Strictness::Strict,
    )
    .unwrap()
    .as_fen();
    let fens = [
        "8/8/8/3K4/8/8/5k2/8 w - - 0 1",
        "K7/R7/R7/R7/R7/R7/P7/k7 w - - 0 1",
        "QQKBnknn/8/8/8/8/8/8/8 w - - 0 1",
        "b5k1/b3Q3/3Q1Q2/5Q2/K1bQ1Qb1/2bbbbb1/6Q1/3QQ2b b - - 0 1",
        "rnbq1bn1/pppppp1p/8/K7/5k2/8/PPPP1PPP/RNBQ1BNR w - - 0 1",
        &converted,
        "rnbqkbnr/1ppppppp/p7/8/8/8/PPPPPPP1/RNBQKBN1 w Ah - 0 1",
        "rnbqkbnr/1ppppppp/p7/8/3pP3/8/PPPP1PP1/RNBQKBN1 b Ah e3 3 1",
        "1rqbkrbn/1ppppp1p/1n6/p1N3p1/8/2P4P/PP1PPPP1/1RQBKRBN w FBfb - 0 9",
        "rbbqn1kr/pp2p1pp/6n1/2pp1p2/2P4P/P7/BP1PPPP1/R1BQNNKR w HAha - 1 42",
        "rqbbknr1/1ppp2pp/p5n1/4pp2/P7/1PP5/1Q1PPPPP/R1BBKNRN w GAga - 42 9",
    ];
    for fen in fens {
        let board = Chessboard::from_fen(fen, Strictness::Relaxed).unwrap();
        assert_eq!(fen, board.as_fen());
        assert_eq!(
            board,
            Chessboard::from_fen(&board.as_fen(), Strictness::Relaxed).unwrap()
        );
    }
}

#[test]
fn invalid_castle_right_test() {
    let fen = "rnbqkbnr/pppppppp/8/8/8/8/PPPPPPPP/RNBQKBNR w AQk - 0 1";
    let board = Chessboard::from_fen(fen, Strictness::Relaxed);
    assert!(board.is_err());
}

#[test]
fn failed_fuzz_test() {
    let pos = Chessboard::from_fen(
        "r2k3r/ppp1pp1p/2nqb1Nn/3P4/4P3/2PP4/PR1NBPPP/R2NKRQ1 w KQkq - 1 5",
        Strictness::Relaxed,
    )
    .unwrap();
    pos.debug_verify_invariants(Strictness::Relaxed).unwrap();
    for mov in pos.legal_moves_slow() {
        let new_pos = pos.make_move(mov).unwrap_or(pos);
        new_pos.debug_verify_invariants(Strictness::Relaxed).unwrap();
    }
    let mov = ChessMove::from_text("sB3x", &pos);
    assert!(mov.is_err());
}

#[test]
fn mate_test() {
    let board = Chessboard::from_fen("4k3/8/4K3/8/8/8/8/6R1 w - - 0 1", Strictness::Strict).unwrap();
    let moves = board.pseudolegal_moves();
    for mov in moves {
        if mov.src_square() == board.king_square(ChessColor::White) {
            assert_eq!(
                board.is_pseudolegal_move_legal(mov),
                mov.dest_square().rank() != 6
            );
        } else {
            assert!(board.is_pseudolegal_move_legal(mov));
        }
        if !board.is_pseudolegal_move_legal(mov) {
            continue;
        }
        let checkmates = mov.piece_type(&board) == ChessPieceType::Rook
            && mov.dest_square() == ChessSquare::from_rank_file(7, G_FILE_NUM);
        assert_eq!(board.is_game_won_after_slow(mov), checkmates);
        let new_board = board.make_move(mov).unwrap();
        assert_eq!(new_board.is_game_lost_slow(), checkmates);
        assert!(!board.is_game_lost_slow());
    }
}

#[test]
fn capture_only_test() {
    let board = Chessboard::default();
    assert!(board.tactical_pseudolegal().is_empty());
    let board = Chessboard::from_name("kiwipete").unwrap();
    assert_eq!(board.tactical_pseudolegal().len(), 8);
}

#[test]
fn repetition_test() {
    let mut board = Chessboard::default();
    let new_hash = board.make_nullmove().unwrap().zobrist_hash();
    let moves = [
        "g1f3", "g8f6", "f3g1", "f6g8", "g1f3", "g8f6", "f3g1", "f6g8", "e2e4",
    ];
    let mut hist = ZobristHistory::default();
    assert_ne!(new_hash, board.zobrist_hash());
    for (i, mov) in moves.iter().enumerate() {
        assert_eq!(
            i > 3,
            n_fold_repetition(2, &hist, board.zobrist_hash(), board.ply_100_ctr)
        );
        assert_eq!(
            i > 7,
            n_fold_repetition(3, &hist, board.zobrist_hash(), board.ply_100_ctr)
        );
        assert_eq!(
            i == 8,
            board
                .player_result_no_movegen(&hist)
                .is_some_and(|r| r == PlayerResult::Draw)
        );
        hist.push(board.zobrist_hash());
        let mov = ChessMove::from_compact_text(mov, &board).unwrap();
        board = board.make_move(mov).unwrap();
        assert_eq!(
            n_fold_repetition(3, &hist, board.zobrist_hash(), board.ply_100_ctr),
            board.is_3fold_repetition(&hist)
        );
        assert_eq!(
            board.is_3fold_repetition(&hist),
            board.player_result_no_movegen(&hist).is_some()
        );
    }
    board = Chessboard::from_name("lucena").unwrap();
    assert_eq!(board.active_player, ChessColor::White);
    let hash = board.zobrist_hash();
    let moves = ["c1b1", "a2c2", "b1e1", "c2a2", "e1c1"];
    for mov in moves {
        board = board
            .make_move(ChessMove::from_compact_text(mov, &board).unwrap())
            .unwrap();
        assert_ne!(board.zobrist_hash(), hash);
        assert!(!n_fold_repetition(2, &hist, board.zobrist_hash(), 12345));
    }
    assert_eq!(board.active_player, ChessColor::Black);
}

#[test]
fn checkmate_test() {
    let fen = "rnb1kbnr/pppp1ppp/8/4p3/6Pq/5P2/PPPPP2P/RNBQKBNR w KQkq - 1 3";
    let pos = Chessboard::from_fen(fen, Strictness::Strict).unwrap();
    assert_eq!(pos.active_player, ChessColor::White);
    assert_eq!(pos.ply, 4);
    assert!(pos.debug_verify_invariants(Strictness::Strict).is_ok());
    assert!(pos.is_in_check());
    assert!(pos.is_in_check_on_square(ChessColor::White, pos.king_square(ChessColor::White)));
    let moves = pos.pseudolegal_moves();
    assert!(!moves.is_empty());
    let moves = pos.legal_moves_slow();
    assert!(moves.is_empty());
    assert!(pos.is_game_lost_slow());
    assert_eq!(pos.player_result_slow(&NoHistory::default()), Some(PlayerResult::Lose));
    assert!(!pos.is_stalemate_slow());
    assert!(pos.make_nullmove().is_none());
    let pos = Chessboard::from_fen("k7/p1P5/1PK5/8/8/8/8/8 w - - 99 51", Strictness::Strict).unwrap();
    assert!(pos.player_result_slow(&NoHistory::default()).is_none());
    let mut draws = 0;
    let mut wins = 0;
    for mov in pos.legal_moves_slow() {
        let new_pos = pos.make_move(mov).unwrap();
        if let Some(res) = new_pos.player_result_slow(&NoHistory::default()) {
            match res {
                PlayerResult::Win => {
                    unreachable!("The other player can't win through one of our moves")
                }
                PlayerResult::Lose => {
                    wins += 1;
                }
                PlayerResult::Draw => draws += 1,
            }
        }
    }
    assert_eq!(draws, 5);
    assert_eq!(wins, 3);
}

#[test]
fn chess960_startpos_test() {
    let mut fens = HashSet::new();
    let mut startpos_found = false;
    for i in 0..960 {
        let board = Chessboard::chess_960_startpos(i).unwrap();
        assert!(board.debug_verify_invariants(Strictness::Strict).is_ok());
        assert!(fens.insert(board.as_fen()));
        let num_moves = board.pseudolegal_moves().len();
        assert!((18..=21).contains(&num_moves));
        assert_eq!(board.castling.allowed_castling_directions(), 0b1111);
        assert_eq!(
            board.king_square(ChessColor::White).flip_up_down(),
            board.king_square(ChessColor::Black)
        );
        assert_eq!(board.piece_bb(ChessPieceType::Pawn).count_ones(), 16);
        assert_eq!(board.piece_bb(ChessPieceType::Knight).count_ones(), 4);
        assert_eq!(board.piece_bb(ChessPieceType::Bishop).count_ones(), 4);
        assert_eq!(board.piece_bb(ChessPieceType::Rook).count_ones(), 4);
        assert_eq!(board.piece_bb(ChessPieceType::Queen).count_ones(), 2);
        startpos_found |= board == Chessboard::default();
    }
    assert!(startpos_found);
}

#[test]
fn castling_attack_test() {
    let fen = "8/8/8/8/8/8/3k4/RK6 b A - 0 1";
    let pos = Chessboard::from_fen(fen, Strictness::Strict).unwrap();
    let moves = pos.legal_moves_slow();
    assert!(pos.castling.can_castle(ChessColor::White, CastleRight::Queenside));
    assert_eq!(moves.len(), 6);
    let attacking = pos.all_attacking(parse_square("d1").unwrap(), pos.slider_generator());
    assert_eq!(attacking.count_ones(), 1);
    let fen = "8/8/8/3k4/8/8/8/1KRn4 w C - 0 1";
    let pos = Chessboard::from_fen(fen, Strictness::Strict).unwrap();
    assert!(pos.castling.can_castle(ChessColor::White, CastleRight::Kingside));
    assert!(ChessMove::from_extended_text("0-0", &pos).is_err());
}

#[test]
fn insufficient_material_test() {
    let insufficient = [
        "8/4k3/8/8/8/8/8/2K5 w - - 0 1",
        "8/4k3/8/8/8/8/5N2/2K5 w - - 0 1",
        "8/8/8/6k1/8/2K5/5b2/6b1 w - - 0 1",
        "8/8/3B4/7k/8/8/1K6/6b1 w - - 0 1",
        "8/6B1/8/6k1/8/2K5/8/6b1 w - - 0 1",
        "3b3B/2B5/1B1B4/B7/3b4/4b2k/5b2/1K6 w - - 0 1",
        "3B3B/2B5/1B1B4/B6k/3B4/4B3/1K3B2/2B5 w - - 0 1",
    ];
    let sufficient = [
        "rnbqkbnr/pppppppp/8/8/8/8/PPPPPPPP/RNBQKBNR w KQkq - 0 1",
        "8/8/4k3/8/8/1K6/8/7R w - - 0 1",
        "5r2/3R4/4k3/8/8/1K6/8/8 w - - 0 1",
        "8/8/4k3/8/8/1K6/8/6BB w - - 0 1",
        "8/8/4B3/8/8/7K/8/6bk w - - 0 1",
        "3B3B/2B5/1B1B4/B6k/3B4/4B3/1K3B2/1B6 w - - 0 1",
        "8/3k4/8/8/8/8/NNN5/1K6 w - - 0 1",
    ];
    let sufficient_but_unreasonable = [
        "6B1/8/8/6k1/8/2K5/8/6b1 w - - 0 1",
        "8/8/4B3/8/8/7K/8/6bk b - - 0 1",
        "8/8/4B3/7k/8/8/1K6/6b1 w - - 0 1",
        "8/3k4/8/8/8/8/1NN5/1K6 w - - 0 1",
        "8/2nk4/8/8/8/8/1NN5/1K6 w - - 0 1",
    ];
    for fen in insufficient {
        let board = Chessboard::from_fen(fen, Strictness::Strict).unwrap();
        assert!(board.has_insufficient_material(), "{fen}");
        assert!(!board.can_reasonably_win(board.active_player), "{fen}");
        assert!(!board.can_reasonably_win(board.active_player.other()), "{fen}");
    }
    for fen in sufficient {
        let board = Chessboard::from_fen(fen, Strictness::Strict).unwrap();
        assert!(!board.has_insufficient_material(), "{fen}");
        assert!(board.can_reasonably_win(board.active_player), "{fen}");
    }
    for fen in sufficient_but_unreasonable {
        let board = Chessboard::from_fen(fen, Strictness::Strict).unwrap();
        assert!(!board.has_insufficient_material(), "{fen}");
        assert!(!board.can_reasonably_win(board.active_player), "{fen}");
    }
}

#[test]
fn castle_test() {
    let p = Chessboard::chess_960_startpos(42).unwrap();
    let p = UnverifiedChessboard(p)
        .remove_piece(ChessSquare::from_chars('f', '1').unwrap())
        .verify(Strictness::Strict)
        .unwrap();
    assert!(p.settings.shredder_fen);
    assert!(p.debug_verify_invariants(Strictness::Strict).is_ok());
    let p2 = Chessboard::from_fen("bb1r2kr/p1ppppp1/1n2qn2/8/8/8/PPPPPPP1/BB1RQNKR b KQkq - 0 1", Strictness::Relaxed).unwrap();
    let tests: &[(Chessboard, &[&str], u64)] = &[
        (Chessboard::from_name("kiwipete").unwrap(), &["0-0", "0-0-0", "e1g1", "e1h1", "e1a1", "e1c1"], 97862),
        (p, &["0-0", "g1h1"], 8953),
        (p2, &["0-0", "0-0-0", "g8h8", "g8c8", "g8d8"], 57107),
    ];
    for (i, (pos, moves, perft_nodes)) in tests.iter().enumerate() {
        for mov in *moves {
            let mov = ChessMove::from_text(mov, pos).unwrap();
            assert!(mov.is_castle());
            assert!(!mov.is_capture(pos));
            let _ = pos.make_move(mov).unwrap().debug_verify_invariants(Strictness::Strict).unwrap();
            assert_eq!(pos.piece_type_on(mov.dest_square()), ChessPieceType::Rook);
            assert_eq!(i != 0, pos.settings.dfrc);
            assert_eq!(*pos == p, pos.settings.shredder_fen);
        }
        let perft_res = perft(3, *pos);
        assert_eq!(perft_res.nodes, *perft_nodes);
    }
    let pos = Chessboard::from_fen("5k2/8/8/8/8/8/8/4K2R w K - 0 1", Strictness::Strict).unwrap();
    let mov = ChessMove::from_text("0-0", &pos).unwrap();
    assert_eq!(mov.to_extended_text(&pos, ExtendedFormat::Standard), "O-O+");
    let castling = |pos: Chessboard| {
        let mut res: Vec<String> = pos
            .legal_moves_slow()
            .iter()
            .filter_map(|m| if m.is_castle() { Some(m.to_compact_text(&pos)) } else { None })
            .collect();
        res.sort();
        res
    };
    let pos = Chessboard::from_name("kiwipete").unwrap();
    assert!(!pos.settings.dfrc);
    let moves = castling(pos);
    assert_eq!(moves.len(), 2);
    assert_eq!(moves[0], "e1c1");
    assert_eq!(moves[1], "e1g1");
    // same as kiwipete, but in  shredder FEN notation
    let pos = Chessboard::from_fen("r3k2r/p1ppqpb1/bn2pnp1/3PN3/1p2P3/2N2Q1p/PPPBBPPP/R3K2R w HAha - 0 1", Strictness::Strict)
        .unwrap();
    assert!(!pos.settings.dfrc);
    assert!(pos.settings.shredder_fen);
    let moves = castling(pos);
    assert_eq!(moves.len(), 2);
    assert_eq!(moves[0], "e1c1");
    assert_eq!(moves[1], "e1g1");
    // same as kiwipete, but the king is moved one file to the right
    let fen = "r3k2r/p1ppqpb1/bn2pnp1/3PN3/1p2P3/2N2Q1p/PPPBBPPP/R4K1R w KQkq - 1 2";
    assert!(Chessboard::from_fen(fen, Strictness::Strict).is_err());
    let pos = Chessboard::from_fen(fen, Strictness::Relaxed).unwrap();
    assert!(pos.settings.dfrc);
    assert!(!pos.settings.shredder_fen);
    let moves = castling(pos);
    assert_eq!(moves.len(), 2);
    assert_eq!(moves[0], "f1a1");
    assert_eq!(moves[1], "f1h1");
    let fen = "8/4k3/8/8/8/8/8/RK1b4 w A - 0 1";
    let mut pos = Chessboard::from_fen(fen, Strictness::Strict).unwrap();
    assert!(pos.castling.can_castle(ChessColor::White, CastleRight::Queenside));
    assert!(pos.make_move_from_str("0-0-0").is_err());
    pos = pos.make_nullmove().unwrap();
    pos = pos.make_move_from_str("Be2").unwrap();
    assert!(pos.make_move_from_str("0-0-0").is_ok());
}

#[test]
fn weird_position_test() {
    let fen = "q2k2q1/2nqn2b/1n1P1n1b/2rnr2Q/1NQ1QN1Q/3Q3B/2RQR2B/Q2K2Q1 w - - 0 1";
    let board = Chessboard::from_fen(fen, Strictness::Strict).unwrap();
    assert_eq!(board.active_player, ChessColor::White);
    assert_eq!(perft(3, board).nodes, 568_299);
    let fen = "RRRRRRRR/RRRRRRRR/BBBBBBBB/BBBBBBBB/QQQQQQQQ/QQQQQQQQ/QPPPPPPP/K6k b - - 0 1";
    assert!(Chessboard::from_fen(fen, Strictness::Strict).is_err());
    let board = Chessboard::from_fen(fen, Strictness::Relaxed).unwrap();
    assert_eq!(board.pseudolegal_moves().len(), 3);
    let mut rng = StdRng::seed_from_u64(42);
    let mov = board.random_legal_move(&mut rng).unwrap();
    let board = board.make_move(mov).unwrap();
    assert_eq!(board.pseudolegal_moves().len(), 2);
    let fen = "B4Q1b/8/8/8/2K3P1/5k2/8/b4RNB b - - 0 1";
    assert!(Chessboard::from_fen(fen, Strictness::Strict).is_err());
    let board = Chessboard::from_fen(fen, Strictness::Relaxed).unwrap();
    assert_eq!(board.pseudolegal_moves().len(), 8 + 2 * 6);
    assert_eq!(board.legal_moves_slow().len(), 3);
    let fen = "R6R/3Q4/1Q4Q1/4Q3/2Q4Q/Q4Q2/pp1Q4/kBNN1KB1 w - - 0 1";
    let board = Chessboard::from_fen(fen, Strictness::Strict).unwrap();
    assert_eq!(board.legal_moves_slow().len(), 218);
    assert!(board.debug_verify_invariants(Strictness::Strict).is_ok());
    let board = board.flip_side_to_move().unwrap();
    assert!(board.legal_moves_slow().is_empty());
    assert_eq!(board.player_result_slow(&NoHistory::default()), Some(PlayerResult::Draw));
}
