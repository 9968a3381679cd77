use gears::bitbase::{calc_pawn_vs_king, calc_pawn_vs_king_impl, idx_compact, idx_full, query_pawn_v_king};
use gears::chessboard::{Board, Chessboard, Strictness};
use gears::games::PlayerResult;
use gears::pieces::ChessColor;
use gears::squares::{sq, sup_distance, ChessSquare};

fn all_squares() -> impl Iterator<Item = ChessSquare> {
    (0..64).map(ChessSquare::from_bb_idx)
}

fn has(bb: u64, square: ChessSquare) -> bool {
    bb & square.bb() != 0
}

#[test]
fn consistency_test() {
    let (white, black) = calc_pawn_vs_king_impl();
    for w_pawn in all_squares() {
        if w_pawn.is_backrank() || w_pawn.file() >= 4 {
            continue;
        }
        for w_king in all_squares() {
            for b_king in all_squares() {
                if sup_distance(w_king, b_king) <= 1
                    || w_king == w_pawn
                    || b_king == w_pawn
                    || has(Board::single_pawn_captures(ChessColor::White, w_pawn), b_king)
                {
                    continue;
                }
                let mut expected = false;
                let is_black_loss = |w_p: ChessSquare, w_k: ChessSquare, b_k: ChessSquare| {
                    has(black[idx_full(w_p, w_k)], b_k)
                };
                let tos = Board::normal_king_attacks_from(w_king)
                    & !Board::normal_king_attacks_from(b_king)
                    & !w_pawn.bb();
                for to in all_squares().filter(|s| has(tos, *s)) {
                    expected |= is_black_loss(w_pawn, to, b_king);
                }
                let north = ChessSquare::from_bb_idx(w_pawn.bb_idx() + 8);
                if north != w_king {
                    expected |= is_black_loss(north, w_king, b_king);
                }
                if w_pawn.rank() == 1 {
                    let north2 = ChessSquare::from_bb_idx(w_pawn.bb_idx() + 16);
                    if north != w_king && north != b_king && north2 != w_king {
                        expected |= is_black_loss(north2, w_king, b_king);
                    }
                }
                let actual = has(white[idx_full(w_pawn, w_king)], b_king);
                assert_eq!(expected, actual, "{w_pawn:?} {w_king:?} {b_king:?}");
            }
        }
    }
}

#[derive(Debug)]
struct Testcase {
    side: ChessColor,
    w_pawn: ChessSquare,
    w_king: ChessSquare,
    b_king: ChessSquare,
    won: bool,
}

#[test]
fn bitbase_simple_test() {
    let testcases = [
        Testcase { side: ChessColor::White, w_king: sq("a1"), w_pawn: sq("a2"), b_king: sq("a8"), won: false },
        Testcase { side: ChessColor::White, w_king: sq("a1"), w_pawn: sq("a2"), b_king: sq("h8"), won: true },
        Testcase { side: ChessColor::Black, w_king: sq("a1"), w_pawn: sq("a2"), b_king: sq("a8"), won: false },
        Testcase { side: ChessColor::Black, w_king: sq("a1"), w_pawn: sq("a2"), b_king: sq("h8"), won: true },
        Testcase { side: ChessColor::Black, w_king: sq("a1"), w_pawn: sq("a2"), b_king: sq("g2"), won: false },
        Testcase { side: ChessColor::Black, w_king: sq("a1"), w_pawn: sq("a2"), b_king: sq("g1"), won: true },
        Testcase { side: ChessColor::White, w_king: sq("a5"), w_pawn: sq("a4"), b_king: sq("d4"), won: true },
        Testcase { side: ChessColor::Black, w_king: sq("a5"), w_pawn: sq("a4"), b_king: sq("d4"), won: false },
        Testcase { side: ChessColor::White, w_king: sq("a1"), w_pawn: sq("f4"), b_king: sq("a3"), won: true },
        Testcase { side: ChessColor::Black, w_king: sq("a1"), w_pawn: sq("f4"), b_king: sq("a3"), won: false },
        Testcase { side: ChessColor::Black, w_king: sq("a3"), w_pawn: sq("a4"), b_king: sq("f3"), won: true },
        Testcase { side: ChessColor::White, w_king: sq("h6"), w_pawn: sq("g6"), b_king: sq("g8"), won: true },
        Testcase { side: ChessColor::White, w_king: sq("h3"), w_pawn: sq("h2"), b_king: sq("b7"), won: true },
        Testcase { side: ChessColor::Black, w_king: sq("a5"), w_pawn: sq("a4"), b_king: sq("e6"), won: false },
        Testcase { side: ChessColor::Black, w_king: sq("f8"), w_pawn: sq("g6"), b_king: sq("h8"), won: false },
        Testcase { side: ChessColor::White, w_king: sq("f6"), w_pawn: sq("g5"), b_king: sq("g8"), won: true },
        Testcase { side: ChessColor::White, w_king: sq("d1"), w_pawn: sq("c3"), b_king: sq("f8"), won: true },
        Testcase { side: ChessColor::White, w_king: sq("d4"), w_pawn: sq("c4"), b_king: sq("e6"), won: true },
        Testcase { side: ChessColor::White, w_king: sq("c6"), w_pawn: sq("d6"), b_king: sq("d8"), won: true },
        Testcase { side: ChessColor::Black, w_king: sq("d6"), w_pawn: sq("e6"), b_king: sq("d8"), won: true },
        Testcase { side: ChessColor::White, w_king: sq("g6"), w_pawn: sq("g5"), b_king: sq("h8"), won: true },
        Testcase { side: ChessColor::Black, w_king: sq("g6"), w_pawn: sq("g5"), b_king: sq("h8"), won: true },
        Testcase { side: ChessColor::White, w_king: sq("e4"), w_pawn: sq("e3"), b_king: sq("e6"), won: false },
        Testcase { side: ChessColor::Black, w_king: sq("e4"), w_pawn: sq("e3"), b_king: sq("e6"), won: true },
        Testcase { side: ChessColor::Black, w_king: sq("h3"), w_pawn: sq("b2"), b_king: sq("h5"), won: true },
        Testcase { side: ChessColor::White, w_king: sq("g2"), w_pawn: sq("b2"), b_king: sq("g5"), won: true },
    ];
    let table = calc_pawn_vs_king();
    for test in testcases {
        let res = query_pawn_v_king(&table, test.w_pawn, test.w_king, test.b_king, test.side == ChessColor::Black);
        assert_eq!(res != PlayerResult::Draw, test.won, "{test:?}");
    }
}

#[test]
fn count_test() {
    let mut counts = [163328 / 2, 168024 / 2, 124960 / 2, 97604 / 2];
    let bitbase = calc_pawn_vs_king();
    for w_pawn in all_squares() {
        if w_pawn.is_backrank() || w_pawn.file() >= 4 {
            continue;
        }
        for w_king in all_squares() {
            if w_king == w_pawn {
                continue;
            }
            let i = idx_compact(w_pawn, w_king);
            for b_king in all_squares() {
                if w_pawn == b_king || sup_distance(w_king, b_king) <= 1 {
                    continue;
                }
                let black_in_check = has(Board::single_pawn_captures(ChessColor::White, w_pawn), b_king);
                if !black_in_check {
                    counts[0] -= 1
                }
                counts[1] -= 1;
                if !black_in_check && has(bitbase.white[i], b_king) {
                    counts[2] -= 1
                }
                if has(bitbase.black[i], b_king) {
                    counts[3] -= 1
                }
            }
        }
    }
    assert_eq!(counts, [0, 0, 0, 0]);
}

#[test]
fn chess_test() {
    let table = calc_pawn_vs_king();
    let pos = Chessboard::from_fen("1K1k4/1P6/8/8/8/8/8/8 b - - 0 1", Strictness::Strict).unwrap();
    assert_eq!(pos.query_bitbase(&table), Some(PlayerResult::Lose));
    let pos = pos.make_nullmove().unwrap();
    assert_eq!(pos.query_bitbase(&table), Some(PlayerResult::Win));
    let pos = Chessboard::from_fen("3k4/1P6/8/8/8/1K6/8/8 b - - 0 1", Strictness::Strict).unwrap();
    assert_eq!(pos.query_bitbase(&table), Some(PlayerResult::Draw));
    let pos = Chessboard::from_fen("3k4/1P6/8/8/8/1K6/8/7R b - - 0 1", Strictness::Strict).unwrap();
    assert_eq!(pos.query_bitbase(&table), None);

    let pos = Chessboard::from_fen("3k4/8/8/8/8/1K6/6p1/8 b - - 0 1", Strictness::Strict).unwrap();
    assert_eq!(pos.query_bitbase(&table), Some(PlayerResult::Win));
    let pos = pos.make_nullmove().unwrap();
    assert_eq!(pos.query_bitbase(&table), Some(PlayerResult::Lose));
}
