use gears::no_pawn_tables::{kings_idx, INVALID_KING_IDX, NUM_KING_SQUARES};
use gears::squares::ChessSquare;

const SYMMETRY: [usize; 10] = [0, 8, 9, 16, 17, 18, 24, 25, 26, 27];

fn near(a: usize, b: usize) -> bool {
    let df = (a % 8).abs_diff(b % 8);
    let dr = (a / 8).abs_diff(b / 8);
    df.max(dr) <= 1
}

#[test]
fn no_pawn_kings_idx_enumerates_pairs_test() {
    let mut i = 0;
    for w in SYMMETRY {
        for b in 0..64usize {
            let idx = kings_idx([ChessSquare::from_bb_idx(w), ChessSquare::from_bb_idx(b)]);
            if near(w, b) || (w / 8 == w % 8 && b / 8 < b % 8) {
                assert_eq!(idx, INVALID_KING_IDX);
            } else {
                assert_eq!(idx, i);
                i += 1;
            }
        }
    }
    assert_eq!(i, NUM_KING_SQUARES);
    for w in 0..64usize {
        if !SYMMETRY.contains(&w) {
            for b in 0..64usize {
                assert_eq!(kings_idx([ChessSquare::from_bb_idx(w), ChessSquare::from_bb_idx(b)]), INVALID_KING_IDX);
            }
        }
    }
}
