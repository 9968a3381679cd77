use gears::pawn_tables::{kings_idx, INVALID_KING_IDX, NUM_KING_SQUARES};
use gears::squares::ChessSquare;

fn apart(a: usize, b: usize) -> bool {
    let df = (a % 8).abs_diff(b % 8);
    let dr = (a / 8).abs_diff(b / 8);
    df.max(dr) > 1
}

#[test]
fn kings_idx_enumerates_pairs_test() {
    let mut i = 0;
    for w in 0..64usize {
        let wk = (w % 32) / 4 * 8 + (w / 32) * 4 + w % 4;
        for bk in 0..64usize {
            let idx = kings_idx([ChessSquare::from_bb_idx(wk), ChessSquare::from_bb_idx(bk)]);
            if apart(wk, bk) {
                assert_eq!(idx, i);
                i += 1;
            } else {
                assert_eq!(idx, INVALID_KING_IDX);
            }
        }
    }
    assert_eq!(i, NUM_KING_SQUARES);
}
