use gears::attack_data::Attacks;
use gears::chessboard::Chessboard;
use gears::pieces::{ChessColor, ChessPieceType};

#[test]
fn pinned_test() {
    let pos = Chessboard::from_name("puzzle").unwrap();
    let data = Attacks::init_manually(&pos);
    // c7 is square 50.
    assert_eq!(data.pinned, 1u64 << 50);
    let pos = Chessboard::from_name("unusual").unwrap().flip_side_to_move().unwrap();
    let data = Attacks::init_manually(&pos);
    // d1 is square 3.
    assert_eq!(data.pinned, 1u64 << 3);
}

#[test]
fn attack_data_simple_perft_test() {
    for pos in Chessboard::bench_positions() {
        let data = Attacks::init_manually(&pos);
        assert_eq!(data.checkers != 0, pos.is_in_check());
        for (color, sliders) in [(ChessColor::White, &data.white.sliders), (ChessColor::Black, &data.black.sliders)] {
            let count = pos.colored_piece_bb(color, ChessPieceType::Bishop).count_ones()
                + pos.colored_piece_bb(color, ChessPieceType::Rook).count_ones()
                + pos.colored_piece_bb(color, ChessPieceType::Queen).count_ones();
            assert_eq!(sliders.len(), count as usize);
        }
    }
}
