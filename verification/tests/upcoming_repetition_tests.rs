use gears::chessboard::{Chessboard, Strictness};
use gears::games::{n_fold_repetition, BoardHistory, ZobristHistory};
use gears::moves::ChessMove;
use gears::upcoming_repetition::{calc_move_hash_table, entry};

#[test]
fn test_calc_move_hash_table() {
    let table = calc_move_hash_table();
    let pos = Chessboard::default();
    let mov = ChessMove::from_text("Nf3", &pos).unwrap();
    let new_pos = pos.make_move(mov).unwrap();
    let hash_diff = pos.hash.0 ^ new_pos.hash.0;
    assert!(table.moves.contains(&mov));
    assert!(table.hashes.contains(&entry(hash_diff)));
}

#[test]
fn test_upcoming_repetition() {
    let table = calc_move_hash_table();
    let mut pos = Chessboard::from_name("kiwipete").unwrap();
    let moves = ["Qg3", "Bb7", "Qf3"];
    let mut hist = ZobristHistory::default();
    for m in moves {
        assert!(!pos.has_upcoming_repetition(&table, &hist));
        hist.push(pos.hash);
        pos = pos.make_move_from_str(m).unwrap();
    }
    assert!(pos.has_upcoming_repetition(&table, &hist));
    hist.push(pos.hash);
    pos = pos.make_move_from_str("Ba6").unwrap();
    assert!(pos.player_result_slow(&hist).is_none());
    assert!(pos.has_upcoming_repetition(&table, &hist));
    hist.push(pos.hash);
    pos = pos.make_nullmove().unwrap();
    assert!(!pos.has_upcoming_repetition(&table, &hist));
    hist.push(pos.hash);
    pos = pos.make_move_from_str("Bb5").unwrap();
    assert!(!pos.has_upcoming_repetition(&table, &hist));
    hist.push(pos.hash);
    pos = pos.make_nullmove().unwrap();
    pos.ply_100_ctr = 42;
    assert!(pos.has_upcoming_repetition(&table, &hist));
    hist.push(pos.hash);
    pos = pos.make_move_from_str("Ba6").unwrap();
    assert!(hist.0.contains(&pos.hash));
    assert!(pos.has_upcoming_repetition(&table, &hist));
    hist.push(pos.hash);
    pos = pos.make_nullmove().unwrap();
    assert!(!pos.has_upcoming_repetition(&table, &hist));
}

#[test]
fn triangulation_test() {
    let table = calc_move_hash_table();
    let mut pos = Chessboard::from_fen("8/1p1k4/1P6/2PK4/8/8/8/8 w - - 4 7", Strictness::Strict).unwrap();
    let moves = ["Ke5!", "Kc6", "Kd4", "Kd7"];
    let mut hist = ZobristHistory::default();
    for m in moves {
        assert!(!n_fold_repetition(2, &hist, pos.hash, 100));
        assert!(!pos.has_upcoming_repetition(&table, &hist), "{}", pos.as_fen());
        hist.push(pos.hash);
        pos = pos.make_move_from_str(m).unwrap();
    }
    assert!(pos.has_upcoming_repetition(&table, &hist));
    hist.push(pos.hash);
    pos = pos.make_move_from_str("Kd5").unwrap();
    assert!(!n_fold_repetition(2, &hist, pos.hash, 100));
    assert!(!pos.has_upcoming_repetition(&table, &hist));
}

#[test]
fn move_hash_table_holds_every_move_test() {
    let table = calc_move_hash_table();
    let filled = table.moves.iter().filter(|m| m.0 != 0).count();
    assert_eq!(filled, 3668);
}
