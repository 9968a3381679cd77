pub mod ataxx;
pub mod attack_data;
pub mod attacks;
pub mod bitbase;
pub mod bits;
pub mod castling;
pub mod chessboard;
pub mod cli;
pub mod fen;
pub mod games;
pub mod incremental_hash;
pub mod make_move;
pub mod movegen;
pub mod no_pawn_tables;
pub mod moves;
pub mod notation;
pub mod outcome;
pub mod pawn_tables;
pub mod perft;
pub mod pieces;
pub mod random;
pub mod see;
pub mod squares;
pub mod startpos;
pub mod tablebase;
pub mod text;
pub mod upcoming_repetition;
pub mod zobrist;
