//! Reading and writing chess positions in Forsyth–Edwards Notation, and checking positions.
use vstd::prelude::*;
use crate::attacks::ChessSliderGenerator;
use crate::bits::{bit, has_bit, num_ones, pop_count};
use crate::castling::{CastleRight, CastlingFlags};
use crate::chessboard::{spec_zobrist, ChessError, ChessSettings, Chessboard, Strictness, UnverifiedChessboard};
use crate::games::file_to_char;
use crate::pieces::{to_ascii_lower, ChessColor, ChessPieceType, ColoredChessPieceType};
use crate::squares::{sq_at, ChessSquare};
use crate::text::{parse_usize, push_decimal, split_words, str_chars, string_from_chars};

verus! {

/// How thoroughly to check a position.
#[derive(Copy, Clone, Eq, PartialEq, Structural, Debug)]
pub enum SelfChecks {
    /// The checks for a position read from a FEN: invalid en passant squares are dropped in
    /// relaxed mode instead of being an error.
    CheckFen,
    /// All checks.
    Verify,
}

/// Checking the en passant square of `b`: `Ok` with the square to keep, or an error. The square
/// must lie behind a pawn of the player who just moved that could have made a double push onto
/// it, the king of the player to move must be in check at most by that pawn (or by nothing that
/// the push uncovered), and a pawn of the player to move must be able to capture en passant
/// without leaving its king in check. Where no capture is possible, the square is dropped if
/// `drop_ok` and an error otherwise.
#[verifier::opaque]
pub open spec fn spec_check_ep(b: Chessboard, drop_ok: bool) -> Result<Option<ChessSquare>, ChessError> {
    match b.ep_square {
        None => Ok(None),
        Some(ep) => {
            let e = ep.idx as int;
            let active = b.active_player;
            let inactive = active.spec_other();
            let white = active == ChessColor::White;
            let victim = if white {
                e - 8
            } else {
                e + 8
            };
            let origin = if white {
                e + 8
            } else {
                e - 8
            };
            let occ = b.spec_occupied();
            let king = b.spec_king_square(active);
            let checkers = crate::movegen::spec_all_attacking(b, king, occ) & b.spec_colored_bb(inactive);
            let n = pop_count(checkers);
            let capturing = crate::attacks::spec_pawn_captures(inactive == ChessColor::White, e)
                & b.spec_colored_piece_bb(active, ChessPieceType::Pawn);
            let legal = exists|d: u64|
                d < 64 && #[trigger] bit(capturing, d)
                    && crate::make_move::spec_ep_capture_is_legal(b, d as int, e, victim);
            if e >= 64 {
                Err(ChessError::InvalidEpSquare)
            } else if crate::squares::rank_of(e) != (if white {
                5int
            } else {
                2int
            }) {
                Err(ChessError::InvalidEpSquare)
            } else if bit(occ, e as u64) {
                Err(ChessError::InvalidEpSquare)
            } else if !bit(b.spec_colored_piece_bb(inactive, ChessPieceType::Pawn), victim as u64) {
                Err(ChessError::InvalidEpSquare)
            } else if bit(occ, origin as u64) {
                Err(ChessError::InvalidEpSquare)
            } else if n > 1 {
                Err(ChessError::InvalidEpSquare)
            } else if n == 1 && crate::movegen::spec_all_attacking(
                b,
                king,
                (occ & !(1u64 << victim as u64)) | (1u64 << origin as u64),
            ) & b.spec_colored_bb(inactive) & !(1u64 << victim as u64) != 0 {
                Err(ChessError::InvalidEpSquare)
            } else if capturing == 0 || !legal || checkers & !(1u64 << victim as u64) != 0 {
                if drop_ok {
                    Ok(None)
                } else {
                    Err(ChessError::InvalidEpSquare)
                }
            } else {
                Ok(Some(ep))
            }
        },
    }
}

/// Checking `b`: the first error of the arrangement of the pieces, then of the en passant square,
/// then the first error found after it; else the position, possibly without its en passant square,
/// with its hash computed. `drop_ep` allows dropping an en passant square that no pawn can use.
#[verifier::opaque]
pub open spec fn spec_verify(b: Chessboard, strict: bool, drop_ep: bool) -> Result<Chessboard, ChessError> {
    match spec_structure_error(b) {
        Some(e) => Err(e),
        None => match spec_check_ep(b, drop_ep) {
            Err(e) => Err(e),
            Ok(ep) => match spec_late_error(b, strict) {
                Some(e) => Err(e),
                None => {
                    let b2 = Chessboard { ep_square: ep, ..b };
                    Ok(Chessboard { hash: spec_zobrist(b2), ..b2 })
                },
            },
        },
    }
}

/// The side to move named by a FEN word: `w` or `b`, in either case.
pub open spec fn spec_parse_color(w: Seq<char>) -> Option<ChessColor> {
    if w.len() == 1 && (w[0] == 'w' || w[0] == 'W') {
        Some(ChessColor::White)
    } else if w.len() == 1 && (w[0] == 'b' || w[0] == 'B') {
        Some(ChessColor::Black)
    } else {
        None
    }
}

/// A number of a FEN: `None` if the word is not a number that fits.
pub open spec fn spec_number(w: Seq<char>) -> Option<usize> {
    if w.len() > 0 && crate::text::all_digits(w) && crate::text::digits_value(w) <= usize::MAX {
        Some(crate::text::digits_value(w) as usize)
    } else {
        None
    }
}

/// The position a FEN given as words from word `start` on describes, before it is checked: the
/// placement, the side to move, the castling rights, the en passant square (`-` for none), then
/// the halfmove clock and the move number, which may be missing in relaxed mode.
pub open spec fn spec_fen_board(words: Seq<Seq<char>>, start: int, strict: bool) -> Result<Chessboard, ChessError> {
    if start >= words.len() {
        Err(ChessError::EmptyInput)
    } else if words.len() - start < 4 {
        Err(ChessError::MissingFenPart)
    } else {
        match spec_read_placement(words[start], 0, 7, 0, crate::chessboard::spec_empty_board()) {
            Err(e) => Err(e),
            Ok(placed) => match spec_parse_color(words[start + 1]) {
                None => Err(ChessError::InvalidColor),
                Some(color) => {
                    let b1 = Chessboard { active_player: color, ..placed };
                    match spec_parse_castling_rights(b1, words[start + 2], strict) {
                        Err(e) => Err(e),
                        Ok((flags, settings)) => {
                            let b2 = Chessboard { castling: flags, settings, ..b1 };
                            let ep_word = words[start + 3];
                            let ep: Result<Option<ChessSquare>, ChessError> = if ep_word.len() == 1
                                && ep_word[0] == '-' {
                                Ok(None)
                            } else if ep_word.len() == 2 && 'a' <= ep_word[0] <= 'h' && '1'
                                <= ep_word[1] <= '8' {
                                Ok(
                                    Some(
                                        ChessSquare {
                                            idx: sq_at(ep_word[0] as int - 97, ep_word[1] as int - 49) as u8,
                                        },
                                    ),
                                )
                            } else {
                                Err(ChessError::InvalidSquare)
                            };
                            let black: int = if color == ChessColor::Black {
                                1
                            } else {
                                0
                            };
                            match ep {
                                Err(e) => Err(e),
                                Ok(ep_square) => {
                                    let b3 = Chessboard { ep_square, ..b2 };
                                    let half = if words.len() - start > 4 {
                                        spec_number(words[start + 4])
                                    } else {
                                        None
                                    };
                                    match half {
                                        Some(h) => if words.len() - start <= 5 {
                                            Err(ChessError::MissingFenPart)
                                        } else {
                                            match spec_number(words[start + 5]) {
                                                None => Err(ChessError::InvalidNumber),
                                                Some(f) => if f == 0 {
                                                    Err(ChessError::InvalidNumber)
                                                } else if f > 100_000 {
                                                    Err(ChessError::PlyTooLarge)
                                                } else {
                                                    Ok(
                                                        Chessboard {
                                                            ply_100_ctr: h,
                                                            ply: ((f - 1) * 2 + black) as usize,
                                                            ..b3
                                                        },
                                                    )
                                                },
                                            }
                                        },
                                        None => if strict {
                                            Err(ChessError::MissingFenPart)
                                        } else {
                                            Ok(Chessboard { ply_100_ctr: 0, ply: black as usize, ..b3 })
                                        },
                                    }
                                },
                            }
                        },
                    }
                },
            },
        }
    }
}

/// Reading the piece placement of a FEN from character `i` on, at `rank` and `file`, onto `b`:
/// `/` ends a full rank, a digit skips that many squares, a piece letter places a piece.
pub open spec fn spec_read_placement(w: Seq<char>, i: int, rank: int, file: int, b: Chessboard) -> Result<
    Chessboard,
    ChessError,
>
    decreases w.len() - i,
{
    if i >= w.len() || i < 0 {
        if rank != 0 || file != 8 {
            Err(ChessError::InvalidNumberOfRows)
        } else {
            Ok(b)
        }
    } else {
        let c = w[i];
        if c == '/' {
            if file != 8 || rank == 0 {
                Err(ChessError::InvalidRowLength)
            } else {
                spec_read_placement(w, i + 1, rank - 1, 0, b)
            }
        } else if '1' <= c && c <= '8' {
            if file + (c as int - 48) > 8 {
                Err(ChessError::InvalidRowLength)
            } else {
                spec_read_placement(w, i + 1, rank, file + (c as int - 48), b)
            }
        } else {
            match crate::pieces::spec_colored_from_char(c) {
                Some(piece) => if piece == ColoredChessPieceType::Empty || file >= 8 {
                    Err(ChessError::InvalidPieceChar)
                } else {
                    spec_read_placement(
                        w,
                        i + 1,
                        rank,
                        file + 1,
                        crate::chessboard::spec_place(b, sq_at(file, rank), piece),
                    )
                },
                None => Err(ChessError::InvalidPieceChar),
            }
        }
    }
}

/// Parses the piece placement part of a FEN, from the eighth rank down to the first.
pub fn read_position(word: &[char], board: UnverifiedChessboard) -> (r: Result<
    UnverifiedChessboard,
    ChessError,
>)
    requires
        board.0.castling.wf(),
    ensures
        match spec_read_placement(word@, 0, 7, 0, board.0) {
            Ok(b) => r == Ok::<UnverifiedChessboard, ChessError>(UnverifiedChessboard(b)),
            Err(e) => r is Err && r->Err_0 == e,
        },
        r.is_ok() ==> r.unwrap().0.castling == board.0.castling && r.unwrap().0.ply == board.0.ply
            && r.unwrap().0.active_player == board.0.active_player && r.unwrap().0.ep_square
            == board.0.ep_square,
{
    let mut b = board;
    let mut rank: u8 = 7;
    let mut file: u8 = 0;
    let mut i: usize = 0;
    while i < word.len()
        invariant
            i <= word@.len(),
            rank < 8,
            file <= 8,
            b.0.castling == board.0.castling,
            b.0.ply == board.0.ply,
            b.0.active_player == board.0.active_player,
            b.0.ep_square == board.0.ep_square,
            spec_read_placement(word@, 0, 7, 0, board.0) == spec_read_placement(
                word@,
                i as int,
                rank as int,
                file as int,
                b.0,
            ),
        decreases word@.len() - i,
    {
        let c = word[i];
        let ghost here = spec_read_placement(word@, i as int, rank as int, file as int, b.0);
        assert(c == word@[i as int]);
        if c == '/' {
            if file != 8 || rank == 0 {
                return Err(ChessError::InvalidRowLength);
            }
            rank = rank - 1;
            file = 0;
        } else if '1' <= c && c <= '8' {
            let n = (c as u32 - 48) as u8;
            if file + n > 8 {
                return Err(ChessError::InvalidRowLength);
            }
            file = file + n;
        } else {
            match ColoredChessPieceType::parse_from_char(c) {
                Some(piece) => {
                    if piece == ColoredChessPieceType::Empty || file >= 8 {
                        return Err(ChessError::InvalidPieceChar);
                    }
                    b = b.place_piece_unchecked(ChessSquare::from_rank_file(rank, file), piece);
                    file = file + 1;
                },
                None => {
                    return Err(ChessError::InvalidPieceChar);
                },
            }
        }
        assert(here == spec_read_placement(word@, i + 1, rank as int, file as int, b.0));
        i = i + 1;
    }
    if rank != 0 || file != 8 {
        return Err(ChessError::InvalidNumberOfRows);
    }
    Ok(b)
}

/// Parses the side to move: `w` or `b`, in either case.
pub fn parse_color(word: &[char]) -> (r: Option<ChessColor>)
    ensures
        r == Some(ChessColor::White) <==> (word@.len() == 1 && (word@[0] == 'w' || word@[0] == 'W')),
        r == Some(ChessColor::Black) <==> (word@.len() == 1 && (word@[0] == 'b' || word@[0] == 'B')),
{
    if word.len() != 1 {
        return None;
    }
    let c = to_ascii_lower(word[0]);
    if c == 'w' {
        Some(ChessColor::White)
    } else if c == 'b' {
        Some(ChessColor::Black)
    } else {
        None
    }
}

/// The standard chess starting position, with its zobrist hash.
pub open spec fn spec_startpos() -> Chessboard {
    let b = Chessboard {
        piece_bbs: [
            0x00ff_0000_0000_ff00u64,
            0x4200_0000_0000_0042u64,
            0x2400_0000_0000_0024u64,
            0x8100_0000_0000_0081u64,
            0x0800_0000_0000_0008u64,
            0x1000_0000_0000_0010u64,
        ],
        color_bbs: [0xffffu64, 0xffff_0000_0000_0000u64],
        ply: 0,
        ply_100_ctr: 0,
        active_player: ChessColor::White,
        castling: CastlingFlags {
            white_queenside: Some(0u8),
            white_kingside: Some(7u8),
            black_queenside: Some(0u8),
            black_kingside: Some(7u8),
        },
        ep_square: None,
        hash: crate::games::PosHash(0),
        settings: ChessSettings { shredder_fen: false, dfrc: false },
    };
    Chessboard { hash: spec_zobrist(b), ..b }
}

/// Whether a rook of `color` stands on its back rank on file `f`.
pub open spec fn spec_rook_on(b: Chessboard, color: ChessColor, f: int) -> bool {
    bit(b.spec_colored_piece_bb(color, ChessPieceType::Rook), sq_at(f, 7 * color.spec_idx()) as u64)
}

/// The file of the first rook of `color` on its back rank from file `f` up to (not including)
/// `king_file`.
pub open spec fn spec_first_rook_up(b: Chessboard, color: ChessColor, f: int, king_file: int) -> Option<u8>
    decreases king_file - f,
{
    if f >= king_file || f < 0 {
        None
    } else if spec_rook_on(b, color, f) {
        Some(f as u8)
    } else {
        spec_first_rook_up(b, color, f + 1, king_file)
    }
}

/// The file of the first rook of `color` on its back rank from file `f` down to (not including)
/// `king_file`.
pub open spec fn spec_first_rook_down(b: Chessboard, color: ChessColor, f: int, king_file: int) -> Option<u8>
    decreases f,
{
    if f <= king_file || f > 7 || f < 1 {
        None
    } else if spec_rook_on(b, color, f) {
        Some(f as u8)
    } else {
        spec_first_rook_down(b, color, f - 1, king_file)
    }
}

/// The outermost rook of `color` on `side` of its king on file `king_file`.
pub open spec fn spec_castling_rook(b: Chessboard, color: ChessColor, side: CastleRight, king_file: int) -> Option<u8> {
    match side {
        CastleRight::Queenside => spec_first_rook_up(b, color, 0, king_file),
        CastleRight::Kingside => spec_first_rook_down(b, color, 7, king_file),
    }
}

/// Reading one castling right character `c` of a FEN on the pieces of `b`, with the rights read so
/// far in `flags`: the new rights, whether `c` named a file, and whether the right makes the
/// position a DFRC position (a rook off the a and h files or a king off the e file).
pub open spec fn spec_castling_char(b: Chessboard, flags: CastlingFlags, c: char, strict: bool) -> Result<
    (CastlingFlags, bool, bool),
    ChessError,
> {
    let color = if 'A' <= c && c <= 'Z' {
        ChessColor::White
    } else {
        ChessColor::Black
    };
    let rank = 7 * color.spec_idx();
    let lower = crate::pieces::spec_to_ascii_lower(c);
    if pop_count(b.spec_colored_piece_bb(color, ChessPieceType::King)) != 1 {
        Err(ChessError::NotExactlyOneKing)
    } else if crate::squares::rank_of(b.spec_king_square(color)) != rank {
        Err(ChessError::KingNotOnBackrank)
    } else {
        let kf = crate::squares::file_of(b.spec_king_square(color));
        if lower == 'q' || lower == 'k' {
            let side = if lower == 'q' {
                CastleRight::Queenside
            } else {
                CastleRight::Kingside
            };
            let corner: int = if lower == 'q' {
                0
            } else {
                7
            };
            if strict && (!spec_rook_on(b, color, corner) || kf != 4) {
                Err(ChessError::StrictCastlingRights)
            } else {
                match spec_castling_rook(b, color, side, kf) {
                    Some(f) => if flags.right(color, side).is_some() {
                        Err(ChessError::DuplicateCastlingRight)
                    } else {
                        Ok((flags.spec_set(color, side, f), false, (f != 0 && f != 7) || kf != 4))
                    },
                    None => Err(ChessError::NoCastlingRook),
                }
            }
        } else if 'a' <= lower && lower <= 'h' {
            let f = (lower as int - 97) as u8;
            let side = if f < kf {
                CastleRight::Queenside
            } else {
                CastleRight::Kingside
            };
            if flags.right(color, side).is_some() {
                Err(ChessError::DuplicateCastlingRight)
            } else {
                Ok((flags.spec_set(color, side, f), true, (f != 0 && f != 7) || kf != 4))
            }
        } else {
            Err(ChessError::InvalidCastlingRights)
        }
    }
}

proof fn lemma_castling_rook_frame(a: Chessboard, b: Chessboard, color: ChessColor, side: CastleRight, king_file: int)
    requires
        a.piece_bbs == b.piece_bbs,
        a.color_bbs == b.color_bbs,
    ensures
        spec_castling_rook(a, color, side, king_file) == spec_castling_rook(b, color, side, king_file),
{
    lemma_first_rook_up_frame(a, b, color, 0, king_file);
    lemma_first_rook_down_frame(a, b, color, 7, king_file);
}

proof fn lemma_first_rook_up_frame(a: Chessboard, b: Chessboard, color: ChessColor, f: int, king_file: int)
    requires
        a.piece_bbs == b.piece_bbs,
        a.color_bbs == b.color_bbs,
    ensures
        spec_first_rook_up(a, color, f, king_file) == spec_first_rook_up(b, color, f, king_file),
    decreases king_file - f,
{
    if f < king_file && f >= 0 {
        lemma_first_rook_up_frame(a, b, color, f + 1, king_file);
    }
}

proof fn lemma_first_rook_down_frame(a: Chessboard, b: Chessboard, color: ChessColor, f: int, king_file: int)
    requires
        a.piece_bbs == b.piece_bbs,
        a.color_bbs == b.color_bbs,
    ensures
        spec_first_rook_down(a, color, f, king_file) == spec_first_rook_down(b, color, f, king_file),
    decreases f,
{
    if f > king_file && f <= 7 && f >= 1 {
        lemma_first_rook_down_frame(a, b, color, f - 1, king_file);
    }
}

/// Reading the castling right characters from index `i` on, with the state read so far.
pub open spec fn spec_castling_chars_from(
    b: Chessboard,
    rights: Seq<char>,
    i: int,
    strict: bool,
    flags: CastlingFlags,
    shredder: bool,
    dfrc: bool,
) -> Result<(CastlingFlags, bool, bool), ChessError>
    decreases rights.len() - i,
{
    if i >= rights.len() || i < 0 {
        Ok((flags, shredder, dfrc))
    } else {
        match spec_castling_char(b, flags, rights[i], strict) {
            Err(e) => Err(e),
            Ok((f2, is_file, d2)) => spec_castling_chars_from(
                b,
                rights,
                i + 1,
                strict,
                f2,
                shredder && is_file,
                dfrc || d2,
            ),
        }
    }
}

/// The castling rights and settings read from the castling field of a FEN on the pieces of `b`:
/// `-` for none (the settings stay), else one to four right characters; the settings then say
/// whether all of them named files (Shredder FEN) and whether the position is a DFRC position.
pub open spec fn spec_parse_castling_rights(b: Chessboard, rights: Seq<char>, strict: bool) -> Result<
    (CastlingFlags, ChessSettings),
    ChessError,
> {
    let none = CastlingFlags {
        white_queenside: None,
        white_kingside: None,
        black_queenside: None,
        black_kingside: None,
    };
    if rights.len() == 1 && rights[0] == '-' {
        Ok((none, b.settings))
    } else if rights.len() == 0 || rights.len() > 4 {
        Err(ChessError::InvalidCastlingRights)
    } else {
        match spec_castling_chars_from(b, rights, 0, strict, none, true, false) {
            Err(e) => Err(e),
            Ok((flags, shredder, dfrc)) => Ok((flags, ChessSettings { shredder_fen: shredder, dfrc })),
        }
    }
}

/// The FEN letter of the piece on square `s` (uppercase for white).
pub open spec fn spec_fen_piece_char(b: Chessboard, s: int) -> char {
    let p = crate::chessboard::spec_piece_type_at(b.piece_bbs, s as u64);
    let c = crate::pieces::spec_uncolored_char(p, crate::games::CharType::Ascii);
    if bit(b.color_bbs[1], s as u64) {
        crate::pieces::spec_to_ascii_lower(c)
    } else {
        crate::pieces::spec_to_ascii_upper(c)
    }
}

/// The run of `empty` empty squares in a FEN row: its length, or nothing.
pub open spec fn spec_empty_run(empty: nat) -> Seq<char> {
    if empty > 0 {
        crate::text::decimal(empty)
    } else {
        Seq::empty()
    }
}

/// The FEN of `rank` from `file` on, after `empty` empty squares: pieces by their letters, runs of
/// empty squares by their length.
pub open spec fn spec_fen_row(b: Chessboard, rank: int, file: int, empty: nat) -> Seq<char>
    decreases 8 - file,
{
    if file >= 8 {
        spec_empty_run(empty)
    } else if crate::chessboard::spec_piece_type_at(b.piece_bbs, sq_at(file, rank) as u64)
        == ChessPieceType::Empty {
        spec_fen_row(b, rank, file + 1, empty + 1)
    } else {
        spec_empty_run(empty) + seq![spec_fen_piece_char(b, sq_at(file, rank))] + spec_fen_row(
            b,
            rank,
            file + 1,
            0,
        )
    }
}

/// The FEN of the first `k` ranks from the top, separated by `/`.
pub open spec fn spec_fen_rows(b: Chessboard, k: int) -> Seq<char>
    decreases k,
{
    if k <= 0 {
        Seq::empty()
    } else {
        let rank = 8 - k;
        spec_fen_rows(b, k - 1) + spec_fen_row(b, rank, 0, 0) + if rank > 0 {
            seq!['/']
        } else {
            Seq::empty()
        }
    }
}

/// Whether a rook of `color` stands on its back rank on a file from `lo` up to (not including)
/// `hi`.
pub open spec fn spec_rook_between(b: Chessboard, color: ChessColor, lo: int, hi: int) -> bool {
    exists|f: int| lo <= f < hi && #[trigger] spec_rook_on(b, color, f)
}

/// The lowercase character of a castling right in a FEN: the rook's file in Shredder FEN or when
/// another rook of the same color stands between it and its corner, else `q` or `k`.
pub open spec fn spec_castling_right_char(b: Chessboard, color: ChessColor, side: CastleRight) -> char {
    let f = b.spec_rook_start_file(color, side);
    let file_char = (f + 97) as char;
    if b.settings.shredder_fen {
        file_char
    } else if side == CastleRight::Queenside && spec_rook_between(b, color, 0, f) {
        file_char
    } else if side == CastleRight::Kingside && spec_rook_between(b, color, f + 1, 8) {
        file_char
    } else if side == CastleRight::Queenside {
        'q'
    } else {
        'k'
    }
}

/// The character of a castling right in a FEN, if the right exists: uppercase for white.
pub open spec fn spec_castling_part(b: Chessboard, color: ChessColor, side: CastleRight) -> Seq<char> {
    if b.castling.right(color, side).is_some() {
        let c = spec_castling_right_char(b, color, side);
        seq![
            if color == ChessColor::White {
                crate::pieces::spec_to_ascii_upper(c)
            } else {
                c
            },
        ]
    } else {
        Seq::empty()
    }
}

/// The castling right characters of the first `k` of white kingside, white queenside, black
/// kingside and black queenside.
pub open spec fn spec_castling_parts_upto(b: Chessboard, k: int) -> Seq<char>
    decreases k,
{
    if k <= 0 {
        Seq::empty()
    } else {
        let j = k - 1;
        let color = ChessColor::spec_from_idx(j / 2);
        let side = if j % 2 == 0 {
            CastleRight::Kingside
        } else {
            CastleRight::Queenside
        };
        spec_castling_parts_upto(b, j) + spec_castling_part(b, color, side)
    }
}

/// The castling rights in a FEN, white before black and kingside before queenside, or `-`.
pub open spec fn spec_fen_castling(b: Chessboard) -> Seq<char> {
    let chars = spec_castling_part(b, ChessColor::White, CastleRight::Kingside) + spec_castling_part(
        b,
        ChessColor::White,
        CastleRight::Queenside,
    ) + spec_castling_part(b, ChessColor::Black, CastleRight::Kingside) + spec_castling_part(
        b,
        ChessColor::Black,
        CastleRight::Queenside,
    );
    if chars.len() == 0 {
        seq!['-']
    } else {
        chars
    }
}

/// The FEN of a position: placement, player to move, castling rights, en passant square, halfmove
/// clock and move number.
pub open spec fn spec_fen(b: Chessboard) -> Seq<char> {
    let ep = match b.ep_square {
        Some(sq) => seq![
            (crate::squares::file_of(sq.idx as int) + 97) as char,
            (crate::squares::rank_of(sq.idx as int) + 49) as char,
        ],
        None => seq!['-'],
    };
    let moves = if b.ply < usize::MAX {
        crate::text::decimal((b.ply / 2 + 1) as nat)
    } else {
        Seq::empty()
    };
    spec_fen_rows(b, 8) + seq![
        ' ',
        if b.active_player == ChessColor::White {
            'w'
        } else {
            'b'
        },
        ' ',
    ] + spec_fen_castling(b) + seq![' '] + ep + seq![' '] + crate::text::decimal(
        b.ply_100_ctr as nat,
    ) + seq![' '] + moves
}

impl Chessboard {
    /// Finds the outermost rook of `color` on `side` of its king on the back rank.
    fn find_castling_rook(&self, color: ChessColor, side: CastleRight, king_file: u8) -> (r: Option<
        u8,
    >)
        requires
            king_file < 8,
        ensures
            r.is_some() ==> r.unwrap() < 8,
            r == spec_castling_rook(*self, color, side, king_file as int),
    {
        let rank = Chessboard::backrank(color);
        let rooks = self.colored_piece_bb(color, ChessPieceType::Rook);
        match side {
            CastleRight::Queenside => {
                let mut f: u8 = 0;
                while f < king_file
                    invariant
                        f <= king_file,
                        king_file < 8,
                        side == CastleRight::Queenside,
                        rank == 7 * color.spec_idx(),
                        rooks == self.spec_colored_piece_bb(color, ChessPieceType::Rook),
                        spec_first_rook_up(*self, color, f as int, king_file as int)
                            == spec_first_rook_up(*self, color, 0, king_file as int),
                    decreases king_file - f,
                {
                    if has_bit(rooks, ChessSquare::from_rank_file(rank, f).idx) {
                        return Some(f);
                    }
                    f = f + 1;
                }
                None
            },
            CastleRight::Kingside => {
                let mut f: u8 = 7;
                while f > king_file
                    invariant
                        king_file <= f <= 7,
                        side == CastleRight::Kingside,
                        rank == 7 * color.spec_idx(),
                        rooks == self.spec_colored_piece_bb(color, ChessPieceType::Rook),
                        spec_first_rook_down(*self, color, f as int, king_file as int)
                            == spec_first_rook_down(*self, color, 7, king_file as int),
                    decreases f,
                {
                    if has_bit(rooks, ChessSquare::from_rank_file(rank, f).idx) {
                        return Some(f);
                    }
                    f = f - 1;
                }
                None
            },
        }
    }

    /// Reads one castling right character of a FEN (see [`spec_castling_char`]), adding the right;
    /// returns whether the character named a file and whether the right makes a DFRC position.
    fn read_castling_char(&mut self, c: char, strict: bool, Ghost(b0): Ghost<Chessboard>) -> (r: Result<
        (bool, bool),
        ChessError,
    >)
        requires
            old(self).castling.wf(),
            b0.piece_bbs == old(self).piece_bbs,
            b0.color_bbs == old(self).color_bbs,
        ensures
            final(self).castling.wf(),
            *final(self) == (Chessboard { castling: final(self).castling, ..*old(self) }),
            match spec_castling_char(b0, old(self).castling, c, strict) {
                Ok((flags, is_file, d)) => r == Ok::<(bool, bool), ChessError>((is_file, d))
                    && final(self).castling == flags,
                Err(e) => r == Err::<(bool, bool), ChessError>(e),
            },
    {
        let color = if 'A' <= c && c <= 'Z' {
            ChessColor::White
        } else {
            ChessColor::Black
        };
        let rank = Chessboard::backrank(color);
        if num_ones(self.colored_piece_bb(color, ChessPieceType::King)) != 1 {
            return Err(ChessError::NotExactlyOneKing);
        }
        let king_sq = self.king_square(color);
        if king_sq.rank() != rank {
            return Err(ChessError::KingNotOnBackrank);
        }
        let king_file = king_sq.file();
        let lower = to_ascii_lower(c);
        let mut is_file = false;
        let mut d2 = false;
        if lower == 'q' || lower == 'k' {
            let side = if lower == 'q' {
                CastleRight::Queenside
            } else {
                CastleRight::Kingside
            };
            if strict {
                let corner: u8 = if lower == 'q' {
                    0
                } else {
                    7
                };
                let rook_in_corner = has_bit(
                    self.colored_piece_bb(color, ChessPieceType::Rook),
                    ChessSquare::from_rank_file(rank, corner).idx,
                );
                if !rook_in_corner || king_file != 4 {
                    return Err(ChessError::StrictCastlingRights);
                }
            }
            let found = self.find_castling_rook(color, side, king_file);
            proof {
                lemma_castling_rook_frame(*self, b0, color, side, king_file as int);
            }
            match found {
                Some(f) => {
                    let mut marks = ChessSettings { shredder_fen: false, dfrc: false };
                    if self.castling.set_castle_right(color, side, f, &mut marks).is_err() {
                        return Err(ChessError::DuplicateCastlingRight);
                    }
                    d2 = marks.dfrc;
                },
                None => {
                    return Err(ChessError::NoCastlingRook);
                },
            }
        } else if 'a' <= lower && lower <= 'h' {
            let f = (lower as u32 - 97) as u8;
            let side = if f < king_file {
                CastleRight::Queenside
            } else {
                CastleRight::Kingside
            };
            let mut marks = ChessSettings { shredder_fen: false, dfrc: false };
            if self.castling.set_castle_right(color, side, f, &mut marks).is_err() {
                return Err(ChessError::DuplicateCastlingRight);
            }
            is_file = true;
            d2 = marks.dfrc;
        } else {
            return Err(ChessError::InvalidCastlingRights);
        }
        if king_file != 4 {
            d2 = true;
        }
        Ok((is_file, d2))
    }

    /// Parses the castling rights of a FEN: `-`, `KQkq`-style letters (the outermost rook) or the
    /// files of the castling rooks (Shredder FEN). In strict mode, `K` and `Q` need the king on the
    /// e-file and the rook in the corner.
    pub fn parse_castling_rights(&mut self, rights: &[char], strictness: Strictness) -> (r: Result<
        (),
        ChessError,
    >)
        requires
            old(self).castling.wf(),
        ensures
            final(self).castling.wf(),
            final(self).piece_bbs == old(self).piece_bbs,
            final(self).color_bbs == old(self).color_bbs,
            final(self).active_player == old(self).active_player,
            final(self).ep_square == old(self).ep_square,
            final(self).ply == old(self).ply,
            final(self).ply_100_ctr == old(self).ply_100_ctr,
            final(self).hash == old(self).hash,
            match spec_parse_castling_rights(*old(self), rights@, strictness == Strictness::Strict) {
                Ok((flags, settings)) => r is Ok && final(self).castling == flags && final(self).settings
                    == settings,
                Err(e) => r == Err::<(), ChessError>(e),
            },
    {
        let ghost b0 = *self;
        let strict = strictness == Strictness::Strict;
        self.castling = crate::castling::CastlingFlags::new();
        proof {
            crate::castling::CastlingFlags::lemma_ext(
                self.castling,
                CastlingFlags {
                    white_queenside: None,
                    white_kingside: None,
                    black_queenside: None,
                    black_kingside: None,
                },
            );
        }
        if rights.len() == 1 && rights[0] == '-' {
            return Ok(());
        }
        if rights.len() == 0 || rights.len() > 4 {
            return Err(ChessError::InvalidCastlingRights);
        }
        let mut shredder = true;
        let mut dfrc = false;
        let mut i: usize = 0;
        while i < rights.len()
            invariant
                i <= rights@.len(),
                b0 == *old(self),
                self.castling.wf(),
                self.piece_bbs == b0.piece_bbs,
                self.color_bbs == b0.color_bbs,
                self.active_player == b0.active_player,
                self.ep_square == b0.ep_square,
                self.ply == b0.ply,
                self.ply_100_ctr == b0.ply_100_ctr,
                self.hash == b0.hash,
                self.settings == b0.settings,
                strict == (strictness == Strictness::Strict),
                spec_parse_castling_rights(b0, rights@, strict) == (match spec_castling_chars_from(
                    b0,
                    rights@,
                    i as int,
                    strict,
                    self.castling,
                    shredder,
                    dfrc,
                ) {
                    Err(e) => Err(e),
                    Ok((flags, sh, d)) => Ok((flags, ChessSettings { shredder_fen: sh, dfrc: d })),
                }),
            decreases rights@.len() - i,
        {
            let c = rights[i];
            let (is_file, d2) = self.read_castling_char(c, strict, Ghost(b0))?;
            shredder = shredder && is_file;
            dfrc = dfrc || d2;
            i = i + 1;
        }
        self.settings = crate::chessboard::ChessSettings { shredder_fen: shredder, dfrc };
        Ok(())
    }

    /// The lowercase character of a castling right in a FEN: the rook's file for Shredder FEN or
    /// when another rook stands between it and its corner, else `k` or `q`.
    fn castling_right_char(&self, color: ChessColor, side: CastleRight) -> (c: char)
        requires
            self.castling.wf(),
        ensures
            c == spec_castling_right_char(*self, color, side),
    {
        let rook_file = self.castling.rook_start_file(color, side);
        let file_char = file_to_char(rook_file);
        if self.settings.shredder_fen {
            return file_char;
        }
        let rank = Chessboard::backrank(color);
        let rooks = self.colored_piece_bb(color, ChessPieceType::Rook);
        let (lo, hi): (u8, u8) = match side {
            CastleRight::Queenside => (0, rook_file),
            CastleRight::Kingside => (rook_file + 1, 8),
        };
        let mut f = lo;
        while f < hi
            invariant
                lo <= f <= hi,
                hi <= 8,
                rank == 7 * color.spec_idx(),
                rooks == self.spec_colored_piece_bb(color, ChessPieceType::Rook),
                !self.settings.shredder_fen,
                rook_file == self.spec_rook_start_file(color, side),
                file_char as int == rook_file + 97,
                side == CastleRight::Queenside ==> lo == 0 && hi == rook_file,
                side == CastleRight::Kingside ==> lo == rook_file + 1 && hi == 8,
                forall|g: int| lo <= g < f ==> !#[trigger] spec_rook_on(*self, color, g),
            decreases hi - f,
        {
            if has_bit(rooks, ChessSquare::from_rank_file(rank, f).idx) {
                assert(spec_rook_on(*self, color, f as int));
                assert(spec_rook_between(*self, color, lo as int, hi as int));
                return file_char;
            }
            f = f + 1;
        }
        assert(!spec_rook_between(*self, color, lo as int, hi as int));
        match side {
            CastleRight::Queenside => 'q',
            CastleRight::Kingside => 'k',
        }
    }

    /// The FEN of the position. Castling rights are given as `KQkq` or as the files of the rooks
    /// (see [`Self::castling_right_char`]; uppercase for White, White first, kingside first), the
    /// en passant square only if it is set.
    /// Appends the piece placement of the FEN.
    fn push_fen_rows(&self, out: &mut Vec<char>)
        ensures
            final(out)@ == old(out)@ + spec_fen_rows(*self, 8),
    {
        let ghost start = out@;
        let mut rank: u8 = 8;
        while rank > 0
            invariant
                rank <= 8,
                out@ == start + spec_fen_rows(*self, 8 - rank),
            decreases rank,
        {
            rank = rank - 1;
            let ghost base = out@;
            let mut empty: usize = 0;
            let mut file: u8 = 0;
            while file < 8
                invariant
                    file <= 8,
                    rank < 8,
                    empty <= file,
                    base + spec_fen_row(*self, rank as int, 0, 0) == out@ + spec_fen_row(
                        *self,
                        rank as int,
                        file as int,
                        empty as nat,
                    ),
                decreases 8 - file,
            {
                let sq = ChessSquare::from_rank_file(rank, file);
                let piece = self.colored_piece_on(sq);
                if piece == ColoredChessPieceType::Empty {
                    assert(crate::chessboard::spec_piece_type_at(self.piece_bbs, sq.idx as u64)
                        == ChessPieceType::Empty);
                    empty = empty + 1;
                } else {
                    let ghost before = out@;
                    let ghost e0 = empty as nat;
                    if empty > 0 {
                        push_decimal(out, empty);
                    }
                    assert(out@ == before + spec_empty_run(e0));
                    let ch = piece.to_ascii_char();
                    assert(ch == spec_fen_piece_char(*self, sq_at(file as int, rank as int)));
                    out.push(ch);
                    empty = 0;
                    assert(spec_fen_row(*self, rank as int, file as int, e0) == spec_empty_run(e0)
                        + seq![ch] + spec_fen_row(*self, rank as int, file + 1, 0));
                    assert(out@ + spec_fen_row(*self, rank as int, file + 1, 0) == before
                        + spec_fen_row(*self, rank as int, file as int, e0));
                }
                file = file + 1;
            }
            let ghost before = out@;
            if empty > 0 {
                push_decimal(out, empty);
            }
            assert(out@ == before + spec_empty_run(empty as nat));
            if rank > 0 {
                out.push('/');
            }
            assert(out@ == start + spec_fen_rows(*self, 8 - rank));
        }
    }

    /// Appends the castling rights of the FEN.
    fn push_fen_castling(&self, out: &mut Vec<char>)
        requires
            self.castling.wf(),
        ensures
            final(out)@ == old(out)@ + spec_fen_castling(*self),
    {
        let ghost before_castling = out@;
        let mut any = false;
        let mut c: usize = 0;
        while c < 2
            invariant
                c <= 2,
                self.castling.wf(),
                out@ == before_castling + spec_castling_parts_upto(*self, 2 * c),
                any == (spec_castling_parts_upto(*self, 2 * c).len() > 0),
            decreases 2 - c,
        {
            let color = ChessColor::from_idx(c);
            let mut s: usize = 0;
            while s < 2
                invariant
                    s <= 2,
                    c < 2,
                    color == ChessColor::spec_from_idx(c as int),
                    self.castling.wf(),
                    out@ == before_castling + spec_castling_parts_upto(*self, 2 * c + s),
                    any == (spec_castling_parts_upto(*self, 2 * c + s).len() > 0),
                decreases 2 - s,
            {
                let side = if s == 0 {
                    CastleRight::Kingside
                } else {
                    CastleRight::Queenside
                };
                if self.castling.can_castle(color, side) {
                    any = true;
                    let c = self.castling_right_char(color, side);
                    out.push(
                        if color == ChessColor::White {
                            crate::pieces::to_ascii_upper(c)
                        } else {
                            c
                        },
                    );
                }
                s = s + 1;
            }
            c = c + 1;
        }
        if !any {
            out.push('-');
        }
        assert(spec_castling_parts_upto(*self, 4) == spec_castling_part(*self, ChessColor::White, CastleRight::Kingside) + spec_castling_part(
            *self,
            ChessColor::White,
            CastleRight::Queenside,
        ) + spec_castling_part(*self, ChessColor::Black, CastleRight::Kingside) + spec_castling_part(
            *self,
            ChessColor::Black,
            CastleRight::Queenside,
        )) by {
            reveal_with_fuel(spec_castling_parts_upto, 5);
        }
    }

    #[verifier::rlimit(40)]
    pub fn as_fen(&self) -> (r: String)
        requires
            self.castling.wf(),
            self.ep_square.is_some() ==> self.ep_square.unwrap().wf(),
        ensures
            r@ == spec_fen(*self),
    {
        let mut out: Vec<char> = Vec::new();
        self.push_fen_rows(&mut out);
        out.push(' ');
        out.push(self.active_player.ascii_color_char());
        out.push(' ');
        self.push_fen_castling(&mut out);
        out.push(' ');
        match self.ep_square {
            Some(sq) => {
                out.push(sq.file_char());
                out.push(sq.rank_char());
            },
            None => {
                out.push('-');
            },
        }
        out.push(' ');
        push_decimal(&mut out, self.ply_100_ctr);
        out.push(' ');
        if self.ply < usize::MAX {
            push_decimal(&mut out, self.fullmove_ctr_1_based());
        }
        assert(out@ == spec_fen(*self));
        string_from_chars(out.as_slice())
    }

    /// Checks the en passant square against the rest of the position; an invalid one is an error,
    /// or is dropped when reading a FEN in relaxed mode.
    fn check_ep(&mut self, strictness: Strictness, checks: SelfChecks) -> (r: Result<(), ChessError>)
        requires
            old(self).castling.wf(),
        ensures
            final(self).piece_bbs == old(self).piece_bbs,
            final(self).color_bbs == old(self).color_bbs,
            final(self).castling == old(self).castling,
            final(self).active_player == old(self).active_player,
            final(self).ply == old(self).ply,
            final(self).ply_100_ctr == old(self).ply_100_ctr,
            r.is_ok() ==> (final(self).ep_square.is_some() ==> final(self).ep_square.unwrap().wf()),
            r.is_ok() && final(self).ep_square.is_some() ==> !bit(
                final(self).spec_occupied(),
                final(self).ep_square.unwrap().idx as u64,
            ),
            r.is_ok() && final(self).ep_square.is_some() ==> bit(
                final(self).spec_colored_piece_bb(
                    final(self).active_player.spec_other(),
                    ChessPieceType::Pawn,
                ),
                final(self).spec_ep_victim() as u64,
            ),
            final(self).ep_square.is_some() ==> final(self).ep_square == old(self).ep_square,
            r.is_err() ==> r == Err::<(), ChessError>(ChessError::InvalidEpSquare),
            old(self).ep_square.is_none() ==> r.is_ok() && *final(self) == *old(self),
            final(self).hash == old(self).hash,
            final(self).settings == old(self).settings,
            match spec_check_ep(
                *old(self),
                strictness == Strictness::Relaxed && checks == SelfChecks::CheckFen,
            ) {
                Ok(ep) => r is Ok && *final(self) == (Chessboard { ep_square: ep, ..*old(self) }),
                Err(e) => r == Err::<(), ChessError>(e),
            },
    {
        reveal(spec_check_ep);
        let ghost b0 = *self;
        let ghost drop_ok = strictness == Strictness::Relaxed && checks == SelfChecks::CheckFen;
        let ep = match self.ep_square {
            None => {
                return Ok(());
            },
            Some(sq) => sq,
        };
        if ep.idx >= 64 {
            return Err(ChessError::InvalidEpSquare);
        }
        let active = self.active_player;
        let inactive = active.other();
        let white_active = active == ChessColor::White;
        if (white_active && ep.rank() != 5) || (!white_active && ep.rank() != 2) {
            return Err(ChessError::InvalidEpSquare);
        }
        let remove_pawn_sq = ep.pawn_advance_unchecked(!white_active);
        let pawn_origin_sq = ep.pawn_advance_unchecked(white_active);
        if !self.is_empty(ep) {
            return Err(ChessError::InvalidEpSquare);
        }
        if !has_bit(self.colored_piece_bb(inactive, ChessPieceType::Pawn), remove_pawn_sq.idx) {
            return Err(ChessError::InvalidEpSquare);
        }
        if !self.is_empty(pawn_origin_sq) {
            return Err(ChessError::InvalidEpSquare);
        }
        let checkers = self.checkers();
        let num_checkers = num_ones(checkers);
        if num_checkers > 1 {
            return Err(ChessError::InvalidEpSquare);
        }
        if num_checkers == 1 {
            let before = (self.occupied_bb() & !remove_pawn_sq.bb()) | pawn_origin_sq.bb();
            let king = self.king_square(active);
            let attacks_before = self.all_attacking(king, ChessSliderGenerator::new(before));
            if attacks_before & self.colored_bb(inactive) & !remove_pawn_sq.bb() != 0 {
                return Err(ChessError::InvalidEpSquare);
            }
        }
        let capturing = crate::chessboard::Board::single_pawn_captures(inactive, ep)
            & self.colored_piece_bb(active, ChessPieceType::Pawn);
        if capturing == 0 {
            if strictness == Strictness::Strict || checks != SelfChecks::CheckFen {
                return Err(ChessError::InvalidEpSquare);
            }
            self.ep_square = None;
            return Ok(());
        }
        let mut legal = false;
        let mut cands = capturing;
        while cands != 0
            invariant
                ep.wf(),
                remove_pawn_sq.wf(),
                forall|d: u64| d < 64 && #[trigger] bit(cands, d) ==> bit(capturing, d),
                legal == exists|d: u64|
                    d < 64 && #[trigger] bit(capturing, d) && !bit(cands, d)
                        && crate::make_move::spec_ep_capture_is_legal(
                        *self,
                        d as int,
                        ep.idx as int,
                        remove_pawn_sq.idx as int,
                    ),
            decreases cands,
        {
            let ghost old_c = cands;
            let ghost old_legal = legal;
            let (i, rest) = crate::bits::pop_lsb(cands);
            cands = rest;
            assert(forall|d: u64| d < 64 ==> #[trigger] bit(cands, d) == (bit(old_c, d) && d != i));
            let ok = self.ep_capture_is_legal(ChessSquare::from_bb_idx(i as usize), ep, remove_pawn_sq);
            if ok {
                legal = true;
            }
            proof {
                if ok {
                    assert(bit(capturing, i as u64) && !bit(cands, i as u64));
                }
                if legal && !ok {
                    let d = choose|d: u64|
                        d < 64 && #[trigger] bit(capturing, d) && !bit(old_c, d)
                            && crate::make_move::spec_ep_capture_is_legal(
                            *self,
                            d as int,
                            ep.idx as int,
                            remove_pawn_sq.idx as int,
                        );
                    assert(!bit(cands, d));
                }
                if !legal {
                    assert forall|d: u64|
                        d < 64 && #[trigger] bit(capturing, d) && !bit(cands, d) implies !crate::make_move::spec_ep_capture_is_legal(
                        *self,
                        d as int,
                        ep.idx as int,
                        remove_pawn_sq.idx as int,
                    ) by {
                        if d != i {
                            assert(!bit(old_c, d));
                        }
                    }
                }
            }
        }
        proof {
            assert forall|d: u64| d < 64 implies !#[trigger] bit(cands, d) by {
                crate::bits::lemma_bit_zero(d);
            }
        }
        if !legal || checkers & !remove_pawn_sq.bb() != 0 {
            if strictness == Strictness::Strict || checks != SelfChecks::CheckFen {
                return Err(ChessError::InvalidEpSquare);
            }
            self.ep_square = None;
        }
        Ok(())
    }
}

/// Number of pieces of each type in the starting position.
fn startpos_count(p: usize) -> (r: usize)
    ensures
        r == (if p == 0 {
            8usize
        } else if p <= 3 {
            2usize
        } else {
            1usize
        }),
{
    if p == 0 {
        8
    } else if p <= 3 {
        2
    } else {
        1
    }
}

/// The error of the castling right of `c` on `side`: its rook must stand on its square and the
/// king on its back rank.
pub open spec fn spec_castling_error(b: Chessboard, c: ChessColor, side: CastleRight) -> Option<ChessError> {
    if b.castling.right(c, side).is_none() {
        None
    } else if !bit(
        b.spec_colored_piece_bb(c, ChessPieceType::Rook),
        b.spec_rook_start_square(c, side) as u64,
    ) {
        Some(ChessError::NoCastlingRook)
    } else if crate::squares::rank_of(b.spec_king_square(c)) != 7 * c.spec_idx() {
        Some(ChessError::KingNotOnBackrank)
    } else {
        None
    }
}

/// The first error in the pieces of `c`: not exactly one king, a pawn on the first or last rank, a
/// castling right without its rook or with the king off its back rank.
pub open spec fn spec_color_error(b: Chessboard, c: ChessColor) -> Option<ChessError> {
    if pop_count(b.spec_colored_piece_bb(c, ChessPieceType::King)) != 1 {
        Some(ChessError::NotExactlyOneKing)
    } else if b.spec_colored_piece_bb(c, ChessPieceType::Pawn) & 0xff00_0000_0000_00ff != 0 {
        Some(ChessError::PawnOnBackrank)
    } else if spec_castling_error(b, c, CastleRight::Queenside).is_some() {
        spec_castling_error(b, c, CastleRight::Queenside)
    } else {
        spec_castling_error(b, c, CastleRight::Kingside)
    }
}

/// The first error in the arrangement of the pieces: overlapping bitboards, then the errors of
/// white's and of black's pieces.
pub open spec fn spec_structure_error(b: Chessboard) -> Option<ChessError> {
    if !b.bitboards_consistent() {
        Some(ChessError::OverlappingPieces)
    } else if spec_color_error(b, ChessColor::White).is_some() {
        spec_color_error(b, ChessColor::White)
    } else {
        spec_color_error(b, ChessColor::Black)
    }
}

/// The number of pieces of `c` of the piece type with index `p`.
pub open spec fn spec_count(b: Chessboard, c: ChessColor, p: int) -> nat {
    pop_count(b.color_bbs[c.spec_idx()] & b.piece_bbs[p])
}

/// How many pieces of type `p` of one color exceed the number in the starting position.
pub open spec fn spec_excess(n: nat, p: int) -> nat {
    let start: nat = if p == 0 {
        8
    } else if p <= 3 {
        2
    } else {
        1
    };
    if n > start {
        (n - start) as nat
    } else {
        0
    }
}

/// The pieces of `c` that must have come from promotions: the excess over the starting position
/// summed over the piece types below `p`.
pub open spec fn spec_promoted(b: Chessboard, c: ChessColor, p: int) -> nat
    decreases p,
{
    if p <= 0 {
        0
    } else {
        spec_promoted(b, c, p - 1) + spec_excess(spec_count(b, c, p - 1), p - 1)
    }
}

/// The first error in the number of pieces of `c`: more than 20 of one type, or (strictly) more
/// promoted pieces than missing pawns.
pub open spec fn spec_count_error(b: Chessboard, c: ChessColor, strict: bool) -> Option<ChessError> {
    if exists|p: int| 0 <= p < 6 && #[trigger] spec_count(b, c, p) > 20 {
        Some(ChessError::TooManyPieces)
    } else if strict && spec_promoted(b, c, 6) + spec_count(b, c, 0) > 8 {
        Some(ChessError::IncorrectPieceDistribution)
    } else {
        None
    }
}

/// The first error found after the en passant square: the player not to move in check, more than
/// two checkers (strictly), a halfmove clock of 100 or more, a ply of 100000 or more, a halfmove
/// clock above the ply (strictly), then the piece counts of white and of black.
pub open spec fn spec_late_error(b: Chessboard, strict: bool) -> Option<ChessError> {
    let inactive = b.active_player.spec_other();
    let checkers = crate::movegen::spec_all_attacking(
        b,
        b.spec_king_square(b.active_player),
        b.spec_occupied(),
    ) & b.spec_colored_bb(inactive);
    if crate::movegen::spec_in_check_on(b, inactive, b.spec_king_square(inactive)) {
        Some(ChessError::InactivePlayerInCheck)
    } else if strict && pop_count(checkers) > 2 {
        Some(ChessError::TooManyCheckers)
    } else if b.ply_100_ctr >= 100 {
        Some(ChessError::HalfmoveClockTooLarge)
    } else if b.ply >= 100_000 {
        Some(ChessError::PlyTooLarge)
    } else if strict && b.ply_100_ctr > b.ply {
        Some(ChessError::HalfmoveClockLargerThanPly)
    } else if spec_count_error(b, ChessColor::White, strict).is_some() {
        spec_count_error(b, ChessColor::White, strict)
    } else {
        spec_count_error(b, ChessColor::Black, strict)
    }
}

proof fn lemma_promoted_frame(a: Chessboard, b: Chessboard, c: ChessColor, p: int)
    requires
        a.piece_bbs == b.piece_bbs,
        a.color_bbs == b.color_bbs,
    ensures
        spec_promoted(a, c, p) == spec_promoted(b, c, p),
    decreases p,
{
    if p > 0 {
        lemma_promoted_frame(a, b, c, p - 1);
    }
}

/// The checks after the en passant square depend neither on it nor on the hash.
proof fn lemma_late_error_frame(a: Chessboard, b: Chessboard, strict: bool)
    requires
        a.piece_bbs == b.piece_bbs,
        a.color_bbs == b.color_bbs,
        a.active_player == b.active_player,
        a.ply == b.ply,
        a.ply_100_ctr == b.ply_100_ctr,
    ensures
        spec_late_error(a, strict) == spec_late_error(b, strict),
{
    crate::movegen::lemma_all_attacking_frame(a, b);
    assert forall|c: ChessColor, p: int| #[trigger] spec_count(a, c, p) == spec_count(b, c, p) by {}
    assert forall|c: ChessColor| #[trigger] spec_count_error(a, c, strict) == spec_count_error(b, c, strict) by {
        if exists|p: int| 0 <= p < 6 && #[trigger] spec_count(a, c, p) > 20 {
            let p = choose|p: int| 0 <= p < 6 && #[trigger] spec_count(a, c, p) > 20;
            assert(spec_count(b, c, p) > 20);
        }
        if exists|p: int| 0 <= p < 6 && #[trigger] spec_count(b, c, p) > 20 {
            let p = choose|p: int| 0 <= p < 6 && #[trigger] spec_count(b, c, p) > 20;
            assert(spec_count(a, c, p) > 20);
        }
        lemma_promoted_frame(a, b, c, 6);
    }
}

impl UnverifiedChessboard {
    /// Whether the bitboards are consistent: disjoint colors, disjoint piece types, and the same
    /// occupied squares in both.
    fn bitboards_are_consistent(&self) -> (r: bool)
        ensures
            r == self.0.bitboards_consistent(),
    {
        let this = &self.0;
        if this.color_bbs[0] & this.color_bbs[1] != 0 {
            return false;
        }
        let mut i: usize = 0;
        while i < 6
            invariant
                *this == self.0,
                i <= 6,
                forall|a: int, b: int|
                    0 <= a < b < i ==> #[trigger] this.piece_bbs[a] & #[trigger] this.piece_bbs[b]
                        == 0,
            decreases 6 - i,
        {
            let mut j: usize = 0;
            while j < i
                invariant
                    *this == self.0,
                *this == self.0,
                    j <= i < 6,
                    forall|a: int, b: int|
                        0 <= a < b < i ==> #[trigger] this.piece_bbs[a]
                            & #[trigger] this.piece_bbs[b] == 0,
                    forall|a: int| 0 <= a < j ==> #[trigger] this.piece_bbs[a] & this.piece_bbs[i as int] == 0,
                decreases i - j,
            {
                if this.piece_bbs[j] & this.piece_bbs[i] != 0 {
                    assert(!(0 <= j < i < 6 ==> this.piece_bbs[j as int] & this.piece_bbs[i as int] == 0));
                    return false;
                }
                j = j + 1;
            }
            i = i + 1;
        }
        this.piece_bbs[0] | this.piece_bbs[1] | this.piece_bbs[2] | this.piece_bbs[3]
            | this.piece_bbs[4] | this.piece_bbs[5] == this.color_bbs[0] | this.color_bbs[1]
    }

    /// The first error in the pieces of `color` (see [`spec_color_error`]).
    fn color_error(&self, color: ChessColor) -> (r: Option<ChessError>)
        requires
            self.0.castling.wf(),
        ensures
            r == spec_color_error(self.0, color),
    {
        let this = &self.0;
        if num_ones(this.colored_piece_bb(color, ChessPieceType::King)) != 1 {
            return Some(ChessError::NotExactlyOneKing);
        }
        let pawns = this.colored_piece_bb(color, ChessPieceType::Pawn);
        if pawns & 0xff00_0000_0000_00ff != 0 {
            return Some(ChessError::PawnOnBackrank);
        }
        let mut s: usize = 0;
        while s < 2
            invariant
                *this == self.0,
                s <= 2,
                this.castling.wf(),
                s >= 1 ==> spec_castling_error(*this, color, CastleRight::Queenside) is None,
                s >= 2 ==> spec_castling_error(*this, color, CastleRight::Kingside) is None,
                pop_count(this.spec_colored_piece_bb(color, ChessPieceType::King)) == 1,
                this.spec_colored_piece_bb(color, ChessPieceType::Pawn) & 0xff00_0000_0000_00ff == 0,
            decreases 2 - s,
        {
            let side = if s == 0 {
                CastleRight::Queenside
            } else {
                CastleRight::Kingside
            };
            if this.castling.can_castle(color, side) {
                let rook = this.rook_start_square(color, side);
                if !has_bit(this.colored_piece_bb(color, ChessPieceType::Rook), rook.idx) {
                    return Some(ChessError::NoCastlingRook);
                }
                let king = this.king_square(color);
                if king.rank() != Chessboard::backrank(color) {
                    return Some(ChessError::KingNotOnBackrank);
                }
            }
            assert(spec_castling_error(*this, color, side) is None);
            s = s + 1;
        }
        None
    }

    /// The first error in the number of pieces of `color` (see [`spec_count_error`]).
    fn count_error(&self, color: ChessColor, strict: bool) -> (r: Option<ChessError>)
        ensures
            r == spec_count_error(self.0, color, strict),
    {
        let this = &self.0;
        let mut promoted: usize = 0;
        let mut p: usize = 0;
        while p < 6
            invariant
                *this == self.0,
                p <= 6,
                promoted == spec_promoted(*this, color, p as int),
                promoted <= 20 * p,
                forall|q: int| 0 <= q < p ==> #[trigger] spec_count(*this, color, q) <= 20,
            decreases 6 - p,
        {
            let n = num_ones(this.colored_piece_bb(color, ChessPieceType::from_idx(p))) as usize;
            assert(n == spec_count(*this, color, p as int));
            if n > 20 {
                return Some(ChessError::TooManyPieces);
            }
            let start = startpos_count(p);
            if n > start {
                promoted = promoted + (n - start);
            }
            assert(spec_promoted(*this, color, p + 1) == spec_promoted(*this, color, p as int)
                + spec_excess(spec_count(*this, color, p as int), p as int));
            p = p + 1;
        }
        let pawns = num_ones(this.colored_piece_bb(color, ChessPieceType::Pawn)) as usize;
        assert(pawns == spec_count(*this, color, 0));
        if strict && promoted + pawns > 8 {
            return Some(ChessError::IncorrectPieceDistribution);
        }
        None
    }

    /// The first error found after the en passant square (see [`spec_late_error`]).
    fn late_error(&self, strictness: Strictness) -> (r: Option<ChessError>)
        ensures
            r == spec_late_error(self.0, strictness == Strictness::Strict),
    {
        let this = &self.0;
        let inactive = this.active_player.other();
        if this.is_in_check_on_square(inactive, this.king_square(inactive)) {
            return Some(ChessError::InactivePlayerInCheck);
        }
        if strictness == Strictness::Strict && num_ones(this.checkers()) > 2 {
            return Some(ChessError::TooManyCheckers);
        }
        if this.ply_100_ctr >= 100 {
            return Some(ChessError::HalfmoveClockTooLarge);
        }
        if this.ply >= 100_000 {
            return Some(ChessError::PlyTooLarge);
        }
        if strictness == Strictness::Strict && this.ply_100_ctr > this.ply {
            return Some(ChessError::HalfmoveClockLargerThanPly);
        }
        let strict = strictness == Strictness::Strict;
        if let Some(e) = self.count_error(ChessColor::White, strict) {
            return Some(e);
        }
        self.count_error(ChessColor::Black, strict)
    }

    /// Checks that the board is a valid chess position and computes its hash.
    pub fn verify_with_level(self, checks: SelfChecks, strictness: Strictness) -> (r: Result<
        Chessboard,
        ChessError,
    >)
        requires
            self.0.castling.wf(),
        ensures
            r.is_ok() ==> r.unwrap().wf(),
            r == spec_verify(
                self.0,
                strictness == Strictness::Strict,
                strictness == Strictness::Relaxed && checks == SelfChecks::CheckFen,
            ),
    {
        reveal(spec_verify);
        if !self.bitboards_are_consistent() {
            return Err(ChessError::OverlappingPieces);
        }
        if let Some(e) = self.color_error(ChessColor::White) {
            return Err(e);
        }
        if let Some(e) = self.color_error(ChessColor::Black) {
            return Err(e);
        }
        let mut this = self.0;
        this.check_ep(strictness, checks)?;
        proof {
            lemma_late_error_frame(this, self.0, strictness == Strictness::Strict);
        }
        if let Some(e) = UnverifiedChessboard(this).late_error(strictness) {
            return Err(e);
        }
        let ghost before = this;
        this.hash = this.compute_zobrist();
        proof {
            crate::chessboard::lemma_zobrist_frame(this, before);
        }
        Ok(this)
    }

    /// Checks that the board is a valid chess position.
    pub fn verify(self, strictness: Strictness) -> (r: Result<Chessboard, ChessError>)
        requires
            self.0.castling.wf(),
        ensures
            r.is_ok() ==> r.unwrap().wf(),
            r == spec_verify(self.0, strictness == Strictness::Strict, false),
    {
        self.verify_with_level(SelfChecks::Verify, strictness)
    }
}

impl Chessboard {
    /// Parses a FEN. The halfmove clock and move number may be missing in relaxed mode.
    pub fn from_fen(fen: &str, strictness: Strictness) -> (r: Result<Chessboard, ChessError>)
        ensures
            r.is_ok() ==> r.unwrap().wf(),
            match spec_fen_board(crate::text::spec_words(fen@), 0, strictness == Strictness::Strict) {
                Err(e) => r == Err::<Chessboard, ChessError>(e),
                Ok(b) => r == spec_verify(b, strictness == Strictness::Strict, strictness == Strictness::Relaxed),
            },
    {
        let chars = str_chars(fen);
        let words = split_words(chars.as_slice());
        Self::read_fen_words(&words, 0, strictness)
    }

    /// Parses a FEN given as words, starting at word `start`.
    #[verifier::rlimit(80)]
    pub fn read_fen_words(words: &Vec<Vec<char>>, start: usize, strictness: Strictness) -> (r: Result<
        Chessboard,
        ChessError,
    >)
        ensures
            r.is_ok() ==> r.unwrap().wf(),
            match spec_fen_board(crate::text::spec_views(words@), start as int, strictness == Strictness::Strict) {
                Err(e) => r == Err::<Chessboard, ChessError>(e),
                Ok(b) => r == spec_verify(b, strictness == Strictness::Strict, strictness == Strictness::Relaxed),
            },
    {
        let ghost ws = crate::text::spec_views(words@);
        if start >= words.len() {
            return Err(ChessError::EmptyInput);
        }
        if words.len() - start < 4 {
            return Err(ChessError::MissingFenPart);
        }
        assert(ws[start as int] == words@[start as int]@);
        assert(ws[start + 1] == words@[start + 1]@);
        assert(ws[start + 2] == words@[start + 2]@);
        assert(ws[start + 3] == words@[start + 3]@);
        let board = read_position(words[start].as_slice(), UnverifiedChessboard::empty())?;
        let color = match parse_color(words[start + 1].as_slice()) {
            Some(c) => c,
            None => {
                return Err(ChessError::InvalidColor);
            },
        };
        let mut b = board.0;
        b.active_player = color;
        b.parse_castling_rights(words[start + 2].as_slice(), strictness)?;
        let ep_word = words[start + 3].as_slice();
        if ep_word.len() == 1 && ep_word[0] == '-' {
            b.ep_square = None;
        } else if ep_word.len() == 2 {
            match ChessSquare::from_chars(ep_word[0], ep_word[1]) {
                Some(sq) => {
                    b.ep_square = Some(sq);
                },
                None => {
                    return Err(ChessError::InvalidSquare);
                },
            }
        } else {
            return Err(ChessError::InvalidSquare);
        }
        let halfmove = if words.len() - start > 4 {
            assert(ws[start + 4] == words@[start + 4]@);
            parse_usize(words[start + 4].as_slice())
        } else {
            None
        };
        match halfmove {
            Some(h) => {
                if words.len() - start <= 5 {
                    return Err(ChessError::MissingFenPart);
                }
                assert(ws[start + 5] == words@[start + 5]@);
                let fullmove = match parse_usize(words[start + 5].as_slice()) {
                    Some(n) => n,
                    None => {
                        return Err(ChessError::InvalidNumber);
                    },
                };
                if fullmove == 0 {
                    return Err(ChessError::InvalidNumber);
                }
                if fullmove > 100_000 {
                    return Err(ChessError::PlyTooLarge);
                }
                b.ply_100_ctr = h;
                b.ply = (fullmove - 1) * 2 + if color == ChessColor::Black {
                    1
                } else {
                    0
                };
            },
            None => {
                if strictness == Strictness::Strict {
                    return Err(ChessError::MissingFenPart);
                }
                b.ply_100_ctr = 0;
                b.ply = if color == ChessColor::Black {
                    1
                } else {
                    0
                };
            },
        }
        UnverifiedChessboard(b).verify_with_level(SelfChecks::CheckFen, strictness)
    }

    /// The standard chess starting position.
    pub fn startpos() -> (r: Chessboard)
        ensures
            r.wf(),
            r.active_player == ChessColor::White,
            r.ply == 0,
            r.ply_100_ctr == 0,
            r.ep_square.is_none(),
            r == spec_startpos(),
    {
        let mut b = Chessboard {
            piece_bbs: [
                0x00ff_0000_0000_ff00,
                0x4200_0000_0000_0042,
                0x2400_0000_0000_0024,
                0x8100_0000_0000_0081,
                0x0800_0000_0000_0008,
                0x1000_0000_0000_0010,
            ],
            color_bbs: [0xffff, 0xffff_0000_0000_0000],
            ply: 0,
            ply_100_ctr: 0,
            active_player: ChessColor::White,
            castling: CastlingFlags {
                white_queenside: Some(0),
                white_kingside: Some(7),
                black_queenside: Some(0),
                black_kingside: Some(7),
            },
            ep_square: None,
            hash: crate::games::PosHash(0),
            settings: crate::chessboard::ChessSettings { shredder_fen: false, dfrc: false },
        };
        proof {
            assert(0xffffu64 & 0xffff_0000_0000_0000u64 == 0) by (bit_vector);
            assert(0x00ff_0000_0000_ff00u64 | 0x4200_0000_0000_0042u64 | 0x2400_0000_0000_0024u64
                | 0x8100_0000_0000_0081u64 | 0x0800_0000_0000_0008u64 | 0x1000_0000_0000_0010u64
                == 0xffffu64 | 0xffff_0000_0000_0000u64) by (bit_vector);
            assert(0x00ff_0000_0000_ff00u64 & 0x4200_0000_0000_0042u64 == 0
                && 0x00ff_0000_0000_ff00u64 & 0x2400_0000_0000_0024u64 == 0
                && 0x00ff_0000_0000_ff00u64 & 0x8100_0000_0000_0081u64 == 0
                && 0x00ff_0000_0000_ff00u64 & 0x0800_0000_0000_0008u64 == 0
                && 0x00ff_0000_0000_ff00u64 & 0x1000_0000_0000_0010u64 == 0
                && 0x4200_0000_0000_0042u64 & 0x2400_0000_0000_0024u64 == 0
                && 0x4200_0000_0000_0042u64 & 0x8100_0000_0000_0081u64 == 0
                && 0x4200_0000_0000_0042u64 & 0x0800_0000_0000_0008u64 == 0
                && 0x4200_0000_0000_0042u64 & 0x1000_0000_0000_0010u64 == 0
                && 0x2400_0000_0000_0024u64 & 0x8100_0000_0000_0081u64 == 0
                && 0x2400_0000_0000_0024u64 & 0x0800_0000_0000_0008u64 == 0
                && 0x2400_0000_0000_0024u64 & 0x1000_0000_0000_0010u64 == 0
                && 0x8100_0000_0000_0081u64 & 0x0800_0000_0000_0008u64 == 0
                && 0x8100_0000_0000_0081u64 & 0x1000_0000_0000_0010u64 == 0
                && 0x0800_0000_0000_0008u64 & 0x1000_0000_0000_0010u64 == 0) by (bit_vector);
            assert(0xffffu64 & 0x1000_0000_0000_0010u64 == 1u64 << 4u64 && 0xffff_0000_0000_0000u64
                & 0x1000_0000_0000_0010u64 == 1u64 << 60u64) by (bit_vector);
            crate::bits::lemma_pop_count_single(4);
            crate::bits::lemma_pop_count_single(60);
        }
        let ghost b0 = b;
        b.hash = b.compute_zobrist();
        proof {
            crate::chessboard::lemma_zobrist_frame(b0, spec_startpos());
        }
        b
    }
}

impl Chessboard {
    /// Checks that the position is valid at the given strictness and that its hash is the one
    /// computed from scratch.
    pub fn debug_verify_invariants(&self, strictness: Strictness) -> (r: Result<(), ChessError>)
        requires
            self.castling.wf(),
        ensures
            r == (match spec_verify(*self, strictness == Strictness::Strict, false) {
                Err(e) => Err(e),
                Ok(v) => if v.hash == self.hash {
                    Ok(())
                } else {
                    Err(ChessError::IncorrectHash)
                },
            }),
            r.is_ok() ==> self.bitboards_consistent(),
    {
        reveal(spec_verify);
        let verified = match UnverifiedChessboard(*self).verify_with_level(SelfChecks::Verify, strictness) {
            Ok(v) => v,
            Err(e) => {
                return Err(e);
            },
        };
        if verified.hash != self.hash {
            return Err(ChessError::IncorrectHash);
        }
        Ok(())
    }
}

impl Default for Chessboard {
    /// The standard chess starting position.
    fn default() -> (r: Self)
        ensures
            r.wf(),
            r.active_player == ChessColor::White,
            r.ply == 0,
            r.ply_100_ctr == 0,
            r.ep_square.is_none(),
            r == spec_startpos(),
    {
        Self::startpos()
    }
}

} // verus!
