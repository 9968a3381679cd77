//! Chess960 and Double Fischer Random Chess starting positions, and positions known by name.
use vstd::prelude::*;
use crate::bits::{bit, flip_up_down, has_bit};
use crate::castling::CastleRight;
use crate::chessboard::{Chessboard, ChessError, Strictness, UnverifiedChessboard};
use crate::fen::SelfChecks;
use crate::pieces::{ChessColor, ChessPieceType, ColoredChessPieceType};
use crate::squares::ChessSquare;
use crate::text::{chars_eq, parse_usize, str_chars, strip_prefix};

verus! {

/// The number of Chess960 starting positions.
pub const NUM_CHESS960_POSITIONS: usize = 960;

/// The index of the `i`-th (0-based) unset bit of `bb` at or after `idx`, if there is one.
pub open spec fn spec_ith_zero(i: int, bb: u64, idx: int) -> Option<u8>
    decreases 64 - idx,
{
    if idx >= 64 || idx < 0 {
        None
    } else if !bit(bb, idx as u64) {
        if i == 0 {
            Some(idx as u8)
        } else {
            spec_ith_zero(i - 1, bb, idx + 1)
        }
    } else {
        spec_ith_zero(i, bb, idx + 1)
    }
}

/// The white piece of type `piece`.
pub open spec fn spec_white(piece: ChessPieceType) -> ColoredChessPieceType {
    match piece {
        ChessPieceType::Pawn => ColoredChessPieceType::WhitePawn,
        ChessPieceType::Knight => ColoredChessPieceType::WhiteKnight,
        ChessPieceType::Bishop => ColoredChessPieceType::WhiteBishop,
        ChessPieceType::Rook => ColoredChessPieceType::WhiteRook,
        ChessPieceType::Queen => ColoredChessPieceType::WhiteQueen,
        ChessPieceType::King => ColoredChessPieceType::WhiteKing,
        ChessPieceType::Empty => ColoredChessPieceType::Empty,
    }
}

/// Placing a white `piece` on the `i`-th free square of `b`, counting from a1; with that square.
pub open spec fn spec_place_on_free(b: Chessboard, i: int, piece: ChessPieceType) -> Option<(Chessboard, u8)> {
    match spec_ith_zero(i, b.spec_occupied(), 0) {
        Some(sq) => Some((crate::chessboard::spec_place(b, sq as int, spec_white(piece)), sq)),
        None => None,
    }
}

/// Placing `k` white pawns, each on the first free square.
pub open spec fn spec_place_pawns(b: Chessboard, k: int) -> Option<Chessboard>
    decreases k,
{
    if k <= 0 {
        Some(b)
    } else {
        match spec_place_on_free(b, 0, ChessPieceType::Pawn) {
            Some((b2, _)) => spec_place_pawns(b2, k - 1),
            None => None,
        }
    }
}

/// The back rank of Chess960 starting position `num` (numbered as Scharnagl does) filled with
/// white pieces on the free squares of `b`, counting from a1: the bishops on squares of both
/// colors, the queen, the knights, then rook, king and rook on the remaining squares; with the
/// squares of the two rooks.
pub open spec fn spec_back_rank(num: int, b: Chessboard) -> Option<(Chessboard, u8, u8)> {
    let dark = (num % 4) * 2;
    let n1 = num / 4;
    let light0 = (n1 % 4) * 2 + 1;
    let n2 = n1 / 4;
    let light = if light0 >= dark {
        light0 - 1
    } else {
        light0
    };
    let queen = n2 % 6;
    let n3 = n2 / 6;
    let first_knight: int = if n3 < 4 {
        0
    } else if n3 < 7 {
        1
    } else if n3 < 9 {
        2
    } else {
        3
    };
    let second_knight: int = if n3 < 4 {
        n3
    } else if n3 < 7 {
        n3 - 3
    } else if n3 < 9 {
        n3 - 5
    } else {
        3
    };
    match spec_place_on_free(b, dark, ChessPieceType::Bishop) {
        None => None,
        Some((b1, _)) => match spec_place_on_free(b1, light, ChessPieceType::Bishop) {
            None => None,
            Some((b2, _)) => match spec_place_on_free(b2, queen, ChessPieceType::Queen) {
                None => None,
                Some((b3, _)) => match spec_place_on_free(b3, first_knight, ChessPieceType::Knight) {
                    None => None,
                    Some((b4, _)) => match spec_place_on_free(b4, second_knight, ChessPieceType::Knight) {
                        None => None,
                        Some((b5, _)) => match spec_place_on_free(b5, 0, ChessPieceType::Rook) {
                            None => None,
                            Some((b6, q_rook)) => match spec_place_on_free(b6, 0, ChessPieceType::King) {
                                None => None,
                                Some((b7, _)) => match spec_place_on_free(b7, 0, ChessPieceType::Rook) {
                                    None => None,
                                    Some((b8, k_rook)) => Some((b8, q_rook, k_rook)),
                                },
                            },
                        },
                    },
                },
            },
        },
    }
}

/// Chess960 starting position `num` set up with white pieces on the free squares of `b`: the back
/// rank, then the pawns on the next free squares; `color` gets the castling rights with the two
/// rooks. Rooks off the a- and h-files make it a DFRC position written in Shredder FEN.
pub open spec fn spec_chess960_white(num: int, color: ChessColor, b: Chessboard) -> Result<Chessboard, ChessError> {
    if num >= 960 || num < 0 {
        Err(ChessError::NoSuchStartpos)
    } else {
        match spec_back_rank(num, b) {
            None => Err(ChessError::NoSuchStartpos),
            Some((b8, q_rook, k_rook)) => match spec_place_pawns(b8, 8) {
                None => Err(ChessError::NoSuchStartpos),
                Some(b9) => if q_rook >= 8 || k_rook >= 8 {
                    Err(ChessError::NoSuchStartpos)
                } else if b9.castling.right(color, CastleRight::Queenside).is_some() {
                    Err(ChessError::NoSuchStartpos)
                } else {
                    let c1 = b9.castling.spec_set(color, CastleRight::Queenside, q_rook);
                    if c1.right(color, CastleRight::Kingside).is_some() {
                        Err(ChessError::NoSuchStartpos)
                    } else {
                        let c2 = c1.spec_set(color, CastleRight::Kingside, k_rook);
                        Ok(
                            Chessboard {
                                castling: c2,
                                settings: if q_rook != 0 || k_rook != 7 {
                                    crate::chessboard::ChessSettings { shredder_fen: true, dfrc: true }
                                } else {
                                    b9.settings
                                },
                                ..b9
                            },
                        )
                    }
                },
            },
        }
    }
}

/// `b` with its white pieces mirrored onto the other side of the board as black pieces.
pub open spec fn spec_flipped(b: Chessboard) -> Chessboard {
    Chessboard {
        piece_bbs: [
            crate::bits::spec_flip_up_down(b.piece_bbs[0]),
            crate::bits::spec_flip_up_down(b.piece_bbs[1]),
            crate::bits::spec_flip_up_down(b.piece_bbs[2]),
            crate::bits::spec_flip_up_down(b.piece_bbs[3]),
            crate::bits::spec_flip_up_down(b.piece_bbs[4]),
            crate::bits::spec_flip_up_down(b.piece_bbs[5]),
        ],
        color_bbs: [0u64, crate::bits::spec_flip_up_down(b.color_bbs[0])],
        ..b
    }
}

/// The Double Fischer Random Chess starting position with Chess960 positions `white_num` for
/// White and `black_num` for Black, before it is checked: Black's pieces are set up as white ones
/// and mirrored, then White's are added.
pub open spec fn spec_dfrc_board(white_num: int, black_num: int) -> Result<Chessboard, ChessError> {
    if white_num >= 960 {
        Err(ChessError::NoSuchStartpos)
    } else {
        match spec_chess960_white(black_num, ChessColor::Black, crate::chessboard::spec_empty_board()) {
            Err(e) => Err(e),
            Ok(b1) => spec_chess960_white(white_num, ChessColor::White, spec_flipped(b1)),
        }
    }
}

/// Whether `s` starts with `p`.
pub open spec fn spec_has_prefix(s: Seq<char>, p: Seq<char>) -> bool {
    p.len() <= s.len() && s.subrange(0, p.len() as int) == p
}

/// The numbers of White's and Black's Chess960 positions named by `name`: `chess960-N`, `chessN`,
/// `frc-N` or `frcN` for Chess960 position `N` for both, `dfrc-N` or `dfrcN` for the DFRC position
/// `N` (White's `N / 960`, Black's `N % 960`).
pub open spec fn spec_numbered_startpos(name: Seq<char>) -> Result<(int, int), ChessError> {
    if spec_has_prefix(name, "chess960-"@) {
        match crate::fen::spec_number(name.subrange("chess960-"@.len() as int, name.len() as int)) {
            Some(n) => Ok((n as int, n as int)),
            None => Err(ChessError::InvalidNumber),
        }
    } else if spec_has_prefix(name, "chess"@) {
        match crate::fen::spec_number(name.subrange("chess"@.len() as int, name.len() as int)) {
            Some(n) => Ok((n as int, n as int)),
            None => Err(ChessError::InvalidNumber),
        }
    } else if spec_has_prefix(name, "frc-"@) {
        match crate::fen::spec_number(name.subrange("frc-"@.len() as int, name.len() as int)) {
            Some(n) => Ok((n as int, n as int)),
            None => Err(ChessError::InvalidNumber),
        }
    } else if spec_has_prefix(name, "frc"@) {
        match crate::fen::spec_number(name.subrange("frc"@.len() as int, name.len() as int)) {
            Some(n) => Ok((n as int, n as int)),
            None => Err(ChessError::InvalidNumber),
        }
    } else if spec_has_prefix(name, "dfrc-"@) {
        match crate::fen::spec_number(name.subrange("dfrc-"@.len() as int, name.len() as int)) {
            Some(n) => Ok((n as int / 960, n as int % 960)),
            None => Err(ChessError::InvalidNumber),
        }
    } else if spec_has_prefix(name, "dfrc"@) {
        match crate::fen::spec_number(name.subrange("dfrc"@.len() as int, name.len() as int)) {
            Some(n) => Ok((n as int / 960, n as int % 960)),
            None => Err(ChessError::InvalidNumber),
        }
    } else {
        Err(ChessError::UnknownName)
    }
}

/// The index of the `i`-th (0-based) unset bit of `bb`, if there is one.
fn ith_zero(i: usize, bb: u64) -> (r: Option<u8>)
    ensures
        r.is_some() ==> r.unwrap() < 64,
        r == spec_ith_zero(i as int, bb, 0),
{
    let mut remaining: usize = i;
    let mut idx: u8 = 0;
    while idx < 64
        invariant
            idx <= 64,
            remaining <= i,
            spec_ith_zero(i as int, bb, 0) == spec_ith_zero(remaining as int, bb, idx as int),
        decreases 64 - idx,
    {
        if !has_bit(bb, idx) {
            if remaining == 0 {
                return Some(idx);
            }
            remaining = remaining - 1;
        }
        idx = idx + 1;
    }
    None
}

/// Places a white `piece` on the `i`-th free square, counting from a1; also returns that square.
fn place_on_free(board: UnverifiedChessboard, i: usize, piece: ChessPieceType) -> (r: Option<
    (UnverifiedChessboard, u8),
>)
    requires
        board.0.castling.wf(),
    ensures
        r.is_some() ==> r.unwrap().0.0.castling == board.0.castling && r.unwrap().1 < 64,
        match spec_place_on_free(board.0, i as int, piece) {
            Some((b, sq)) => r is Some && r.unwrap().0.0 == b && r.unwrap().1 == sq,
            None => r is None,
        },
{
    let free_sq = ith_zero(i, board.0.occupied_bb())?;
    let cp = ColoredChessPieceType::new(ChessColor::White, piece);
    let placed = board.place_piece_unchecked(ChessSquare::from_bb_idx(free_sq as usize), cp);
    assert(cp.spec_color() == spec_white(piece).spec_color());
    assert(cp.spec_uncolor() == spec_white(piece).spec_uncolor());
    Some((placed, free_sq))
}

impl Chessboard {
    /// Places the back rank of Chess960 starting position `num` (see [`spec_back_rank`]); also
    /// returns the squares of the two rooks.
    fn place_back_rank(num: usize, board: UnverifiedChessboard) -> (r: Option<(UnverifiedChessboard, u8, u8)>)
        requires
            board.0.castling.wf(),
            num < NUM_CHESS960_POSITIONS,
        ensures
            match spec_back_rank(num as int, board.0) {
                Some((b, q, k)) => r is Some && r.unwrap().0.0 == b && r.unwrap().1 == q && r.unwrap().2 == k,
                None => r is None,
            },
            r is Some ==> r.unwrap().0.0.castling == board.0.castling,
    {
        let mut n = num;
        let dark_bishop = (n % 4) * 2;
        n = n / 4;
        let mut light_bishop = (n % 4) * 2 + 1;
        n = n / 4;
        if light_bishop >= dark_bishop {
            light_bishop = light_bishop - 1;
        }
        let queen = n % 6;
        n = n / 6;
        let b = board;
        let (b, _) = match place_on_free(b, dark_bishop, ChessPieceType::Bishop) {
            Some(x) => x,
            None => return None,
        };
        let (b, _) = match place_on_free(b, light_bishop, ChessPieceType::Bishop) {
            Some(x) => x,
            None => return None,
        };
        let (b, _) = match place_on_free(b, queen, ChessPieceType::Queen) {
            Some(x) => x,
            None => return None,
        };
        let (first_knight, second_knight): (usize, usize) = if n < 4 {
            (0, n)
        } else if n < 7 {
            (1, n - 4 + 1)
        } else if n < 9 {
            (2, n - 7 + 2)
        } else {
            (3, 3)
        };
        let (b, _) = match place_on_free(b, first_knight, ChessPieceType::Knight) {
            Some(x) => x,
            None => return None,
        };
        let (b, _) = match place_on_free(b, second_knight, ChessPieceType::Knight) {
            Some(x) => x,
            None => return None,
        };
        let (b, q_rook) = match place_on_free(b, 0, ChessPieceType::Rook) {
            Some(x) => x,
            None => return None,
        };
        let (b, _) = match place_on_free(b, 0, ChessPieceType::King) {
            Some(x) => x,
            None => return None,
        };
        let (b, k_rook) = match place_on_free(b, 0, ChessPieceType::Rook) {
            Some(x) => x,
            None => return None,
        };
        Some((b, q_rook, k_rook))
    }

    /// Sets up the back rank and pawns of starting position `num` of Chess960 as white pieces on
    /// the first two ranks, with the castling rights of `color`; rooks off the a- and h-files make
    /// it a DFRC position written in Shredder FEN.
    fn chess960_startpos_white(num: usize, color: ChessColor, board: UnverifiedChessboard) -> (r:
        Result<UnverifiedChessboard, ChessError>)
        requires
            board.0.castling.wf(),
        ensures
            num >= NUM_CHESS960_POSITIONS ==> r == Err::<UnverifiedChessboard, ChessError>(
                ChessError::NoSuchStartpos,
            ),
            r.is_ok() ==> r.unwrap().0.castling.wf(),
            match spec_chess960_white(num as int, color, board.0) {
                Ok(b) => r == Ok::<UnverifiedChessboard, ChessError>(UnverifiedChessboard(b)),
                Err(e) => r == Err::<UnverifiedChessboard, ChessError>(e),
            },
    {
        if num >= NUM_CHESS960_POSITIONS {
            return Err(ChessError::NoSuchStartpos);
        }
        let (mut b, q_rook, k_rook) = match Self::place_back_rank(num, board) {
            Some(x) => x,
            None => return Err(ChessError::NoSuchStartpos),
        };
        let ghost b8 = b.0;
        let mut i: usize = 0;
        while i < 8
            invariant
                b.0.castling.wf(),
                i <= 8,
                num < NUM_CHESS960_POSITIONS,
                spec_back_rank(num as int, board.0) == Some((b8, q_rook, k_rook)),
                spec_place_pawns(b8, 8) == spec_place_pawns(b.0, 8 - i),
            decreases 8 - i,
        {
            match place_on_free(b, 0, ChessPieceType::Pawn) {
                Some((placed, _)) => b = placed,
                None => return Err(ChessError::NoSuchStartpos),
            }
            i = i + 1;
        }
        assert(spec_place_pawns(b8, 8) == Some(b.0));
        if q_rook >= 8 || k_rook >= 8 {
            return Err(ChessError::NoSuchStartpos);
        }
        let ghost b9 = b.0;
        let mut board = b;
        let mut settings = board.0.settings;
        if board.castling_rights_mut().set_castle_right(color, CastleRight::Queenside, q_rook, &mut settings).is_err() {
            return Err(ChessError::NoSuchStartpos);
        }
        if board.castling_rights_mut().set_castle_right(color, CastleRight::Kingside, k_rook, &mut settings).is_err() {
            return Err(ChessError::NoSuchStartpos);
        }
        board.0.settings = settings;
        if q_rook != 0 || k_rook != 7 {
            board.0.settings.dfrc = true;
            board.0.settings.shredder_fen = true;
        }
        Ok(board)
    }

    /// Chess960 starting position `num` (0 to 959), the same for both players; 518 is the standard
    /// starting position.
    pub fn chess_960_startpos(num: usize) -> (r: Result<Chessboard, ChessError>)
        ensures
            num >= NUM_CHESS960_POSITIONS ==> r == Err::<Chessboard, ChessError>(
                ChessError::NoSuchStartpos,
            ),
            r.is_ok() ==> r.unwrap().wf(),
            match spec_dfrc_board(num as int, num as int) {
                Err(e) => r == Err::<Chessboard, ChessError>(e),
                Ok(b) => r == crate::fen::spec_verify(b, true, false),
            },
    {
        Self::dfrc_startpos(num, num)
    }

    /// The Double Fischer Random Chess starting position with Chess960 position `white_num` for
    /// White and `black_num` for Black.
    pub fn dfrc_startpos(white_num: usize, black_num: usize) -> (r: Result<Chessboard, ChessError>)
        ensures
            white_num >= NUM_CHESS960_POSITIONS || black_num >= NUM_CHESS960_POSITIONS ==> r
                == Err::<Chessboard, ChessError>(ChessError::NoSuchStartpos),
            r.is_ok() ==> r.unwrap().wf(),
            match spec_dfrc_board(white_num as int, black_num as int) {
                Err(e) => r == Err::<Chessboard, ChessError>(e),
                Ok(b) => r == crate::fen::spec_verify(b, true, false),
            },
    {
        if white_num >= NUM_CHESS960_POSITIONS {
            return Err(ChessError::NoSuchStartpos);
        }
        let mut res = Self::chess960_startpos_white(black_num, ChessColor::Black, UnverifiedChessboard::empty())?;
        let ghost b1 = res.0;
        let mut i: usize = 0;
        while i < 6
            invariant
                res.0.castling.wf(),
                i <= 6,
                res.0 == (Chessboard { piece_bbs: res.0.piece_bbs, ..b1 }),
                forall|j: int| 0 <= j < i ==> #[trigger] res.0.piece_bbs[j] == crate::bits::spec_flip_up_down(b1.piece_bbs[j]),
                forall|j: int| i <= j < 6 ==> #[trigger] res.0.piece_bbs[j] == b1.piece_bbs[j],
            decreases 6 - i,
        {
            res.0.piece_bbs[i] = flip_up_down(res.0.piece_bbs[i]);
            i = i + 1;
        }
        res.0.color_bbs[1] = flip_up_down(res.0.color_bbs[0]);
        res.0.color_bbs[0] = 0;
        proof {
            let f = spec_flipped(b1);
            vstd::array::axiom_array_ext_equal(res.0.piece_bbs, f.piece_bbs);
            vstd::array::axiom_array_ext_equal(res.0.color_bbs, f.color_bbs);
            assert(res.0.piece_bbs =~= f.piece_bbs);
            assert(res.0.color_bbs =~= f.color_bbs);
            assert(res.0 == f);
        }
        let res = Self::chess960_startpos_white(white_num, ChessColor::White, res)?;
        res.verify_with_level(SelfChecks::Verify, Strictness::Strict)
    }

    /// The Double Fischer Random Chess starting position with number `num`: White's Chess960 position
    /// is `num / 960`, Black's `num % 960`.
    pub fn dfrc_startpos_from_single_num(num: usize) -> (r: Result<Chessboard, ChessError>)
        ensures
            num >= NUM_CHESS960_POSITIONS * NUM_CHESS960_POSITIONS ==> r == Err::<
                Chessboard,
                ChessError,
            >(ChessError::NoSuchStartpos),
            r.is_ok() ==> r.unwrap().wf(),
            match spec_dfrc_board(num as int / 960, num as int % 960) {
                Err(e) => r == Err::<Chessboard, ChessError>(e),
                Ok(b) => r == crate::fen::spec_verify(b, true, false),
            },
    {
        Self::dfrc_startpos(num / 960, num % 960)
    }
}

/// The FEN of the position called `name`, if there is one.
pub open spec fn spec_named_fen(name: Seq<char>) -> Option<Seq<char>> {
    if name == "startpos"@ {
        Some("rnbqkbnr/pppppppp/8/8/8/8/PPPPPPPP/RNBQKBNR w KQkq - 0 1"@)
    } else if name == "kiwipete"@ {
        Some("r3k2r/p1ppqpb1/bn2pnp1/3PN3/1p2P3/2N2Q1p/PPPBBPPP/R3K2R w KQkq - 0 1"@)
    } else if name == "lucena"@ {
        Some("1K1k4/1P6/8/8/8/8/r7/2R5 w - - 0 1"@)
    } else if name == "philidor"@ {
        Some("3k4/R7/7r/2KP4/8/8/8/8 w - - 0 1"@)
    } else if name == "mate_in_1"@ {
        Some("8/7r/8/K1k5/8/8/4p3/8 b - - 10 11"@)
    } else if name == "draw_in_1"@ {
        Some("2B2k2/8/8/5B2/8/8/8/KR6 w - - 99 123"@)
    } else if name == "unusual"@ {
        Some("2kb1b2/pR2P1P1/P1N1P3/1p2Pp2/P5P1/1N6/4P2B/2qR2K1 w - f6 99 123"@)
    } else if name == "see_win_pawn"@ {
        Some("k6q/3n1n2/3b4/2P1p3/3P1P2/3N1NP1/8/1K6 w - - 0 1"@)
    } else if name == "see_xray"@ {
        Some("5q1k/8/8/8/RRQ2nrr/8/8/K7 w - - 0 1"@)
    } else if name == "zugzwang"@ {
        Some("6Q1/8/8/7k/8/8/3p1pp1/3Kbrrb w - - 26 14"@)
    } else if name == "puzzle"@ {
        Some("rk6/p1r3p1/P3B1Kp/1p2B3/8/8/8/8 w - - 0 1"@)
    } else if name == "mate_in_16"@ {
        Some("1r1q1r2/5pk1/p2p1Np1/2pBp2p/1p2P2P/2PP2P1/1P1Q4/2K2R1b w - - 0 29"@)
    } else {
        None
    }
}

/// Whether `name` is the text `s`.
fn is_name(name: &[char], s: &str) -> (r: bool)
    ensures
        r == (name@ == s@),
{
    let chars = str_chars(s);
    chars_eq(name, chars.as_slice())
}

/// The FEN of a position known by name.
pub fn named_position_fen(name: &[char]) -> (r: Option<&'static str>)
    ensures
        r.is_some() == spec_named_fen(name@).is_some(),
        r.is_some() ==> r.unwrap()@ == spec_named_fen(name@).unwrap(),
{
    if is_name(name, "startpos") {
        return Some("rnbqkbnr/pppppppp/8/8/8/8/PPPPPPPP/RNBQKBNR w KQkq - 0 1");
    }
    if is_name(name, "kiwipete") {
        return Some("r3k2r/p1ppqpb1/bn2pnp1/3PN3/1p2P3/2N2Q1p/PPPBBPPP/R3K2R w KQkq - 0 1");
    }
    if is_name(name, "lucena") {
        return Some("1K1k4/1P6/8/8/8/8/r7/2R5 w - - 0 1");
    }
    if is_name(name, "philidor") {
        return Some("3k4/R7/7r/2KP4/8/8/8/8 w - - 0 1");
    }
    if is_name(name, "mate_in_1") {
        return Some("8/7r/8/K1k5/8/8/4p3/8 b - - 10 11");
    }
    if is_name(name, "draw_in_1") {
        return Some("2B2k2/8/8/5B2/8/8/8/KR6 w - - 99 123");
    }
    if is_name(name, "unusual") {
        return Some("2kb1b2/pR2P1P1/P1N1P3/1p2Pp2/P5P1/1N6/4P2B/2qR2K1 w - f6 99 123");
    }
    if is_name(name, "see_win_pawn") {
        return Some("k6q/3n1n2/3b4/2P1p3/3P1P2/3N1NP1/8/1K6 w - - 0 1");
    }
    if is_name(name, "see_xray") {
        return Some("5q1k/8/8/8/RRQ2nrr/8/8/K7 w - - 0 1");
    }
    if is_name(name, "zugzwang") {
        return Some("6Q1/8/8/7k/8/8/3p1pp1/3Kbrrb w - - 26 14");
    }
    if is_name(name, "puzzle") {
        return Some("rk6/p1r3p1/P3B1Kp/1p2B3/8/8/8/8 w - - 0 1");
    }
    if is_name(name, "mate_in_16") {
        return Some("1r1q1r2/5pk1/p2p1Np1/2pBp2p/1p2P2P/2PP2P1/1P1Q4/2K2R1b w - - 0 29");
    }
    None
}

impl Chessboard {
    /// A Chess960 (`chess960-N`, `chessN`, `frc-N`, `frcN`) or DFRC (`dfrc-N`, `dfrcN`) starting
    /// position given by its number.
    /// The numbers of White's and Black's Chess960 positions named by `name` (see
    /// [`spec_numbered_startpos`]).
    fn numbered_startpos(name: &[char]) -> (r: Result<(usize, usize), ChessError>)
        ensures
            match spec_numbered_startpos(name@) {
                Ok((w, b)) => r is Ok && r.unwrap().0 == w && r.unwrap().1 == b,
                Err(e) => r == Err::<(usize, usize), ChessError>(e),
            },
    {
        if let Some(rest) = strip_prefix(name, "chess960-") {
            return match parse_usize(rest.as_slice()) {
                Some(num) => Ok((num, num)),
                None => Err(ChessError::InvalidNumber),
            };
        }
        if let Some(rest) = strip_prefix(name, "chess") {
            return match parse_usize(rest.as_slice()) {
                Some(num) => Ok((num, num)),
                None => Err(ChessError::InvalidNumber),
            };
        }
        if let Some(rest) = strip_prefix(name, "frc-") {
            return match parse_usize(rest.as_slice()) {
                Some(num) => Ok((num, num)),
                None => Err(ChessError::InvalidNumber),
            };
        }
        if let Some(rest) = strip_prefix(name, "frc") {
            return match parse_usize(rest.as_slice()) {
                Some(num) => Ok((num, num)),
                None => Err(ChessError::InvalidNumber),
            };
        }
        if let Some(rest) = strip_prefix(name, "dfrc-") {
            return match parse_usize(rest.as_slice()) {
                Some(num) => Ok((num / 960, num % 960)),
                None => Err(ChessError::InvalidNumber),
            };
        }
        if let Some(rest) = strip_prefix(name, "dfrc") {
            return match parse_usize(rest.as_slice()) {
                Some(num) => Ok((num / 960, num % 960)),
                None => Err(ChessError::InvalidNumber),
            };
        }
        Err(ChessError::UnknownName)
    }

    /// A Chess960 (`chess960-N`, `chessN`, `frc-N`, `frcN`) or DFRC (`dfrc-N`, `dfrcN`) starting
    /// position given by its number.
    pub fn parse_numbered_startpos(name: &[char]) -> (r: Result<Chessboard, ChessError>)
        ensures
            r.is_ok() ==> r.unwrap().wf(),
            match spec_numbered_startpos(name@) {
                Err(e) => r == Err::<Chessboard, ChessError>(e),
                Ok((w, b)) => match spec_dfrc_board(w, b) {
                    Err(e) => r == Err::<Chessboard, ChessError>(e),
                    Ok(board) => r == crate::fen::spec_verify(board, true, false),
                },
            },
    {
        let (w, b) = Self::numbered_startpos(name)?;
        Self::dfrc_startpos(w, b)
    }

    /// The position with the given name, or a numbered (D)FRC starting position.
    pub fn from_name(name: &str) -> (r: Result<Chessboard, ChessError>)
        ensures
            r.is_ok() ==> r.unwrap().wf(),
            match spec_named_fen(name@) {
                Some(fen) => match crate::fen::spec_fen_board(crate::text::spec_words(fen), 0, true) {
                    Err(e) => r == Err::<Chessboard, ChessError>(e),
                    Ok(b) => r == crate::fen::spec_verify(b, true, false),
                },
                None => match spec_numbered_startpos(name@) {
                    Err(e) => r == Err::<Chessboard, ChessError>(e),
                    Ok((w, b)) => match spec_dfrc_board(w, b) {
                        Err(e) => r == Err::<Chessboard, ChessError>(e),
                        Ok(board) => r == crate::fen::spec_verify(board, true, false),
                    },
                },
            },
    {
        let chars = str_chars(name);
        match named_position_fen(chars.as_slice()) {
            Some(fen) => Self::from_fen(fen, Strictness::Strict),
            None => Self::parse_numbered_startpos(chars.as_slice()),
        }
    }
}

/// The position a FEN gives when it is read strictly.
pub open spec fn spec_strict_fen(fen: Seq<char>) -> Result<Chessboard, ChessError> {
    match crate::fen::spec_fen_board(crate::text::spec_words(fen), 0, true) {
        Err(e) => Err(e),
        Ok(b) => crate::fen::spec_verify(b, true, false),
    }
}

/// The positions of the first `i` benchmark FENs that read correctly, in order.
pub open spec fn spec_bench_upto(i: int) -> Seq<Chessboard>
    decreases i,
{
    if i <= 0 || i > 60 {
        Seq::empty()
    } else {
        match spec_strict_fen(BENCH_FENS[i - 1]@) {
            Ok(b) => spec_bench_upto(i - 1).push(b),
            Err(_) => spec_bench_upto(i - 1),
        }
    }
}

/// Positions for benchmarks and tests, from many phases of the game and some unusual ones.
pub const BENCH_FENS: [&'static str; 60] = [
    "r3k2r/2pb1ppp/2pp1q2/p7/1nP1B3/1P2P3/P2N1PPP/R2QK2R w KQkq - 0 14",
    "4rrk1/2p1b1p1/p1p3q1/4p3/2P2n1p/1P1NR2P/PB3PP1/3R1QK1 b - - 2 24",
    "r3qbrk/6p1/2b2pPp/p3pP1Q/PpPpP2P/3P1B2/2PB3K/R5R1 w - - 16 42",
    "6k1/1R3p2/6p1/2Bp3p/3P2q1/P7/1P2rQ1K/5R2 b - - 4 44",
    "8/8/1p2k1p1/3p3p/1p1P1P1P/1P2PK2/8/8 w - - 3 54",
    "7r/2p3k1/1p1p1qp1/1P1Bp3/p1P2r1P/P7/4R3/Q4RK1 w - - 0 36",
    "r1bq1rk1/pp2b1pp/n1pp1n2/3P1p2/2P1p3/2N1P2N/PP2BPPP/R1BQ1RK1 b - - 2 10",
    "3r3k/2r4p/1p1b3q/p4P2/P2Pp3/1B2P3/3BQ1RP/6K1 w - - 3 87",
    "2r4r/1p4k1/1Pnp4/3Qb1pq/8/4BpPp/5P2/2RR1BK1 w - - 0 42",
    "4q1bk/6b1/7p/p1p4p/PNPpP2P/KN4P1/3Q4/4R3 b - - 0 37",
    "2q3r1/1r2pk2/pp3pp1/2pP3p/P1Pb1BbP/1P4Q1/R3NPP1/4R1K1 w - - 2 34",
    "1r2r2k/1b4q1/pp5p/2pPp1p1/P3Pn2/1P1B1Q1P/2R3P1/4BR1K b - - 1 37",
    "r3kbbr/pp1n1p1P/3ppnp1/q5N1/1P1pP3/P1N1B3/2P1QP2/R3KB1R b KQkq - 0 17",
    "8/6pk/2b1Rp2/3r4/1R1B2PP/P5K1/8/2r5 b - - 16 42",
    "1r4k1/4ppb1/2n1b1qp/pB4p1/1n1BP1P1/7P/2PNQPK1/3RN3 w - - 8 29",
    "8/p2B4/PkP5/4p1pK/4Pb1p/5P2/8/8 w - - 29 68",
    "3r4/ppq1ppkp/4bnp1/2pN4/2P1P3/1P4P1/PQ3PBP/R4K2 b - - 2 20",
    "5rr1/4n2k/4q2P/P1P2n2/3B1p2/4pP2/2N1P3/1RR1K2Q w - - 1 49",
    "1r5k/2pq2p1/3p3p/p1pP4/4QP2/PP1R3P/6PK/8 w - - 1 51",
    "q5k1/5ppp/1r3bn1/1B6/P1N2P2/BQ2P1P1/5K1P/8 b - - 2 34",
    "r1b2k1r/5n2/p4q2/1ppn1Pp1/3pp1p1/NP2P3/P1PPBK2/1RQN2R1 w - - 0 22",
    "r1bqk2r/pppp1ppp/5n2/4b3/4P3/P1N5/1PP2PPP/R1BQKB1R w KQkq - 0 5",
    "r1bqr1k1/pp1p1ppp/2p5/8/3N1Q2/P2BB3/1PP2PPP/R3K2n b Q - 1 12",
    "r1bq2k1/p4r1p/1pp2pp1/3p4/1P1B3Q/P2B1N2/2P3PP/4R1K1 b - - 2 19",
    "r4qk1/6r1/1p4p1/2ppBbN1/1p5Q/P7/2P3PP/5RK1 w - - 2 25",
    "r7/6k1/1p6/2pp1p2/7Q/8/p1P2K1P/8 w - - 0 32",
    "r3k2r/ppp1pp1p/2nqb1pn/3p4/4P3/2PP4/PP1NBPPP/R2QK1NR w KQkq - 1 5",
    "3r1rk1/1pp1pn1p/p1n1q1p1/3p4/Q3P3/2P5/PP1NBPPP/4RRK1 w - - 0 12",
    "5rk1/1pp1pn1p/p3Brp1/8/1n6/5N2/PP3PPP/2R2RK1 w - - 2 20",
    "8/1p2pk1p/p1p1r1p1/3n4/8/5R2/PP3PPP/4R1K1 b - - 3 27",
    "8/4pk2/1p1r2p1/p1p4p/Pn5P/3R4/1P3PP1/4RK2 w - - 1 33",
    "8/5k2/1pnrp1p1/p1p4p/P6P/4R1PK/1P3P2/4R3 b - - 1 38",
    "8/8/1p1kp1p1/p1pr1n1p/P6P/1R4P1/1P3PK1/1R6 b - - 15 45",
    "8/8/1p1k2p1/p1prp2p/P2n3P/6P1/1P1R1PK1/4R3 b - - 5 49",
    "8/8/1p4p1/p1p2k1p/P2npP1P/4K1P1/1P6/3R4 w - - 6 54",
    "8/8/1p4p1/p1p2k1p/P2n1P1P/4K1P1/1P6/6R1 b - - 6 59",
    "8/5k2/1p4p1/p1pK3p/P2n1P1P/6P1/1P6/4R3 b - - 14 63",
    "8/1R6/1p1K1kp1/p6p/P1p2P1P/6P1/1Pn5/8 w - - 0 67",
    "1rb1rn1k/p3q1bp/2p3p1/2p1p3/2P1P2N/PP1RQNP1/1B3P2/4R1K1 b - - 4 23",
    "4rrk1/pp1n1pp1/q5p1/P1pP4/2n3P1/7P/1P3PB1/R1BQ1RK1 w - - 3 22",
    "r2qr1k1/pb1nbppp/1pn1p3/2ppP3/3P4/2PB1NN1/PP3PPP/R1BQR1K1 w - - 4 12",
    "2r2k2/8/4P1R1/1p6/8/P4K1N/7b/2B5 b - - 0 55",
    "6k1/5pp1/8/2bKP2P/2P5/p4PNb/B7/8 b - - 1 44",
    "2rqr1k1/1p3p1p/p2p2p1/P1nPb3/2B1P3/5P2/1PQ2NPP/R1R4K w - - 3 25",
    "r1b2rk1/p1q1ppbp/6p1/2Q5/8/4BP2/PPP3PP/2KR1B1R b - - 2 14",
    "6r1/5k2/p1b1r2p/1pB1p1p1/1Pp3PP/2P1R1K1/2P2P2/3R4 w - - 1 36",
    "rnbqkb1r/pppppppp/5n2/8/2PP4/8/PP2PPPP/RNBQKBNR b KQkq - 0 2",
    "2rr2k1/1p4bp/p1q1p1p1/4Pp1n/2PB4/1PN3P1/P3Q2P/2RR2K1 w - f6 0 20",
    "3br1k1/p1pn3p/1p3n2/5pNq/2P1p3/1PN3PP/P2Q1PB1/4R1K1 w - - 0 23",
    "2r2b2/5p2/5k2/p1r1pP2/P2pB3/1P3P2/K1P3R1/7R w - - 23 93",
    "1r1r2k1/1p2qp1p/6p1/p1QB1b2/5Pn1/N1R1P1P1/PP5P/R1B3K1 b - - 4 23",
    "2bk2rq/2p1pprp/2p1n3/p2pPQ2/N2P4/4RN1P/PPP2RP1/6K1 w - - 5 24",
    "2r2rk1/1p3pbp/p3ppp1/8/8/1P2N1P1/1PPP2PP/2KR3R w - - 42 42",
    "7r/pBrkqQ1p/3b4/5b2/8/6P1/PP2PP1P/R1BR2K1 w - - 1 17",
    "k7/3B4/4N3/K7/8/8/8/8 w - - 16 9",
    "R6R/3Q4/1Q4Q1/4Q3/2Q4Q/Q4Q2/pp1Q4/kBNN1KB1 w - - 0 1",
    "R6R/3Q4/1Q4Q1/4Q3/2Q4Q/Q4Q2/pp1Q4/kBNN1KB1 b - - 0 1",
    "nrb1nkrq/2pp1ppp/p4b2/1p2p3/P4B2/3P4/1PP1PPPP/NR1BNRKQ w gb - 0 9",
    "RNBQKBNR/PPPPPPPP/8/8/8/8/pppppppp/rnbqkbnr w - - 0 1",
    "5k2/1p5Q/p2r1qp1/P1p1RpN1/2P5/3P3P/5PP1/6K1 b - - 0 56",
];

impl Chessboard {
    /// The positions of [`BENCH_FENS`] that are valid chess positions.
    pub fn bench_positions() -> (r: Vec<Chessboard>)
        ensures
            r@.len() <= 60,
            forall|i: int| 0 <= i < r@.len() ==> #[trigger] r@[i].wf(),
            r@ == spec_bench_upto(60),
    {
        let mut res: Vec<Chessboard> = Vec::new();
        let mut i: usize = 0;
        while i < 60
            invariant
                i <= 60,
                res@.len() <= i,
                forall|j: int| 0 <= j < res@.len() ==> #[trigger] res@[j].wf(),
                res@ == spec_bench_upto(i as int),
            decreases 60 - i,
        {
            let parsed = Self::from_fen(BENCH_FENS[i], Strictness::Strict);
            assert(parsed == spec_strict_fen(BENCH_FENS[i as int]@));
            if let Ok(b) = parsed {
                res.push(b);
            }
            i = i + 1;
        }
        res
    }
}

/// Where the `i`-th unset bit lies: on an unset bit at or after `idx`.
proof fn lemma_ith_zero_is_free(i: int, bb: u64, idx: int)
    requires
        spec_ith_zero(i, bb, idx) is Some,
    ensures
        idx <= spec_ith_zero(i, bb, idx).unwrap() < 64,
        !bit(bb, spec_ith_zero(i, bb, idx).unwrap() as u64),
    decreases 64 - idx,
{
    if idx >= 64 || idx < 0 {
    } else if !bit(bb, idx as u64) {
        if i != 0 {
            lemma_ith_zero_is_free(i - 1, bb, idx + 1);
        }
    } else {
        lemma_ith_zero_is_free(i, bb, idx + 1);
    }
}

/// The unset bits from `idx` on depend only on the bits from `idx` on.
proof fn lemma_ith_zero_same(i: int, a: u64, c: u64, idx: int)
    requires
        forall|k: u64| idx <= k < 64 ==> #[trigger] bit(a, k) == bit(c, k),
    ensures
        spec_ith_zero(i, a, idx) == spec_ith_zero(i, c, idx),
    decreases 64 - idx,
{
    if idx >= 64 || idx < 0 {
    } else {
        assert(bit(a, idx as u64) == bit(c, idx as u64));
        lemma_ith_zero_same(i - 1, a, c, idx + 1);
        lemma_ith_zero_same(i, a, c, idx + 1);
    }
}

/// Setting the `i`-th unset bit: the unset bits before it keep their rank, and those after it move
/// one rank down.
proof fn lemma_ith_zero_after_set(i: int, j: int, a: u64, c: u64, idx: int)
    requires
        0 <= i,
        0 <= j,
        spec_ith_zero(i, a, idx) is Some,
        forall|k: u64|
            idx <= k < 64 ==> #[trigger] bit(c, k) == (bit(a, k) || k == spec_ith_zero(i, a, idx).unwrap()),
    ensures
        spec_ith_zero(j, c, idx) == (if j < i {
            spec_ith_zero(j, a, idx)
        } else {
            spec_ith_zero(j + 1, a, idx)
        }),
    decreases 64 - idx,
{
    let v = spec_ith_zero(i, a, idx).unwrap();
    lemma_ith_zero_is_free(i, a, idx);
    if idx >= 64 || idx < 0 {
    } else if bit(a, idx as u64) {
        assert(bit(c, idx as u64));
        lemma_ith_zero_after_set(i, j, a, c, idx + 1);
    } else if i == 0 {
        assert(v == idx);
        assert(bit(c, idx as u64));
        lemma_ith_zero_same(j, a, c, idx + 1);
    } else {
        lemma_ith_zero_is_free(i - 1, a, idx + 1);
        assert(!bit(c, idx as u64));
        if j > 0 {
            lemma_ith_zero_after_set(i - 1, j - 1, a, c, idx + 1);
        }
    }
}

/// Placing a white piece on the `i`-th free square of a board without black pieces: the square is
/// the `i`-th unset bit of the occupancy, which it joins, and only the bitboard of that piece
/// changes, by that square.
proof fn lemma_place_step(b: Chessboard, i: int, piece: ChessPieceType)
    requires
        b.color_bbs[1] == 0,
        piece != ChessPieceType::Empty,
        spec_place_on_free(b, i, piece) is Some,
    ensures
        ({
            let (b2, s) = spec_place_on_free(b, i, piece).unwrap();
            &&& spec_ith_zero(i, b.spec_occupied(), 0) == Some(s)
            &&& s < 64
            &&& !bit(b.spec_occupied(), s as u64)
            &&& b2.color_bbs[1] == 0
            &&& forall|k: u64|
                k < 64 ==> #[trigger] bit(b2.spec_occupied(), k) == (bit(b.spec_occupied(), k) || k == s as u64)
            &&& forall|p: int| 0 <= p < 6 && p != piece.spec_idx() ==> #[trigger] b2.piece_bbs[p] == b.piece_bbs[p]
            &&& b2.piece_bbs[piece.spec_idx()] == b.piece_bbs[piece.spec_idx()] ^ (1u64 << s)
        }),
{
    let s = spec_ith_zero(i, b.spec_occupied(), 0).unwrap();
    lemma_ith_zero_is_free(i, b.spec_occupied(), 0);
    let b2 = crate::chessboard::spec_place(b, s as int, spec_white(piece));
    assert(b2.piece_bbs@ == b.piece_bbs@.update(piece.spec_idx(), b.piece_bbs[piece.spec_idx()] ^ (1u64 << s)));
    assert(b2.color_bbs@ == b.color_bbs@.update(0, b.color_bbs[0] ^ (1u64 << s)));
    assert forall|k: u64| k < 64 implies #[trigger] bit(b2.spec_occupied(), k) == (bit(b.spec_occupied(), k)
        || k == s as u64) by {
        broadcast use crate::bits::group_bits;

    }
}

/// The `k`-th pair (from 0) in lexicographic order of two different indices below five: (0,1),
/// (0,2), (0,3), (0,4), (1,2), (1,3), (1,4), (2,3), (2,4), (3,4).
pub open spec fn spec_lex_pair(k: int) -> (int, int) {
    if k == 0 {
        (0, 1)
    } else if k == 1 {
        (0, 2)
    } else if k == 2 {
        (0, 3)
    } else if k == 3 {
        (0, 4)
    } else if k == 4 {
        (1, 2)
    } else if k == 5 {
        (1, 3)
    } else if k == 6 {
        (1, 4)
    } else if k == 7 {
        (2, 3)
    } else if k == 8 {
        (2, 4)
    } else {
        (3, 4)
    }
}

/// The pair table counts the ten pairs of different indices below five in strictly increasing
/// lexicographic order, so each pair comes once and in its place.
pub proof fn law_lex_pairs_ordered(k: int, l: int)
    requires
        0 <= k < l < 10,
    ensures
        0 <= spec_lex_pair(k).0 < spec_lex_pair(k).1 < 5,
        0 <= spec_lex_pair(l).0 < spec_lex_pair(l).1 < 5,
        spec_lex_pair(k).0 < spec_lex_pair(l).0 || (spec_lex_pair(k).0 == spec_lex_pair(l).0
            && spec_lex_pair(k).1 < spec_lex_pair(l).1),
{
}

/// The knights of Chess960 position `num`, set up on an empty board, stand on the `num / 96`-th pair
/// (in lexicographic order, see [`spec_lex_pair`]) of the squares left free by the bishops and the
/// queen, counting from a1.
pub proof fn law_back_rank_knights(num: int, b: Chessboard)
    requires
        0 <= num < 960,
        b.color_bbs[0] == 0,
        b.color_bbs[1] == 0,
        forall|p: int| 0 <= p < 6 ==> #[trigger] b.piece_bbs[p] == 0,
        spec_back_rank(num, b) is Some,
    ensures
        ({
            let r = spec_back_rank(num, b).unwrap().0;
            let bq = r.piece_bbs[2] | r.piece_bbs[4];
            let i = spec_lex_pair(num / 96).0;
            let j = spec_lex_pair(num / 96).1;
            &&& spec_ith_zero(i, bq, 0) is Some
            &&& spec_ith_zero(j, bq, 0) is Some
            &&& r.piece_bbs[1] == (1u64 << spec_ith_zero(i, bq, 0).unwrap()) | (1u64 << spec_ith_zero(
                j,
                bq,
                0,
            ).unwrap())
        }),
{
    let dark = (num % 4) * 2;
    let n1 = num / 4;
    let light0 = (n1 % 4) * 2 + 1;
    let n2 = n1 / 4;
    let light = if light0 >= dark {
        light0 - 1
    } else {
        light0
    };
    let queen = n2 % 6;
    let n3 = n2 / 6;
    vstd::arithmetic::div_mod::lemma_div_denominator(num, 4, 4);
    vstd::arithmetic::div_mod::lemma_div_denominator(num, 16, 6);
    assert(n3 == num / 96);
    let (b1, s1) = spec_place_on_free(b, dark, ChessPieceType::Bishop).unwrap();
    lemma_place_step(b, dark, ChessPieceType::Bishop);
    let (b2, s2) = spec_place_on_free(b1, light, ChessPieceType::Bishop).unwrap();
    lemma_place_step(b1, light, ChessPieceType::Bishop);
    let (b3, s3) = spec_place_on_free(b2, queen, ChessPieceType::Queen).unwrap();
    lemma_place_step(b2, queen, ChessPieceType::Queen);
    let first = if n3 < 4 {
        0int
    } else if n3 < 7 {
        1
    } else if n3 < 9 {
        2
    } else {
        3
    };
    let second = if n3 < 4 {
        n3
    } else if n3 < 7 {
        n3 - 3
    } else if n3 < 9 {
        n3 - 5
    } else {
        3
    };
    let (b4, s4) = spec_place_on_free(b3, first, ChessPieceType::Knight).unwrap();
    lemma_place_step(b3, first, ChessPieceType::Knight);
    let (b5, s5) = spec_place_on_free(b4, second, ChessPieceType::Knight).unwrap();
    lemma_place_step(b4, second, ChessPieceType::Knight);
    let (b6, q_rook) = spec_place_on_free(b5, 0, ChessPieceType::Rook).unwrap();
    lemma_place_step(b5, 0, ChessPieceType::Rook);
    let (b7, _) = spec_place_on_free(b6, 0, ChessPieceType::King).unwrap();
    lemma_place_step(b6, 0, ChessPieceType::King);
    let (b8, k_rook) = spec_place_on_free(b7, 0, ChessPieceType::Rook).unwrap();
    lemma_place_step(b7, 0, ChessPieceType::Rook);
    assert(spec_back_rank(num, b) == Some((b8, q_rook, k_rook)));
    let occ3 = b3.spec_occupied();
    // The second knight skips the square of the first one.
    lemma_ith_zero_after_set(first, second, occ3, b4.spec_occupied(), 0);
    assert(spec_ith_zero(second + 1, occ3, 0) == Some(s5));
    assert(spec_lex_pair(num / 96) == (first, second + 1));
    // The bishops and the queen are exactly the squares taken before the knights.
    let bq = b8.piece_bbs[2] | b8.piece_bbs[4];
    assert(b8.piece_bbs[2] == (b.piece_bbs[2] ^ (1u64 << s1)) ^ (1u64 << s2));
    assert(b8.piece_bbs[4] == b.piece_bbs[4] ^ (1u64 << s3));
    assert(b8.piece_bbs[1] == (b.piece_bbs[1] ^ (1u64 << s4)) ^ (1u64 << s5));
    assert forall|k: u64| k < 64 implies #[trigger] bit(bq, k) == bit(occ3, k) by {
        broadcast use crate::bits::group_bits;

        assert(bit(b.spec_occupied(), k) == false);
        assert(bit(b1.spec_occupied(), k) == (k == s1 as u64));
        assert(bit(b2.spec_occupied(), k) == (k == s1 as u64 || k == s2 as u64));
        assert(bit(occ3, k) == (k == s1 as u64 || k == s2 as u64 || k == s3 as u64));
    }
    lemma_ith_zero_same(first, bq, occ3, 0);
    lemma_ith_zero_same(second + 1, bq, occ3, 0);
    assert forall|k: u64| k < 64 implies #[trigger] bit(b8.piece_bbs[1], k) == bit(
        (1u64 << s4) | (1u64 << s5),
        k,
    ) by {
        broadcast use crate::bits::group_bits;

        assert(bit(b4.spec_occupied(), s4 as u64));
    }
    crate::bits::lemma_bits_ext(b8.piece_bbs[1], (1u64 << s4) | (1u64 << s5));
}

/// On squares that are all free from `idx` on, the `i`-th free square is `idx + i`.
proof fn lemma_ith_zero_empty(i: int, idx: int)
    requires
        0 <= i,
        0 <= idx,
        idx + i < 64,
    ensures
        spec_ith_zero(i, 0u64, idx) == Some((idx + i) as u8),
    decreases 64 - idx,
{
    crate::bits::lemma_bit_zero(idx as u64);
    if i > 0 {
        lemma_ith_zero_empty(i - 1, idx + 1);
    }
}

/// Free squares come in increasing order.
proof fn lemma_ith_zero_increasing(i: int, a: u64, idx: int)
    requires
        0 <= i,
        spec_ith_zero(i + 1, a, idx) is Some,
    ensures
        spec_ith_zero(i, a, idx) is Some,
        spec_ith_zero(i, a, idx).unwrap() < spec_ith_zero(i + 1, a, idx).unwrap(),
    decreases 64 - idx,
{
    if idx >= 64 || idx < 0 {
    } else if !bit(a, idx as u64) {
        if i == 0 {
            lemma_ith_zero_is_free(0, a, idx + 1);
        } else {
            lemma_ith_zero_increasing(i - 1, a, idx + 1);
        }
    } else {
        lemma_ith_zero_increasing(i, a, idx + 1);
    }
}

/// The rest of the back rank of Chess960 position `num`, set up on an empty board: the bishops
/// stand on the dark square of file `2 * (num % 4)` and the light square of file
/// `2 * ((num / 4) % 4) + 1`; the queen on the `(num / 16) % 6`-th square left free by the bishops;
/// and on the three squares left by bishops, queen and knights stand rook, king and rook in this
/// order, so that the king stands between its rooks, whose squares are returned.
pub proof fn law_back_rank_pieces(num: int, b: Chessboard)
    requires
        0 <= num < 960,
        b.color_bbs[0] == 0,
        b.color_bbs[1] == 0,
        forall|p: int| 0 <= p < 6 ==> #[trigger] b.piece_bbs[p] == 0,
        spec_back_rank(num, b) is Some,
    ensures
        ({
            let (r, q_rook, k_rook) = spec_back_rank(num, b).unwrap();
            let minor = r.piece_bbs[1] | r.piece_bbs[2] | r.piece_bbs[4];
            let king = spec_ith_zero(1, minor, 0);
            &&& r.piece_bbs[2] == (1u64 << (2 * (num % 4)) as u64) | (1u64 << (2 * ((num / 4) % 4) + 1) as u64)
            &&& spec_ith_zero((num / 16) % 6, r.piece_bbs[2], 0) is Some
            &&& r.piece_bbs[4] == 1u64 << spec_ith_zero((num / 16) % 6, r.piece_bbs[2], 0).unwrap()
            &&& spec_ith_zero(0, minor, 0) == Some(q_rook)
            &&& king is Some
            &&& spec_ith_zero(2, minor, 0) == Some(k_rook)
            &&& q_rook < king.unwrap() < k_rook
            &&& r.piece_bbs[3] == (1u64 << q_rook) | (1u64 << k_rook)
            &&& r.piece_bbs[5] == 1u64 << king.unwrap()
        }),
{
    broadcast use crate::bits::group_bits;

    let dark = (num % 4) * 2;
    let n1 = num / 4;
    let light0 = (n1 % 4) * 2 + 1;
    let n2 = n1 / 4;
    let light = if light0 >= dark {
        light0 - 1
    } else {
        light0
    };
    let queen = n2 % 6;
    let n3 = n2 / 6;
    vstd::arithmetic::div_mod::lemma_div_denominator(num, 4, 4);
    let first = if n3 < 4 {
        0int
    } else if n3 < 7 {
        1
    } else if n3 < 9 {
        2
    } else {
        3
    };
    let second = if n3 < 4 {
        n3
    } else if n3 < 7 {
        n3 - 3
    } else if n3 < 9 {
        n3 - 5
    } else {
        3
    };
    let (b1, s1) = spec_place_on_free(b, dark, ChessPieceType::Bishop).unwrap();
    lemma_place_step(b, dark, ChessPieceType::Bishop);
    let (b2, s2) = spec_place_on_free(b1, light, ChessPieceType::Bishop).unwrap();
    lemma_place_step(b1, light, ChessPieceType::Bishop);
    let (b3, s3) = spec_place_on_free(b2, queen, ChessPieceType::Queen).unwrap();
    lemma_place_step(b2, queen, ChessPieceType::Queen);
    let (b4, s4) = spec_place_on_free(b3, first, ChessPieceType::Knight).unwrap();
    lemma_place_step(b3, first, ChessPieceType::Knight);
    let (b5, s5) = spec_place_on_free(b4, second, ChessPieceType::Knight).unwrap();
    lemma_place_step(b4, second, ChessPieceType::Knight);
    let (b6, q_rook) = spec_place_on_free(b5, 0, ChessPieceType::Rook).unwrap();
    lemma_place_step(b5, 0, ChessPieceType::Rook);
    let (b7, king) = spec_place_on_free(b6, 0, ChessPieceType::King).unwrap();
    lemma_place_step(b6, 0, ChessPieceType::King);
    let (b8, k_rook) = spec_place_on_free(b7, 0, ChessPieceType::Rook).unwrap();
    lemma_place_step(b7, 0, ChessPieceType::Rook);
    assert(spec_back_rank(num, b) == Some((b8, q_rook, k_rook)));
    // The bishops.
    assert forall|k: u64| k < 64 implies #[trigger] bit(b.spec_occupied(), k) == bit(0u64, k) by {}
    lemma_ith_zero_same(dark, b.spec_occupied(), 0u64, 0);
    lemma_ith_zero_empty(dark, 0);
    assert(s1 == dark);
    assert forall|k: u64| k < 64 implies #[trigger] bit(b1.spec_occupied(), k) == (bit(0u64, k) || k
        == spec_ith_zero(dark, 0u64, 0).unwrap()) by {}
    lemma_ith_zero_after_set(dark, light, 0u64, b1.spec_occupied(), 0);
    lemma_ith_zero_empty(light, 0);
    lemma_ith_zero_empty(light + 1, 0);
    assert(s2 == light0);
    assert forall|k: u64| k < 64 implies #[trigger] bit(b8.piece_bbs[2], k) == bit(
        (1u64 << (2 * (num % 4)) as u64) | (1u64 << (2 * ((num / 4) % 4) + 1) as u64),
        k,
    ) by {}
    crate::bits::lemma_bits_ext(
        b8.piece_bbs[2],
        (1u64 << (2 * (num % 4)) as u64) | (1u64 << (2 * ((num / 4) % 4) + 1) as u64),
    );
    // The queen.
    assert forall|k: u64| k < 64 implies #[trigger] bit(b2.spec_occupied(), k) == bit(b8.piece_bbs[2], k) by {
        assert(bit(b1.spec_occupied(), k) == (k == s1 as u64));
    }
    lemma_ith_zero_same(queen, b2.spec_occupied(), b8.piece_bbs[2], 0);
    assert forall|k: u64| k < 64 implies #[trigger] bit(b8.piece_bbs[4], k) == bit(1u64 << s3, k) by {}
    crate::bits::lemma_bits_ext(b8.piece_bbs[4], 1u64 << s3);
    // Rook, king and rook.
    let minor = b8.piece_bbs[1] | b8.piece_bbs[2] | b8.piece_bbs[4];
    assert forall|k: u64| k < 64 implies #[trigger] bit(b5.spec_occupied(), k) == bit(minor, k) by {
        assert(bit(b1.spec_occupied(), k) == (k == s1 as u64));
        assert(bit(b2.spec_occupied(), k) == (k == s1 as u64 || k == s2 as u64));
        assert(bit(b3.spec_occupied(), k) == (k == s1 as u64 || k == s2 as u64 || k == s3 as u64));
        assert(bit(b4.spec_occupied(), k) == (k == s1 as u64 || k == s2 as u64 || k == s3 as u64
            || k == s4 as u64));
    }
    let o5 = b5.spec_occupied();
    lemma_ith_zero_after_set(0, 0, o5, b6.spec_occupied(), 0);
    lemma_ith_zero_after_set(0, 1, o5, b6.spec_occupied(), 0);
    lemma_ith_zero_after_set(0, 0, b6.spec_occupied(), b7.spec_occupied(), 0);
    assert(spec_ith_zero(1, o5, 0) == Some(king));
    assert(spec_ith_zero(2, o5, 0) == Some(k_rook));
    lemma_ith_zero_increasing(0, o5, 0);
    lemma_ith_zero_increasing(1, o5, 0);
    lemma_ith_zero_same(0, o5, minor, 0);
    lemma_ith_zero_same(1, o5, minor, 0);
    lemma_ith_zero_same(2, o5, minor, 0);
    assert forall|k: u64| k < 64 implies #[trigger] bit(b8.piece_bbs[3], k) == bit(
        (1u64 << q_rook) | (1u64 << k_rook),
        k,
    ) by {}
    crate::bits::lemma_bits_ext(b8.piece_bbs[3], (1u64 << q_rook) | (1u64 << k_rook));
    assert forall|k: u64| k < 64 implies #[trigger] bit(b8.piece_bbs[5], k) == bit(1u64 << king, k) by {}
    crate::bits::lemma_bits_ext(b8.piece_bbs[5], 1u64 << king);
}

} // verus!
