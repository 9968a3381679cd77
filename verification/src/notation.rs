//! Chess moves in text: compact notation (`e2e4`, `e7e8q`, `e1g1` or `e1h1` for castling) and a
//! lenient reader and writer of standard algebraic notation (`Nf3`, `exd8=Q#`, `O-O`).
use vstd::prelude::*;
use crate::bits::has_bit;
use crate::castling::CastleRight;
use crate::chessboard::{spec_piece_type_at, ChessError, Chessboard};
use crate::games::{file_to_char, CharType};
use crate::moves::{ChessMove, ChessMoveFlags};
use crate::pieces::{to_ascii_upper, ChessColor, ChessPieceType, ColoredChessPieceType};
use crate::squares::{file_of, rank_of, ChessSquare, C_FILE_NUM, E_FILE_NUM, G_FILE_NUM};
use crate::text::{str_chars, string_from_chars};

verus! {

/// The symbols used for pieces when writing algebraic notation.
#[derive(Copy, Clone, Eq, PartialEq, Structural, Debug)]
pub enum ExtendedFormat {
    /// Letters, as in `Nf3`.
    Standard,
    /// Unicode figurines, as in `♞f3`.
    Alternative,
}

/// The distance between two coordinates.
fn abs_diff(a: u8, b: u8) -> (r: u8)
    ensures
        r == (if a >= b {
            a - b
        } else {
            b - a
        }),
{
    if a >= b {
        a - b
    } else {
        b - a
    }
}

/// The promotion written as the fifth character of a compact move, if any.
fn parse_short_promo_piece(s: &[char]) -> (r: Option<ChessMoveFlags>)
    ensures
        r.is_some() ==> r.unwrap().spec_is_promo(),
        r == (if s@.len() <= 4 {
            None
        } else {
            spec_promo_flag(s@[4])
        }),
{
    if s.len() <= 4 {
        return None;
    }
    let promo = to_ascii_upper(s[4]);
    match ChessPieceType::parse_from_char(promo) {
        Some(ChessPieceType::Knight) => Some(ChessMoveFlags::PromoKnight),
        Some(ChessPieceType::Bishop) => Some(ChessMoveFlags::PromoBishop),
        Some(ChessPieceType::Rook) => Some(ChessMoveFlags::PromoRook),
        Some(ChessPieceType::Queen) => Some(ChessMoveFlags::PromoQueen),
        _ => None,
    }
}

/// `#` if playing `m` checkmates, `+` if it gives check, nothing otherwise or if it is illegal.
pub open spec fn spec_check_suffix(b: Chessboard, m: ChessMove) -> Seq<char> {
    match crate::make_move::spec_make_move(b, m) {
        Some(after) => if crate::outcome::spec_is_checkmate(after) {
            seq!['#']
        } else if after.is_in_check_spec() {
            seq!['+']
        } else {
            Seq::empty()
        },
        None => Seq::empty(),
    }
}

/// A move read in algebraic notation: one the generator produces that is legal.
pub open spec fn spec_parsed_move_ok(b: Chessboard, m: ChessMove) -> bool {
    crate::movegen::spec_generated(b, m, false) && crate::make_move::spec_make_move(b, m).is_some()
}

/// The promotion named by the fifth character of a compact move.
pub open spec fn spec_promo_flag(c: char) -> Option<ChessMoveFlags> {
    match crate::pieces::spec_piece_from_char(crate::pieces::spec_to_ascii_upper(c)) {
        Some(ChessPieceType::Knight) => Some(ChessMoveFlags::PromoKnight),
        Some(ChessPieceType::Bishop) => Some(ChessMoveFlags::PromoBishop),
        Some(ChessPieceType::Rook) => Some(ChessMoveFlags::PromoRook),
        Some(ChessPieceType::Queen) => Some(ChessMoveFlags::PromoQueen),
        _ => None,
    }
}

/// Whether `file` and `rank` name a square (`a` to `h`, `1` to `8`).
pub open spec fn spec_is_square_chars(file: char, rank: char) -> bool {
    'a' <= file <= 'h' && '1' <= rank <= '8'
}

/// The index of the square named by `file` and `rank`.
pub open spec fn spec_square_of(file: char, rank: char) -> int {
    (rank as int - 49) * 8 + (file as int - 97)
}

/// The color of the piece on square `s` (white for an empty square).
pub open spec fn spec_color_on(b: Chessboard, s: int) -> ChessColor {
    if crate::bits::bit(b.color_bbs[1], s as u64) {
        ChessColor::Black
    } else {
        ChessColor::White
    }
}

/// The distance between two files or ranks.
pub open spec fn spec_dist(a: int, b: int) -> int {
    if a >= b {
        a - b
    } else {
        b - a
    }
}

/// The end index, destination and flags of a compact move from `from` to `to0`, before its
/// pseudolegality is checked: a promotion letter, a king moving two files or onto its own rook
/// (castling, written with the king's destination or the rook's square), a pawn moving
/// diagonally onto an empty square (en passant) or two ranks (double push).
pub open spec fn spec_compact_parts(s: Seq<char>, b: Chessboard, from: int, to0: int) -> Result<
    (int, int, ChessMoveFlags),
    ChessError,
> {
    let piece = spec_piece_type_at(b.piece_bbs, from as u64);
    let own = spec_color_on(b, from);
    let promo = if s.len() > 4 {
        spec_promo_flag(s[4])
    } else {
        None
    };
    let f0 = crate::squares::file_of(to0);
    if promo.is_some() {
        Ok((5, to0, promo.unwrap()))
    } else if piece == ChessPieceType::King {
        let rook_capture = spec_piece_type_at(b.piece_bbs, to0 as u64) == ChessPieceType::Rook
            && spec_color_on(b, to0) == own;
        if rook_capture || spec_dist(f0, crate::squares::file_of(from)) > 1 {
            let color = if crate::squares::rank_of(from) == 0 {
                ChessColor::White
            } else {
                ChessColor::Black
            };
            let to_opt: Option<int> = if rook_capture {
                Some(to0)
            } else if f0 == 2 {
                Some(crate::squares::sq_at(b.spec_rook_start_file(color, CastleRight::Queenside), crate::squares::rank_of(to0)))
            } else if f0 == 6 {
                Some(crate::squares::sq_at(b.spec_rook_start_file(color, CastleRight::Kingside), crate::squares::rank_of(to0)))
            } else {
                None
            };
            match to_opt {
                None => Err(ChessError::InvalidMove),
                Some(to) => Ok((4, to, if crate::squares::file_of(to) == b.spec_rook_start_file(color, CastleRight::Queenside) {
                    ChessMoveFlags::CastleQueenside
                } else {
                    ChessMoveFlags::CastleKingside
                })),
            }
        } else {
            Ok((4, to0, ChessMoveFlags::NormalMove))
        }
    } else if piece == ChessPieceType::Pawn && !crate::bits::bit(b.spec_occupied(), to0 as u64)
        && crate::squares::file_of(from) != f0 {
        Ok((4, to0, ChessMoveFlags::EnPassant))
    } else if piece == ChessPieceType::Pawn && spec_dist(crate::squares::rank_of(from), crate::squares::rank_of(to0)) > 1 {
        Ok((4, to0, ChessMoveFlags::DoublePawnPush))
    } else {
        Ok((4, to0, ChessMoveFlags::NormalMove))
    }
}

/// Reading a move in compact notation at the start of `s`: the number of characters read and the
/// move, which must be pseudolegal.
pub open spec fn spec_parse_compact(s: Seq<char>, b: Chessboard) -> Result<(usize, ChessMove), ChessError> {
    if s.len() == 0 {
        Err(ChessError::EmptyInput)
    } else if s.len() < 4 {
        Err(ChessError::InvalidMove)
    } else if !spec_is_square_chars(s[0], s[1]) || !spec_is_square_chars(s[2], s[3]) {
        Err(ChessError::InvalidSquare)
    } else {
        let from = spec_square_of(s[0], s[1]);
        match spec_compact_parts(s, b, from, spec_square_of(s[2], s[3])) {
            Err(e) => Err(e),
            Ok((end, to, flags)) => {
                let mov = ChessMove((from + to * 64 + flags.spec_idx() * 4096) as u16);
                if !crate::movegen::spec_is_pseudolegal(b, mov) {
                    Err(ChessError::IllegalMove)
                } else {
                    Ok((end as usize, mov))
                }
            },
        }
    }
}

/// The letter of a promotion in compact notation, nothing for other moves.
pub open spec fn spec_promo_suffix(f: ChessMoveFlags) -> Seq<char> {
    match f {
        ChessMoveFlags::PromoKnight => seq!['n'],
        ChessMoveFlags::PromoBishop => seq!['b'],
        ChessMoveFlags::PromoRook => seq!['r'],
        ChessMoveFlags::PromoQueen => seq!['q'],
        _ => Seq::empty(),
    }
}

/// The name of square `s`: its file letter and rank digit.
pub open spec fn spec_square_name(s: int) -> Seq<char> {
    seq![(crate::squares::file_of(s) + 97) as char, (crate::squares::rank_of(s) + 49) as char]
}

/// A move in compact notation: `0000` for the null move, else source and destination squares and
/// the promotion letter. Castling is written with the king's destination unless `dfrc`, where it
/// is the king moving onto its rook.
pub open spec fn spec_compact_text(m: ChessMove, dfrc: bool) -> Seq<char> {
    if m.0 == 0 {
        seq!['0', '0', '0', '0']
    } else {
        let from = m.spec_src();
        let to = if m.spec_is_castle() && !dfrc {
            crate::squares::sq_at(
                if m.spec_flags() == ChessMoveFlags::CastleKingside {
                    6int
                } else {
                    2int
                },
                crate::squares::rank_of(from),
            )
        } else {
            m.spec_dest()
        };
        spec_square_name(from) + spec_square_name(to) + spec_promo_suffix(m.spec_flags())
    }
}

impl ChessMove {
    /// The type of the piece that moves.
    pub fn piece_type(self, board: &Chessboard) -> (r: ChessPieceType)
        ensures
            r == crate::chessboard::spec_piece_type_at(board.piece_bbs, self.spec_src() as u64),
    {
        board.piece_type_on(self.src_square())
    }

    /// The piece that moves, with its color.
    pub fn piece(self, board: &Chessboard) -> (r: ColoredChessPieceType)
        ensures
            r == crate::chessboard::spec_colored_piece_at(*board, self.spec_src() as u64),
            r.spec_uncolor() == crate::chessboard::spec_piece_type_at(
                board.piece_bbs,
                self.spec_src() as u64,
            ),
    {
        board.colored_piece_on(self.src_square())
    }

    /// The type of the piece on the destination square.
    pub fn piece_type_on_target(self, board: &Chessboard) -> (r: ChessPieceType)
        ensures
            r == crate::chessboard::spec_piece_type_at(board.piece_bbs, self.spec_dest() as u64),
    {
        board.piece_type_on(self.dest_square())
    }

    /// Whether the destination holds a piece of the player not to move.
    pub fn is_non_ep_capture(self, board: &Chessboard) -> (r: bool)
        ensures
            r == crate::bits::bit(
                board.color_bbs[board.active_player.spec_other().spec_idx()],
                self.spec_dest() as u64,
            ),
    {
        has_bit(board.inactive_player_bb(), self.dest_square().idx)
    }

    /// Whether the move captures, en passant or not.
    pub fn is_capture(self, board: &Chessboard) -> (r: bool)
        ensures
            r == (crate::bits::bit(
                board.color_bbs[board.active_player.spec_other().spec_idx()],
                self.spec_dest() as u64,
            ) || self.spec_flags() == ChessMoveFlags::EnPassant),
    {
        self.is_non_ep_capture(board) || self.is_ep()
    }

    /// The type of the captured piece: a pawn for en passant, nothing for castling.
    pub fn captured(self, board: &Chessboard) -> (r: ChessPieceType)
        ensures
            self.spec_flags() == ChessMoveFlags::EnPassant ==> r == ChessPieceType::Pawn,
            self.spec_flags() == ChessMoveFlags::CastleKingside || self.spec_flags()
                == ChessMoveFlags::CastleQueenside ==> r == ChessPieceType::Empty,
            !(self.spec_flags() == ChessMoveFlags::EnPassant || self.spec_flags()
                == ChessMoveFlags::CastleKingside || self.spec_flags()
                == ChessMoveFlags::CastleQueenside) ==> r == crate::chessboard::spec_piece_type_at(
                board.piece_bbs,
                self.spec_dest() as u64,
            ),
    {
        if self.is_ep() {
            ChessPieceType::Pawn
        } else if self.is_castle() {
            ChessPieceType::Empty
        } else {
            board.piece_type_on(self.dest_square())
        }
    }

    /// Reads a move in compact notation at the start of `s`: source and destination square and an
    /// optional promotion letter. A king moving two files or onto its own rook castles. Returns the
    /// number of characters read; the move must be pseudolegal.
    pub fn parse_compact_text(s: &[char], board: &Chessboard) -> (r: Result<
        (usize, ChessMove),
        ChessError,
    >)
        requires
            board.castling.wf(),
        ensures
            r == spec_parse_compact(s@, *board),
            r.is_ok() ==> 4 <= r.unwrap().0 <= s@.len(),
    {
        if s.len() == 0 {
            return Err(ChessError::EmptyInput);
        }
        if s.len() < 4 {
            return Err(ChessError::InvalidMove);
        }
        let from = match ChessSquare::from_chars(s[0], s[1]) {
            Some(sq) => sq,
            None => return Err(ChessError::InvalidSquare),
        };
        let mut to = match ChessSquare::from_chars(s[2], s[3]) {
            Some(sq) => sq,
            None => return Err(ChessError::InvalidSquare),
        };
        let piece = board.colored_piece_on(from);
        let mut flags = ChessMoveFlags::NormalMove;
        let mut end: usize = 4;
        if let Some(promo) = parse_short_promo_piece(s) {
            flags = promo;
            end = 5;
        } else if piece.uncolor() == ChessPieceType::King {
            let own = match piece.color() {
                Some(c) => c,
                None => ChessColor::White,
            };
            let rook_capture = board.colored_piece_on(to) == ColoredChessPieceType::new(
                own,
                ChessPieceType::Rook,
            );
            if rook_capture || abs_diff(to.file(), from.file()) > 1 {
                let color = if from.rank() == 0 {
                    ChessColor::White
                } else {
                    ChessColor::Black
                };
                if !rook_capture {
                    let to_file = if to.file() == C_FILE_NUM {
                        board.rook_start_file(color, CastleRight::Queenside)
                    } else if to.file() == G_FILE_NUM {
                        board.rook_start_file(color, CastleRight::Kingside)
                    } else {
                        return Err(ChessError::InvalidMove);
                    };
                    to = ChessSquare::from_rank_file(to.rank(), to_file);
                }
                flags = if to.file() == board.rook_start_file(color, CastleRight::Queenside) {
                    ChessMoveFlags::CastleQueenside
                } else {
                    ChessMoveFlags::CastleKingside
                };
            }
        } else if piece.uncolor() == ChessPieceType::Pawn && board.is_empty(to) && from.file()
            != to.file() {
            flags = ChessMoveFlags::EnPassant;
        } else if piece.uncolor() == ChessPieceType::Pawn && abs_diff(from.rank(), to.rank()) > 1 {
            flags = ChessMoveFlags::DoublePawnPush;
        }
        let mov = ChessMove::new(from, to, flags);
        if !board.is_move_pseudolegal(mov) {
            return Err(ChessError::IllegalMove);
        }
        Ok((end, mov))
    }

    /// Reads a move given exactly in compact notation.
    pub fn from_compact_text(s: &str, board: &Chessboard) -> (r: Result<ChessMove, ChessError>)
        requires
            board.castling.wf(),
        ensures
            r == (match spec_parse_compact(s@, *board) {
                Err(e) => Err(e),
                Ok((end, mov)) => if end == s@.len() {
                    Ok(mov)
                } else {
                    Err(ChessError::InvalidMove)
                },
            }),
    {
        let chars = str_chars(s);
        let (end, mov) = Self::parse_compact_text(chars.as_slice(), board)?;
        if end != chars.len() {
            return Err(ChessError::InvalidMove);
        }
        Ok(mov)
    }

    /// The move in compact notation; castling in standard chess is written with the king's
    /// destination, in Chess960 positions as the king capturing its rook. The null move is `0000`.
    pub fn to_compact_text(self, board: &Chessboard) -> (r: String)
        requires
            board.castling.wf(),
        ensures
            r@ == spec_compact_text(self, board.settings.dfrc),
    {
        let mut out: Vec<char> = Vec::new();
        if self.is_null() {
            out.push('0');
            out.push('0');
            out.push('0');
            out.push('0');
            assert(out@ == seq!['0', '0', '0', '0']);
            return string_from_chars(out.as_slice());
        }
        let from = self.src_square();
        let mut to = self.dest_square();
        if self.is_castle() && !board.settings.dfrc {
            let file = if self.flags() == ChessMoveFlags::CastleKingside {
                G_FILE_NUM
            } else {
                C_FILE_NUM
            };
            to = ChessSquare::from_rank_file(from.rank(), file);
        }
        out.push(from.file_char());
        out.push(from.rank_char());
        out.push(to.file_char());
        out.push(to.rank_char());
        let ghost squares = out@;
        match self.flags() {
            ChessMoveFlags::PromoKnight => out.push('n'),
            ChessMoveFlags::PromoBishop => out.push('b'),
            ChessMoveFlags::PromoRook => out.push('r'),
            ChessMoveFlags::PromoQueen => out.push('q'),
            _ => {},
        }
        assert(out@ == squares + spec_promo_suffix(self.spec_flags()));
        string_from_chars(out.as_slice())
    }
}

/// Whether `c` separates the two squares of a move in long notation.
pub open spec fn spec_is_hyphen(c: char) -> bool {
    c == '-' || c == '\u{2013}' || c == '\u{2014}' || c == '\u{2212}' || c == '\u{2010}' || c
        == '\u{2012}' || c == '\u{2011}' || c == '\u{2043}' || c == '\u{FE63}' || c == '\u{FF0D}'
}

/// Whether `c` marks a capture.
pub open spec fn spec_is_capture_char(c: char) -> bool {
    c == 'x' || c == ':' || c == '\u{00D7}'
}

/// Whether `c` can be part of a move annotation such as `!?` or `+-`.
pub open spec fn spec_is_annotation_char(c: char) -> bool {
    c == '!' || c == '?' || c == '\u{2313}' || c == '\u{25A1}' || c == ' ' || c == '\u{2A72}' || c
        == '\u{2A71}' || c == '\u{00B1}' || c == '\u{2213}' || c == '\u{2A00}' || c == '\u{25CB}'
        || c == '\u{25CF}' || c == '\u{27F3}' || c == '\u{2191}' || c == '\u{2192}' || c
        == '\u{2BF9}' || c == '\u{2A01}' || c == '\u{21C6}' || c == '\u{221E}' || c == '/' || c
        == '+' || c == '-' || c == '=' || c == '<' || c == '>' || c == '$'
}

fn is_hyphen(c: char) -> (r: bool)
    ensures
        r == spec_is_hyphen(c),
{
    c == '-' || c == '\u{2013}' || c == '\u{2014}' || c == '\u{2212}' || c == '\u{2010}' || c
        == '\u{2012}' || c == '\u{2011}' || c == '\u{2043}' || c == '\u{FE63}' || c == '\u{FF0D}'
}

fn is_capture_char(c: char) -> (r: bool)
    ensures
        r == spec_is_capture_char(c),
{
    c == 'x' || c == ':' || c == '\u{00D7}'
}

fn is_annotation_char(c: char) -> (r: bool)
    ensures
        r == spec_is_annotation_char(c),
{
    c == '!' || c == '?' || c == '\u{2313}' || c == '\u{25A1}' || c == ' ' || c == '\u{2A72}' || c
        == '\u{2A71}' || c == '\u{00B1}' || c == '\u{2213}' || c == '\u{2A00}' || c == '\u{25CB}'
        || c == '\u{25CF}' || c == '\u{27F3}' || c == '\u{2191}' || c == '\u{2192}' || c
        == '\u{2BF9}' || c == '\u{2A01}' || c == '\u{21C6}' || c == '\u{221E}' || c == '/' || c
        == '+' || c == '-' || c == '=' || c == '<' || c == '>' || c == '$'
}

/// The piece type a character names in algebraic notation, with or without color.
pub open spec fn spec_piece_char(c: char) -> Option<ChessPieceType> {
    match crate::pieces::spec_colored_from_char(c) {
        Some(p) => Some(p.spec_uncolor()),
        None => crate::pieces::spec_piece_from_char(c),
    }
}

/// The piece type a character names in algebraic notation, with or without color.
fn piece_from_char(c: char) -> (r: Option<ChessPieceType>)
    ensures
        r == spec_piece_char(c),
{
    match ColoredChessPieceType::parse_from_char(c) {
        Some(p) => Some(p.uncolor()),
        None => ChessPieceType::parse_from_char(c),
    }
}

/// What the reader of algebraic notation has gathered so far: the read position and the parts of
/// the move that were read.
pub struct SanRead {
    pub pos: int,
    pub start_rank: Option<u8>,
    pub start_file: Option<u8>,
    pub target_rank: Option<u8>,
    pub target_file: Option<u8>,
    pub piece: ChessPieceType,
    pub is_capture: bool,
    pub is_ep: bool,
    pub gives_check: bool,
    pub gives_mate: bool,
    pub promotion: ChessPieceType,
}

/// Nothing read yet.
pub open spec fn spec_read_start() -> SanRead {
    SanRead {
        pos: 0,
        start_rank: None,
        start_file: None,
        target_rank: None,
        target_file: None,
        piece: ChessPieceType::Empty,
        is_capture: false,
        is_ep: false,
        gives_check: false,
        gives_mate: false,
        promotion: ChessPieceType::Empty,
    }
}

/// The character of `s` at the read position, if there is one.
pub open spec fn spec_cur(s: Seq<char>, r: SanRead) -> Option<char> {
    if 0 <= r.pos < s.len() {
        Some(s[r.pos])
    } else {
        None
    }
}

/// One character further, unless at the end.
pub open spec fn spec_adv(s: Seq<char>, r: SanRead) -> SanRead {
    SanRead {
        pos: if r.pos < s.len() {
            r.pos + 1
        } else {
            r.pos
        },
        ..r
    }
}

/// The first position at or after `i` that holds no whitespace.
pub open spec fn spec_skip_ws(s: Seq<char>, i: int) -> int
    decreases s.len() - i,
{
    if 0 <= i < s.len() && crate::text::is_space(s[i]) {
        spec_skip_ws(s, i + 1)
    } else {
        i
    }
}

/// Whitespace skipped.
pub open spec fn spec_ws(s: Seq<char>, r: SanRead) -> SanRead {
    SanRead { pos: spec_skip_ws(s, r.pos), ..r }
}

/// Whether `s` continues with `t` at the read position.
pub open spec fn spec_continues_with(s: Seq<char>, r: SanRead, t: Seq<char>) -> bool {
    0 <= r.pos && r.pos + t.len() <= s.len() && s.subrange(r.pos, r.pos + t.len()) == t
}

/// If `s` continues with `t`, all of `t` but its last character read.
pub open spec fn spec_word(s: Seq<char>, r: SanRead, t: Seq<char>) -> SanRead {
    if spec_continues_with(s, r, t) {
        SanRead {
            pos: r.pos + if t.len() > 0 {
                t.len() - 1
            } else {
                0
            },
            ..r
        }
    } else {
        r
    }
}

/// The castling move written `O-O` (`side` kingside) or `O-O-O`: the king takes its castling rook.
pub open spec fn spec_castle_text_move(b: Chessboard, side: CastleRight) -> ChessMove {
    let k = b.spec_king_square(b.active_player);
    let rook = crate::squares::sq_at(
        b.spec_rook_start_file(b.active_player, side) as int,
        ChessSquare { idx: k as u8 }.spec_rank(),
    );
    let flags = if side == CastleRight::Queenside {
        ChessMoveFlags::CastleQueenside
    } else {
        ChessMoveFlags::CastleKingside
    };
    ChessMove((k + rook * 64 + flags.spec_idx() * 4096) as u16)
}

/// Reading castling: `0-0-0` or `O-O-O` is queenside, else `0-0` or `O-O` kingside.
pub open spec fn spec_read_castling(s: Seq<char>, r: SanRead, b: Chessboard) -> (SanRead, Option<ChessMove>) {
    let long = spec_continues_with(s, r, "0-0-0"@) || spec_continues_with(s, r, "O-O-O"@);
    let short = spec_continues_with(s, r, "0-0"@) || spec_continues_with(s, r, "O-O"@);
    if !long && !short {
        (r, None)
    } else {
        let n = if long {
            5int
        } else {
            3int
        };
        let side = if long {
            CastleRight::Queenside
        } else {
            CastleRight::Kingside
        };
        let pos = if r.pos + n <= s.len() {
            r.pos + n
        } else {
            s.len() as int
        };
        (SanRead { pos, ..r }, Some(spec_castle_text_move(b, side)))
    }
}

/// Reading the piece letter or figurine; a file letter or a capture mark means a pawn.
pub open spec fn spec_read_piece(s: Seq<char>, r: SanRead) -> (SanRead, Result<(), ChessError>) {
    match spec_cur(s, r) {
        None => (r, Err(ChessError::EmptyInput)),
        Some(c) => if ('a' <= c <= 'h') || c == 'A' || c == 'C' || ('E' <= c <= 'H') || spec_is_capture_char(
            c,
        ) {
            (r, Ok(()))
        } else {
            match spec_piece_char(c) {
                Some(p) => (spec_adv(s, SanRead { piece: p, ..r }), Ok(())),
                None => (r, Err(ChessError::InvalidMove)),
            }
        },
    }
}

/// Whether `c` is a dash that may follow a capture mark.
pub open spec fn spec_is_dash(c: char) -> bool {
    c == '\u{2013}' || c == '\u{2014}' || c == '\u{2212}' || c == '\u{2010}' || c == '\u{2012}' || c
        == '\u{2011}'
}

/// Reading an optional capture mark (a second one is an error) and an optional dash.
pub open spec fn spec_read_capture(s: Seq<char>, r: SanRead) -> (SanRead, Result<(), ChessError>) {
    match spec_cur(s, r) {
        None => (r, Ok(())),
        Some(c) => if spec_is_capture_char(c) && r.is_capture {
            (r, Err(ChessError::InvalidMove))
        } else {
            let r1 = if spec_is_capture_char(c) {
                spec_adv(s, SanRead { is_capture: true, ..r })
            } else {
                r
            };
            (
                if spec_is_dash(c) {
                    spec_adv(s, r1)
                } else {
                    r1
                },
                Ok(()),
            )
        },
    }
}

/// Reading the first square, or only its file or rank.
pub open spec fn spec_read_first_square(s: Seq<char>, r: SanRead) -> (SanRead, Result<(), ChessError>) {
    match spec_cur(s, r) {
        None => (r, Err(ChessError::InvalidMove)),
        Some(file) => {
            let r1 = spec_adv(s, r);
            match spec_cur(s, r1) {
                None => (r1, Err(ChessError::InvalidMove)),
                Some(rank) => {
                    let lower = crate::pieces::spec_to_ascii_lower(file);
                    if 'a' <= lower <= 'h' && '1' <= rank <= '8' {
                        (
                            SanRead {
                                start_file: Some((lower as int - 97) as u8),
                                start_rank: Some((rank as int - 49) as u8),
                                ..spec_adv(s, r1)
                            },
                            Ok(()),
                        )
                    } else if 'a' <= file <= 'h' {
                        (SanRead { start_file: Some((file as int - 97) as u8), ..r1 }, Ok(()))
                    } else if '1' <= file <= '8' {
                        (SanRead { start_rank: Some((file as int - 49) as u8), ..r1 }, Ok(()))
                    } else {
                        (r1, Err(ChessError::InvalidMove))
                    }
                },
            }
        },
    }
}

/// Reading a hyphen between the squares, or else a capture mark.
pub open spec fn spec_read_hyphen_or_capture(s: Seq<char>, r: SanRead) -> (SanRead, Result<(), ChessError>) {
    let c = match spec_cur(s, r) {
        Some(c) => c,
        None => ' ',
    };
    if spec_is_hyphen(c) {
        (spec_adv(s, r), Ok(()))
    } else {
        spec_read_capture(s, r)
    }
}

/// Reading the destination square; a pawn may give only its file.
pub open spec fn spec_read_second_square(s: Seq<char>, r: SanRead) -> SanRead {
    let r1 = spec_adv(s, r);
    let f = spec_cur(s, r);
    let rank = spec_cur(s, r1);
    if f.is_some() && rank.is_some() && 'a' <= crate::pieces::spec_to_ascii_lower(f.unwrap()) <= 'h'
        && '1' <= rank.unwrap() <= '8' {
        SanRead {
            target_file: Some((crate::pieces::spec_to_ascii_lower(f.unwrap()) as int - 97) as u8),
            target_rank: Some((rank.unwrap() as int - 49) as u8),
            ..spec_adv(s, r1)
        }
    } else if f.is_some() && r.piece == ChessPieceType::Empty && 'a' <= f.unwrap() <= 'h' {
        SanRead { target_file: Some((f.unwrap() as int - 97) as u8), ..r1 }
    } else {
        r
    }
}

/// Reading an en passant mark such as `e.p.` or `ep`, after whitespace.
pub open spec fn spec_read_ep(s: Seq<char>, r: SanRead) -> SanRead {
    let r0 = spec_ws(s, r);
    if spec_cur(s, r0) == Some('e') {
        let r1 = spec_adv(s, r0);
        let r2 = if spec_cur(s, r1) == Some('.') {
            spec_adv(s, r1)
        } else {
            r1
        };
        let r3 = spec_ws(s, r2);
        if spec_cur(s, r3) == Some('p') {
            let r4 = spec_adv(s, r3);
            let r5 = if spec_cur(s, r4) == Some('.') {
                spec_adv(s, r4)
            } else {
                r4
            };
            SanRead { is_ep: true, ..r5 }
        } else {
            r0
        }
    } else {
        r0
    }
}

/// Reading a promotion piece, which must follow a `=`.
pub open spec fn spec_read_promotion(s: Seq<char>, r: SanRead) -> (SanRead, Result<(), ChessError>) {
    let eq = spec_cur(s, r) == Some('=');
    let r1 = if eq {
        spec_adv(s, r)
    } else {
        r
    };
    let piece = match spec_cur(s, r1) {
        Some(c) => spec_piece_char(c),
        None => None,
    };
    match piece {
        Some(p) => (spec_adv(s, SanRead { promotion: p, ..r1 }), Ok(())),
        None => if eq {
            (r1, Err(ChessError::InvalidMove))
        } else {
            (r1, Ok(()))
        },
    }
}

/// Reading a check or mate mark after whitespace: `#`, `‡`, `mate` or `checkmate` mate; `+`, `†`,
/// `check` or `ch` check, but a `+` followed by `/`, `-` or `=` is an evaluation.
#[verifier::opaque]
pub open spec fn spec_read_check_mate(s: Seq<char>, r: SanRead) -> SanRead {
    let r0 = spec_ws(s, r);
    match spec_cur(s, r0) {
        None => r0,
        Some(c) => {
            let mate_word = spec_continues_with(s, r0, "mate"@) || spec_continues_with(s, r0, "checkmate"@);
            let check_word = spec_continues_with(s, r0, "check"@) || spec_continues_with(s, r0, "ch"@);
            if c == '#' || c == '\u{2021}' {
                SanRead { gives_mate: true, gives_check: true, ..spec_adv(s, r0) }
            } else if mate_word {
                let rm = if spec_continues_with(s, r0, "mate"@) {
                    spec_word(s, r0, "mate"@)
                } else {
                    spec_word(s, r0, "checkmate"@)
                };
                SanRead { gives_mate: true, gives_check: true, ..spec_adv(s, rm) }
            } else if c == '+' || c == '\u{2020}' || check_word {
                let rc = if c == '+' || c == '\u{2020}' {
                    r0
                } else if spec_continues_with(s, r0, "check"@) {
                    spec_word(s, r0, "check"@)
                } else {
                    spec_word(s, r0, "ch"@)
                };
                let q = spec_adv(s, rc);
                let evaluation = c == '+' && (spec_cur(s, q) == Some('/') || spec_cur(s, q) == Some('-')
                    || spec_cur(s, q) == Some('='));
                SanRead { gives_check: !evaluation, ..q }
            } else {
                r0
            }
        },
    }
}

/// The end of the annotation marks from `i` on; after `$` come the digits of its number.
pub open spec fn spec_skip_annotations(s: Seq<char>, i: int, digits: bool) -> int
    decreases s.len() - i,
{
    if 0 <= i < s.len() && digits && '0' <= s[i] <= '9' {
        spec_skip_annotations(s, i + 1, true)
    } else if 0 <= i < s.len() && spec_is_annotation_char(s[i]) {
        spec_skip_annotations(s, i + 1, s[i] == '$')
    } else {
        i
    }
}

/// Skipping whitespace and annotations such as `!`, `?!`, `+-` or `$14`.
pub open spec fn spec_read_annotation(s: Seq<char>, r: SanRead) -> SanRead {
    let r0 = spec_ws(s, r);
    SanRead { pos: spec_skip_annotations(s, r0.pos, false), ..r0 }
}

/// `rest` unless `r` is an error.
pub open spec fn spec_then<T>(r: Result<(), ChessError>, rest: Result<T, ChessError>) -> Result<T, ChessError> {
    match r {
        Err(e) => Err(e),
        Ok(_) => rest,
    }
}

/// The description completed: without a second square the first one is the destination, and
/// without a piece it is a pawn.
pub open spec fn spec_completed(r: SanRead) -> SanRead {
    let q = if r.target_file.is_none() && r.target_rank.is_none() {
        SanRead { target_file: r.start_file, target_rank: r.start_rank, start_file: None, start_rank: None, ..r }
    } else {
        r
    };
    if q.piece == ChessPieceType::Empty {
        SanRead { piece: ChessPieceType::Pawn, ..q }
    } else {
        q
    }
}

/// Whether `m` fits what was read: its piece, destination, given source coordinates and promotion.
pub open spec fn spec_fits(r: SanRead, m: ChessMove, b: Chessboard) -> bool {
    let src = ChessSquare { idx: m.spec_src() as u8 };
    let dest = ChessSquare { idx: m.spec_dest() as u8 };
    &&& spec_piece_type_at(b.piece_bbs, m.spec_src() as u64) == r.piece
    &&& r.target_file == Some(dest.spec_file() as u8)
    &&& (r.target_rank.is_some() ==> r.target_rank == Some(dest.spec_rank() as u8))
    &&& (r.start_file.is_some() ==> r.start_file == Some(src.spec_file() as u8))
    &&& (r.start_rank.is_some() ==> r.start_rank == Some(src.spec_rank() as u8))
    &&& r.promotion == m.spec_flags().spec_promo_piece()
}

/// A legal move of `b` that fits what was read.
pub open spec fn spec_candidate(r: SanRead, m: ChessMove, b: Chessboard) -> bool {
    spec_parsed_move_ok(b, m) && spec_fits(r, m, b)
}

/// Whether the written capture, check, mate and en passant marks are true of `m`.
pub open spec fn spec_claims_hold(r: SanRead, m: ChessMove, b: Chessboard) -> bool {
    &&& r.is_ep ==> m.spec_flags() == ChessMoveFlags::EnPassant
    &&& r.gives_mate ==> match crate::make_move::spec_make_move(b, m) {
        Some(n) => crate::outcome::spec_is_game_lost(n),
        None => false,
    }
    &&& r.gives_check ==> match crate::make_move::spec_make_move(b, m) {
        Some(n) => crate::movegen::spec_in_check_on(n, n.active_player, n.spec_king_square(n.active_player)),
        None => false,
    }
    &&& r.is_capture ==> spec_is_capture(b, m)
}

/// The move described by what was read: the only legal move that fits, if its marks are true.
#[verifier::opaque]
pub open spec fn spec_read_move(r: SanRead, b: Chessboard) -> Result<ChessMove, ChessError> {
    let q = spec_completed(r);
    if q.target_file.is_none() || (q.piece != ChessPieceType::Pawn && q.target_rank.is_none()) {
        Err(ChessError::InvalidMove)
    } else if !exists|m: ChessMove| #[trigger] spec_candidate(q, m, b) {
        Err(ChessError::IllegalMove)
    } else if exists|m1: ChessMove, m2: ChessMove|
        #![trigger spec_candidate(q, m1, b), spec_candidate(q, m2, b)]
        spec_candidate(q, m1, b) && spec_candidate(q, m2, b) && m1 != m2 {
        Err(ChessError::AmbiguousMove)
    } else {
        let m = choose|m: ChessMove| #[trigger] spec_candidate(q, m, b);
        if spec_claims_hold(q, m, b) {
            Ok(m)
        } else {
            Err(ChessError::IncorrectAnnotation)
        }
    }
}

/// Reading a move in algebraic notation at the start of `s`: castling, or else the piece, the
/// squares with capture marks or a hyphen, the promotion, en passant, check and mate marks and
/// annotations; the result holds the characters after the move.
#[verifier::opaque]
pub open spec fn spec_parse_san(s: Seq<char>, b: Chessboard) -> Result<(Seq<char>, ChessMove), ChessError> {
    if s.len() == 0 {
        Err(ChessError::EmptyInput)
    } else {
        let r0 = spec_read_start();
        match spec_read_castling(s, r0, b) {
            (rc, Some(mov)) => {
                let r1 = spec_read_annotation(s, spec_read_check_mate(s, rc));
                if !crate::movegen::spec_is_pseudolegal(b, mov) {
                    Err(ChessError::IllegalMove)
                } else if !spec_claims_hold(r1, mov, b) {
                    Err(ChessError::IncorrectAnnotation)
                } else {
                    Ok((s.subrange(r1.pos, s.len() as int), mov))
                }
            },
            (_, None) => {
                let (r1, e1) = spec_read_piece(s, r0);
                let (r2, e2) = spec_read_capture(s, r1);
                let (r3, e3) = spec_read_first_square(s, r2);
                let (r4, e4) = spec_read_hyphen_or_capture(s, r3);
                let r5 = spec_read_second_square(s, r4);
                let (r6, e6) = spec_read_capture(s, r5);
                let (r7, e7) = spec_read_promotion(s, r6);
                let r8 = spec_read_annotation(s, spec_read_ep(s, spec_read_check_mate(s, spec_read_ep(s, r7))));
                spec_then(e1, spec_then(e2, spec_then(e3, spec_then(e4, spec_then(e6, spec_then(e7,
                    match spec_read_move(r8, b) {
                        Ok(m) => Ok((s.subrange(r8.pos, s.len() as int), m)),
                        Err(e) => Err(e),
                    })))))) 
            },
        }
    }
}

/// A lenient reader of algebraic notation: short (`Nf3`) or long (`Ng1-f3`), with letters or
/// figurines, capture, check, mate, en passant and annotation marks. Claimed captures, checks,
/// mates and en passant captures must be correct; missing ones are fine.
pub struct MoveParser {
    input: Vec<char>,
    pos: usize,
    start_rank: Option<u8>,
    start_file: Option<u8>,
    target_rank: Option<u8>,
    target_file: Option<u8>,
    piece: ChessPieceType,
    is_capture: bool,
    is_ep: bool,
    gives_check: bool,
    gives_mate: bool,
    promotion: ChessPieceType,
}

impl MoveParser {
    /// The read position lies within the input, and coordinates read so far lie on the board.
    pub closed spec fn wf(&self) -> bool {
        &&& self.pos <= self.input@.len()
        &&& self.start_rank.is_some() ==> self.start_rank.unwrap() < 8
        &&& self.start_file.is_some() ==> self.start_file.unwrap() < 8
        &&& self.target_rank.is_some() ==> self.target_rank.unwrap() < 8
        &&& self.target_file.is_some() ==> self.target_file.unwrap() < 8
    }

    /// What has been read so far.
    pub closed spec fn read(&self) -> SanRead {
        SanRead {
            pos: self.pos as int,
            start_rank: self.start_rank,
            start_file: self.start_file,
            target_rank: self.target_rank,
            target_file: self.target_file,
            piece: self.piece,
            is_capture: self.is_capture,
            is_ep: self.is_ep,
            gives_check: self.gives_check,
            gives_mate: self.gives_mate,
            promotion: self.promotion,
        }
    }

    /// The input.
    pub closed spec fn text(&self) -> Seq<char> {
        self.input@
    }

    #[verifier::spinoff_prover]
    fn new(input: &str) -> (r: Self)
        ensures
            r.wf(),
            r.text() == input@,
            r.read() == spec_read_start(),
    {
        MoveParser {
            input: str_chars(input),
            pos: 0,
            start_rank: None,
            start_file: None,
            target_rank: None,
            target_file: None,
            piece: ChessPieceType::Empty,
            is_capture: false,
            is_ep: false,
            gives_check: false,
            gives_mate: false,
            promotion: ChessPieceType::Empty,
        }
    }

    /// The characters not read yet.
    #[verifier::spinoff_prover]
    fn remaining(&self) -> (r: Vec<char>)
        requires
            self.wf(),
        ensures
            r@ == self.text().subrange(self.read().pos, self.text().len() as int),
    {
        let mut res: Vec<char> = Vec::new();
        let mut i: usize = self.pos;
        while i < self.input.len()
            invariant
                self.pos <= i <= self.input@.len(),
                res@ == self.input@.subrange(self.pos as int, i as int),
            decreases self.input@.len() - i,
        {
            res.push(self.input[i]);
            i = i + 1;
            assert(res@ =~= self.input@.subrange(self.pos as int, i as int));
        }
        res
    }

    #[verifier::spinoff_prover]
    fn current_char(&self) -> (r: Option<char>)
        requires
            self.wf(),
        ensures
            r == spec_cur(self.text(), self.read()),
    {
        if self.pos < self.input.len() {
            Some(self.input[self.pos])
        } else {
            None
        }
    }

    #[verifier::spinoff_prover]
    fn advance_char(&mut self)
        requires
            old(self).wf(),
        ensures
            final(self).wf(),
            final(self).text() == old(self).text(),
            final(self).read() == spec_adv(old(self).text(), old(self).read()),
    {
        if self.pos < self.input.len() {
            self.pos = self.pos + 1;
        }
    }

    #[verifier::spinoff_prover]
    fn ignore_whitespace(&mut self)
        requires
            old(self).wf(),
        ensures
            final(self).wf(),
            final(self).text() == old(self).text(),
            final(self).read() == spec_ws(old(self).text(), old(self).read()),
    {
        while self.pos < self.input.len() && crate::text::is_whitespace(self.input[self.pos])
            invariant
                self.wf(),
                self.input@ == old(self).input@,
                self.read() == (SanRead { pos: self.pos as int, ..old(self).read() }),
                spec_skip_ws(self.input@, self.pos as int) == spec_skip_ws(old(self).input@, old(self).pos as int),
            decreases self.input@.len() - self.pos,
        {
            self.pos = self.pos + 1;
        }
    }

    /// Whether the input continues with `s` at the read position.
    #[verifier::spinoff_prover]
    fn continues_with(&self, s: &str) -> (r: bool)
        requires
            self.wf(),
        ensures
            r == spec_continues_with(self.text(), self.read(), s@),
    {
        let chars = str_chars(s);
        let total = self.input.len();
        let avail = total - self.pos;
        if avail < chars.len() {
            return false;
        }
        let mut i: usize = 0;
        while i < chars.len()
            invariant
                self.wf(),
                total == self.input@.len(),
                avail == self.input@.len() - self.pos,
                avail >= chars@.len(),
                chars@ == s@,
                i <= chars@.len(),
                forall|k: int| 0 <= k < i ==> #[trigger] self.input@[self.pos + k] == chars@[k],
            decreases chars@.len() - i,
        {
            let j: usize = self.pos + i;
            if self.input[j] != chars[i] {
                assert(self.input@.subrange(self.pos as int, self.pos + chars@.len())[i as int] != s@[i as int]);
                return false;
            }
            i = i + 1;
        }
        assert forall|k: int| 0 <= k < s@.len() implies #[trigger] self.input@.subrange(
            self.pos as int,
            self.pos + chars@.len(),
        )[k] == s@[k] by {
            assert(self.input@[self.pos + k] == chars@[k]);
        }
        assert(self.input@.subrange(self.pos as int, self.pos + chars@.len()) =~= s@);
        true
    }

    /// If the input continues with `s`, reads all of it but the last character.
    #[verifier::spinoff_prover]
    fn parse_str_dont_consume_last_char(&mut self, s: &str) -> (r: bool)
        requires
            old(self).wf(),
        ensures
            final(self).wf(),
            final(self).text() == old(self).text(),
            final(self).read() == spec_word(old(self).text(), old(self).read(), s@),
            r == spec_continues_with(old(self).text(), old(self).read(), s@),
    {
        if !self.continues_with(s) {
            return false;
        }
        let n = str_chars(s).len();
        let mut i: usize = 1;
        while i < n
            invariant
                self.wf(),
                1 <= i,
                n >= 1 ==> i <= n,
                n == 0 ==> i == 1,
                n == s@.len(),
                old(self).pos + n <= old(self).input@.len(),
                self.input@ == old(self).input@,
                self.read() == (SanRead { pos: old(self).pos + i - 1, ..old(self).read() }),
            decreases n - i,
        {
            self.advance_char();
            i = i + 1;
        }
        proof {
            if n == 0 {
                assert(i == 1);
            } else {
                assert(i == n);
            }
            assert(self.read() == spec_word(old(self).input@, old(self).read(), s@));
        }
        true
    }

    #[verifier::spinoff_prover]
    fn parse_castling(&mut self, board: &Chessboard) -> (r: Option<ChessMove>)
        requires
            old(self).wf(),
            board.castling.wf(),
        ensures
            final(self).wf(),
            final(self).text() == old(self).text(),
            (final(self).read(), r) == spec_read_castling(old(self).text(), old(self).read(), *board),
    {
        let color = board.active_player;
        let king_square = board.king_square(color);
        let long = self.continues_with("0-0-0") || self.continues_with("O-O-O");
        let short = self.continues_with("0-0") || self.continues_with("O-O");
        if !long && !short {
            return None;
        }
        let (n, side, flags) = if long {
            (5usize, CastleRight::Queenside, ChessMoveFlags::CastleQueenside)
        } else {
            (3usize, CastleRight::Kingside, ChessMoveFlags::CastleKingside)
        };
        let mut i: usize = 0;
        while i < n
            invariant
                self.wf(),
                i <= n,
                self.input@ == old(self).input@,
                self.read() == (SanRead {
                    pos: if old(self).pos + i <= self.input@.len() {
                        old(self).pos + i
                    } else {
                        self.input@.len() as int
                    },
                    ..old(self).read()
                }),
            decreases n - i,
        {
            self.advance_char();
            i = i + 1;
        }
        let rook = ChessSquare::from_rank_file(king_square.rank(), board.rook_start_file(color, side));
        let mov = ChessMove::new(king_square, rook, flags);
        proof {
            assert(king_square == (ChessSquare { idx: board.spec_king_square(color) as u8 }));
            assert(mov == spec_castle_text_move(*board, side));
        }
        Some(mov)
    }

    #[verifier::spinoff_prover]
    fn parse_piece(&mut self) -> (r: Result<(), ChessError>)
        requires
            old(self).wf(),
        ensures
            final(self).wf(),
            final(self).text() == old(self).text(),
            (final(self).read(), r) == spec_read_piece(old(self).text(), old(self).read()),
    {
        let current = match self.current_char() {
            Some(c) => c,
            None => return Err(ChessError::EmptyInput),
        };
        if ('a' <= current && current <= 'h') || current == 'A' || current == 'C' || ('E' <= current
            && current <= 'H') || is_capture_char(current) {
            return Ok(());
        }
        match piece_from_char(current) {
            Some(p) => {
                self.piece = p;
                self.advance_char();
                Ok(())
            },
            None => Err(ChessError::InvalidMove),
        }
    }

    #[verifier::spinoff_prover]
    fn parse_maybe_hyphen_or_capture(&mut self) -> (r: Result<(), ChessError>)
        requires
            old(self).wf(),
        ensures
            final(self).wf(),
            final(self).text() == old(self).text(),
            (final(self).read(), r) == spec_read_hyphen_or_capture(old(self).text(), old(self).read()),
    {
        let c = match self.current_char() {
            Some(c) => c,
            None => ' ',
        };
        if is_hyphen(c) {
            self.advance_char();
            Ok(())
        } else {
            self.parse_maybe_capture()
        }
    }

    #[verifier::spinoff_prover]
    fn parse_maybe_capture(&mut self) -> (r: Result<(), ChessError>)
        requires
            old(self).wf(),
        ensures
            final(self).wf(),
            final(self).text() == old(self).text(),
            (final(self).read(), r) == spec_read_capture(old(self).text(), old(self).read()),
    {
        match self.current_char() {
            None => Ok(()),
            Some(c) => {
                if is_capture_char(c) {
                    if self.is_capture {
                        return Err(ChessError::InvalidMove);
                    }
                    self.is_capture = true;
                    self.advance_char();
                }
                if c == '\u{2013}' || c == '\u{2014}' || c == '\u{2212}' || c == '\u{2010}' || c
                    == '\u{2012}' || c == '\u{2011}' {
                    self.advance_char();
                }
                Ok(())
            },
        }
    }

    #[verifier::spinoff_prover]
    fn parse_square_rank_or_file(&mut self) -> (r: Result<(), ChessError>)
        requires
            old(self).wf(),
        ensures
            final(self).wf(),
            final(self).text() == old(self).text(),
            (final(self).read(), r) == spec_read_first_square(old(self).text(), old(self).read()),
    {
        let file = match self.current_char() {
            Some(c) => c,
            None => return Err(ChessError::InvalidMove),
        };
        self.advance_char();
        let rank = match self.current_char() {
            Some(c) => c,
            None => return Err(ChessError::InvalidMove),
        };
        match ChessSquare::from_chars(crate::pieces::to_ascii_lower(file), rank) {
            Some(sq) => {
                self.advance_char();
                self.start_file = Some(sq.file());
                self.start_rank = Some(sq.rank());
            },
            None => {
                if 'a' <= file && file <= 'h' {
                    self.start_file = Some(crate::games::char_to_file(file));
                } else if '1' <= file && file <= '8' {
                    self.start_rank = Some((file as u32 - 49) as u8);
                } else {
                    return Err(ChessError::InvalidMove);
                }
            },
        }
        Ok(())
    }

    /// Reads the destination square; a pawn capture may give only its file.
    #[verifier::spinoff_prover]
    fn parse_second_square(&mut self)
        requires
            old(self).wf(),
        ensures
            final(self).wf(),
            final(self).text() == old(self).text(),
            final(self).read() == spec_read_second_square(old(self).text(), old(self).read()),
    {
        let read_so_far = self.pos;
        let file = self.current_char();
        self.advance_char();
        let rank = self.current_char();
        if let (Some(f), Some(r)) = (file, rank) {
            if let Some(square) = ChessSquare::from_chars(crate::pieces::to_ascii_lower(f), r) {
                self.advance_char();
                self.target_file = Some(square.file());
                self.target_rank = Some(square.rank());
                return ;
            }
        }
        if let Some(f) = file {
            if self.piece == ChessPieceType::Empty && 'a' <= f && f <= 'h' {
                self.target_file = Some(crate::games::char_to_file(f));
                return ;
            }
        }
        self.pos = read_so_far;
    }

    /// Reads an en passant mark such as `e.p.` or `ep`.
    #[verifier::spinoff_prover]
    fn parse_ep(&mut self)
        requires
            old(self).wf(),
        ensures
            final(self).wf(),
            final(self).text() == old(self).text(),
            final(self).read() == spec_read_ep(old(self).text(), old(self).read()),
    {
        self.ignore_whitespace();
        if self.current_char() == Some('e') {
            let read_so_far = self.pos;
            self.advance_char();
            if self.current_char() == Some('.') {
                self.advance_char();
            }
            self.ignore_whitespace();
            if self.current_char() == Some('p') {
                self.advance_char();
                if self.current_char() == Some('.') {
                    self.advance_char();
                }
                self.is_ep = true;
                return ;
            }
            self.pos = read_so_far;
        }
    }

    #[verifier::spinoff_prover]
    fn parse_promotion(&mut self) -> (r: Result<(), ChessError>)
        requires
            old(self).wf(),
        ensures
            final(self).wf(),
            final(self).text() == old(self).text(),
            (final(self).read(), r) == spec_read_promotion(old(self).text(), old(self).read()),
    {
        let mut allow_fail = true;
        if self.current_char() == Some('=') {
            self.advance_char();
            allow_fail = false;
        }
        let piece = match self.current_char() {
            Some(c) => piece_from_char(c),
            None => None,
        };
        if let Some(promo) = piece {
            self.promotion = promo;
            self.advance_char();
        } else if !allow_fail {
            return Err(ChessError::InvalidMove);
        }
        Ok(())
    }

    /// Reads a check or mate mark: `+`, `†`, `ch`, `check`, `#`, `‡`, `mate` or `checkmate`.
    /// A `+` followed by `/`, `-` or `=` is an evaluation, not a check.
    #[verifier::spinoff_prover]
    fn parse_check_mate(&mut self)
        requires
            old(self).wf(),
        ensures
            final(self).wf(),
            final(self).text() == old(self).text(),
            final(self).read() == spec_read_check_mate(old(self).text(), old(self).read()),
    {
        reveal(spec_read_check_mate);
        self.ignore_whitespace();
        let c = match self.current_char() {
            Some(c) => c,
            None => return ,
        };
        if c == '#' || c == '\u{2021}' || self.parse_str_dont_consume_last_char("mate")
            || self.parse_str_dont_consume_last_char("checkmate") {
            self.advance_char();
            self.gives_mate = true;
            self.gives_check = true;
        } else if c == '+' || c == '\u{2020}' || self.parse_str_dont_consume_last_char("check")
            || self.parse_str_dont_consume_last_char("ch") {
            let parsed_plus = c == '+';
            self.advance_char();
            self.gives_check = true;
            if parsed_plus {
                match self.current_char() {
                    Some(next) => {
                        if next == '/' || next == '-' || next == '=' {
                            self.gives_check = false;
                        }
                    },
                    None => {},
                }
            }
        }
    }

    /// Skips annotations such as `!`, `?!`, `+-` or `$14`.
    #[verifier::spinoff_prover]
    fn parse_annotation(&mut self)
        requires
            old(self).wf(),
        ensures
            final(self).wf(),
            final(self).text() == old(self).text(),
            final(self).read() == spec_read_annotation(old(self).text(), old(self).read()),
    {
        self.ignore_whitespace();
        let ghost r0 = self.read();
        let ghost target = spec_skip_annotations(self.input@, r0.pos, false);
        while self.pos < self.input.len() && is_annotation_char(self.input[self.pos])
            invariant
                self.wf(),
                self.input@ == old(self).input@,
                self.read() == (SanRead { pos: self.pos as int, ..r0 }),
                spec_skip_annotations(self.input@, self.pos as int, false) == target,
            decreases self.input@.len() - self.pos,
        {
            let dollar = self.input[self.pos] == '$';
            self.pos = self.pos + 1;
            let after_mark = self.pos;
            if dollar {
                while self.pos < self.input.len() && '0' <= self.input[self.pos] && self.input[self.pos]
                    <= '9'
                    invariant
                        self.wf(),
                        self.pos >= after_mark,
                        self.input@ == old(self).input@,
                        self.read() == (SanRead { pos: self.pos as int, ..r0 }),
                        spec_skip_annotations(self.input@, self.pos as int, true) == target,
                    decreases self.input@.len() - self.pos,
                {
                    self.pos = self.pos + 1;
                }
            }
        }
    }

    /// Whether `mov` is described by what has been read.
    #[verifier::spinoff_prover]
    fn is_matching(&self, mov: ChessMove, board: &Chessboard) -> (r: bool)
        requires
            self.wf(),
            self.target_file.is_some(),
        ensures
            r == spec_fits(self.read(), mov, *board),
    {
        let src = mov.src_square();
        let dest = mov.dest_square();
        mov.piece_type(board) == self.piece && dest.file() == self.target_file.unwrap() && (match self.target_rank {
            Some(r) => r == dest.rank(),
            None => true,
        }) && (match self.start_file {
            Some(f) => f == src.file(),
            None => true,
        }) && (match self.start_rank {
            Some(r) => r == src.rank(),
            None => true,
        }) && self.promotion == mov.promo_piece()
    }

    /// Checks the claims of the notation: a capture, check, mate or en passant capture that is
    /// written must happen.
    #[verifier::spinoff_prover]
    fn check_claims(&self, mov: ChessMove, board: &Chessboard) -> (r: Result<(), ChessError>)
        requires
            board.castling.wf(),
            board.ep_square.is_some() ==> board.ep_square.unwrap().wf(),
        ensures
            r == (if spec_claims_hold(self.read(), mov, *board) {
                Ok::<(), ChessError>(())
            } else {
                Err(ChessError::IncorrectAnnotation)
            }),
    {
        let incorrect_mate = self.gives_mate && !board.is_game_won_after_slow(mov);
        let incorrect_check = self.gives_check && !board.gives_check(mov);
        let incorrect_capture = self.is_capture && !mov.is_capture(board);
        let incorrect_ep = self.is_ep && mov.flags() != ChessMoveFlags::EnPassant;
        if incorrect_ep || incorrect_mate || incorrect_check || incorrect_capture {
            return Err(ChessError::IncorrectAnnotation);
        }
        Ok(())
    }

    /// Finds the unique legal move that matches what has been read.
    #[verifier::spinoff_prover]
    fn into_move(self, board: &Chessboard) -> (r: Result<ChessMove, ChessError>)
        requires
            self.wf(),
            board.castling.wf(),
            board.ep_square.is_some() ==> board.ep_square.unwrap().wf(),
        ensures
            r == spec_read_move(self.read(), *board),
    {
        reveal(spec_read_move);
        let mut this = self;
        if this.target_file.is_none() && this.target_rank.is_none() {
            this.target_file = this.start_file;
            this.target_rank = this.start_rank;
            this.start_file = None;
            this.start_rank = None;
        }
        if this.piece == ChessPieceType::Empty {
            this.piece = ChessPieceType::Pawn;
        }
        let ghost q = this.read();
        assert(q == spec_completed(self.read()));
        if this.target_file.is_none() {
            return Err(ChessError::InvalidMove);
        }
        if this.piece != ChessPieceType::Pawn && this.target_rank.is_none() {
            return Err(ChessError::InvalidMove);
        }
        let moves = board.pseudolegal_moves();
        let mut found: Option<ChessMove> = None;
        let mut i: usize = 0;
        while i < moves.len()
            invariant
                this.wf(),
                this.target_file.is_some(),
                this.read() == q,
                q == spec_completed(self.read()),
                q.target_file.is_some(),
                !(q.piece != ChessPieceType::Pawn && q.target_rank.is_none()),
                i <= moves@.len(),
                board.castling.wf(),
                board.ep_square.is_some() ==> board.ep_square.unwrap().wf(),
                forall|m: ChessMove| #[trigger] moves@.contains(m) <==> crate::movegen::spec_generated(*board, m, false),
                found.is_none() ==> forall|j: int| 0 <= j < i ==> !#[trigger] spec_candidate(q, moves@[j], *board),
                found.is_some() ==> spec_candidate(q, found.unwrap(), *board),
                found.is_some() ==> forall|j: int|
                    0 <= j < i && #[trigger] spec_candidate(q, moves@[j], *board) ==> moves@[j] == found.unwrap(),
            decreases moves@.len() - i,
        {
            let mov = moves[i];
            assert(moves@.contains(mov));
            if this.is_matching(mov, board) && board.is_pseudolegal_move_legal(mov) {
                match found {
                    Some(f) => {
                        if f != mov {
                            proof {
                                reveal(spec_read_move);
                                assert(spec_candidate(q, f, *board) && spec_candidate(q, mov, *board) && f != mov);
                            }
                            return Err(ChessError::AmbiguousMove);
                        }
                    },
                    None => {
                        found = Some(mov);
                    },
                }
            }
            i = i + 1;
        }
        match found {
            None => {
                proof {
                    assert forall|m: ChessMove| !#[trigger] spec_candidate(q, m, *board) by {
                        if spec_candidate(q, m, *board) {
                            assert(moves@.contains(m));
                            let j = choose|j: int| 0 <= j < moves@.len() && moves@[j] == m;
                            assert(spec_candidate(q, moves@[j], *board));
                        }
                    }
                }
                Err(ChessError::IllegalMove)
            },
            Some(mov) => {
                proof {
                    assert forall|m: ChessMove| #[trigger] spec_candidate(q, m, *board) implies m == mov by {
                        assert(moves@.contains(m));
                        let j = choose|j: int| 0 <= j < moves@.len() && moves@[j] == m;
                        assert(spec_candidate(q, moves@[j], *board));
                    }
                    let c = choose|m: ChessMove| #[trigger] spec_candidate(q, m, *board);
                    assert(c == mov);
                }
                match this.check_claims(mov, board) {
                    Ok(_) => Ok(mov),
                    Err(e) => Err(e),
                }
            },
        }
    }

    /// Reads a move in algebraic notation at the start of `input`; also returns the characters
    /// after it. Castling is written `O-O`, `O-O-O`, `0-0` or `0-0-0`; any other move must be the
    /// only legal move that fits the piece, squares and promotion read.
    #[verifier::spinoff_prover]
    pub fn parse(input: &str, board: &Chessboard) -> (r: Result<(Vec<char>, ChessMove), ChessError>)
        requires
            board.castling.wf(),
            board.ep_square.is_some() ==> board.ep_square.unwrap().wf(),
        ensures
            (match r {
                Ok((rest, m)) => spec_parse_san(input@, *board) == Ok::<(Seq<char>, ChessMove), ChessError>(
                    (rest@, m),
                ),
                Err(e) => spec_parse_san(input@, *board) == Err::<(Seq<char>, ChessMove), ChessError>(e),
            }),
    {
        reveal(spec_parse_san);
        let mut parser = MoveParser::new(input);
        if parser.input.len() == 0 {
            return Err(ChessError::EmptyInput);
        }
        if let Some(mov) = parser.parse_castling(board) {
            parser.parse_check_mate();
            parser.parse_annotation();
            if !board.is_move_pseudolegal(mov) {
                return Err(ChessError::IllegalMove);
            }
            if let Err(e) = parser.check_claims(mov, board) {
                return Err(e);
            }
            return Ok((parser.remaining(), mov));
        }
        if let Err(e) = parser.parse_piece() {
            return Err(e);
        }
        if let Err(e) = parser.parse_maybe_capture() {
            return Err(e);
        }
        if let Err(e) = parser.parse_square_rank_or_file() {
            return Err(e);
        }
        if let Err(e) = parser.parse_maybe_hyphen_or_capture() {
            return Err(e);
        }
        parser.parse_second_square();
        if let Err(e) = parser.parse_maybe_capture() {
            return Err(e);
        }
        if let Err(e) = parser.parse_promotion() {
            return Err(e);
        }
        parser.parse_ep();
        parser.parse_check_mate();
        parser.parse_ep();
        parser.parse_annotation();
        let remaining = parser.remaining();
        match parser.into_move(board) {
            Ok(mov) => Ok((remaining, mov)),
            Err(e) => Err(e),
        }
    }
}

/// Appends the name of `square`, such as `e4`.
/// The two characters that name the square with index `idx`: its file letter and rank digit.
pub open spec fn spec_square_chars(idx: int) -> Seq<char> {
    seq![(crate::squares::file_of(idx) + 97) as char, (crate::squares::rank_of(idx) + 49) as char]
}

/// Whether `m` is a legal move of `b` that moves the same piece, of the same color, as `mov` onto
/// the same square with the same promotion, so that algebraic notation has to tell the two apart.
#[verifier::opaque]
pub open spec fn spec_similar_move(b: Chessboard, mov: ChessMove, m: ChessMove) -> bool {
    &&& crate::movegen::spec_generated(b, m, false)
    &&& crate::make_move::spec_make_move(b, m).is_some()
    &&& crate::chessboard::spec_colored_piece_at(b, m.spec_src() as u64)
        == crate::chessboard::spec_colored_piece_at(b, mov.spec_src() as u64)
    &&& m.spec_dest() == mov.spec_dest()
    &&& m.spec_flags().spec_promo_piece() == mov.spec_flags().spec_promo_piece()
}

/// Whether two different moves similar to `mov` start on squares that satisfy `on`.
pub open spec fn spec_ambiguous(b: Chessboard, mov: ChessMove, on: spec_fn(int) -> bool) -> bool {
    exists|m1: ChessMove, m2: ChessMove|
        m1 != m2 && #[trigger] spec_similar_move(b, mov, m1) && #[trigger] spec_similar_move(b, mov, m2)
            && on(m1.spec_src()) && on(m2.spec_src())
}

/// What tells `mov` apart from similar legal moves in algebraic notation: when there are two or
/// more, the source file if no two of them share it, else the source rank if no two share
/// that, else the whole source square; otherwise the source file of a pawn capture, or nothing.
pub open spec fn spec_disambiguation_text(b: Chessboard, mov: ChessMove) -> Seq<char> {
    let src = mov.spec_src();
    if spec_ambiguous(b, mov, |s: int| true) {
        if !spec_ambiguous(b, mov, |s: int| file_of(s) == file_of(src)) {
            seq![(file_of(src) + 97) as char]
        } else if !spec_ambiguous(b, mov, |s: int| rank_of(s) == rank_of(src)) {
            seq![(rank_of(src) + 49) as char]
        } else {
            spec_square_chars(src)
        }
    } else if spec_piece_type_at(b.piece_bbs, src as u64) == ChessPieceType::Pawn && spec_is_capture(b, mov) {
        seq![(file_of(src) + 97) as char]
    } else {
        Seq::empty()
    }
}

/// The symbol of a moving piece in algebraic notation: none for a pawn, else its letter, or in
/// the alternative format its figurine in its own color.
pub open spec fn spec_piece_prefix(piece: ColoredChessPieceType, format: ExtendedFormat) -> Seq<char> {
    if piece.spec_uncolor() == ChessPieceType::Pawn {
        Seq::empty()
    } else if format == ExtendedFormat::Standard {
        seq![crate::pieces::spec_uncolored_char(piece.spec_uncolor(), CharType::Ascii)]
    } else {
        seq![crate::pieces::spec_figurine(piece)]
    }
}

/// Whether `m` takes a piece of `b`: it lands on an enemy piece or captures en passant.
pub open spec fn spec_is_capture(b: Chessboard, m: ChessMove) -> bool {
    crate::bits::bit(b.color_bbs[b.active_player.spec_other().spec_idx()], m.spec_dest() as u64)
        || m.spec_flags() == ChessMoveFlags::EnPassant
}

/// The characters used for pieces in an extended format.
pub open spec fn spec_format_chars(format: ExtendedFormat) -> CharType {
    if format == ExtendedFormat::Standard {
        CharType::Ascii
    } else {
        CharType::Unicode
    }
}

/// The algebraic notation of a move that is not a castling move, with `d` telling it apart from
/// similar moves: piece symbol, `d`, capture sign, destination, promotion and check sign.
pub open spec fn spec_san_text(b: Chessboard, m: ChessMove, format: ExtendedFormat, d: Seq<char>) -> Seq<char> {
    let typ = spec_format_chars(format);
    spec_piece_prefix(crate::chessboard::spec_colored_piece_at(b, m.spec_src() as u64), format) + d + (if spec_is_capture(b, m) {
        seq!['x']
    } else {
        Seq::empty()
    }) + spec_square_chars(m.spec_dest()) + spec_promo_text(m, typ) + spec_check_suffix(b, m)
}

/// The promotion part of a move in algebraic notation.
pub open spec fn spec_promo_text(m: ChessMove, typ: CharType) -> Seq<char> {
    if m.spec_flags().spec_is_promo() {
        seq!['=', crate::pieces::spec_uncolored_char(m.spec_flags().spec_promo_piece(), typ)]
    } else {
        Seq::empty()
    }
}

/// Appends the characters of `add` to `out`.
fn push_chars(out: &mut Vec<char>, add: &Vec<char>)
    ensures
        final(out)@ == old(out)@ + add@,
{
    let ghost start = out@;
    let mut k: usize = 0;
    while k < add.len()
        invariant
            k <= add@.len(),
            out@ == start + add@.subrange(0, k as int),
        decreases add@.len() - k,
    {
        out.push(add[k]);
        k = k + 1;
    }
    assert(add@.subrange(0, add@.len() as int) == add@);
}

/// Whether `v` holds `m`.
fn contains_move(v: &Vec<ChessMove>, m: ChessMove) -> (r: bool)
    ensures
        r == v@.contains(m),
{
    let mut i: usize = 0;
    while i < v.len()
        invariant
            i <= v@.len(),
            forall|k: int| 0 <= k < i ==> v@[k] != m,
        decreases v@.len() - i,
    {
        if v[i] == m {
            return true;
        }
        i = i + 1;
    }
    false
}

/// The legal moves of `board` that algebraic notation has to tell apart from `mov`.
fn similar_moves(mov: ChessMove, board: &Chessboard) -> (r: Vec<ChessMove>)
    requires
        board.castling.wf(),
        board.ep_square.is_some() ==> board.ep_square.unwrap().wf(),
    ensures
        forall|k: int| 0 <= k < r@.len() ==> #[trigger] spec_similar_move(*board, mov, r@[k]),
        forall|m: ChessMove| #[trigger] spec_similar_move(*board, mov, m) ==> r@.contains(m),
        forall|k1: int, k2: int| 0 <= k1 < k2 < r@.len() ==> r@[k1] != r@[k2],
{
    let piece = mov.piece(board);
    let dest = mov.dest_square();
    let legal = board.legal_moves_slow();
    let mut similar: Vec<ChessMove> = Vec::new();
    let mut i: usize = 0;
    while i < legal.len()
        invariant
            i <= legal@.len(),
            piece == crate::chessboard::spec_colored_piece_at(*board, mov.spec_src() as u64),
            dest.idx == mov.spec_dest(),
            forall|m: ChessMove| #[trigger]
                legal@.contains(m) <==> (crate::movegen::spec_generated(*board, m, false)
                    && crate::make_move::spec_make_move(*board, m).is_some()),
            forall|k: int| 0 <= k < similar@.len() ==> #[trigger] spec_similar_move(*board, mov, similar@[k]),
            forall|j: int| 0 <= j < i && #[trigger] spec_similar_move(*board, mov, legal@[j])
                ==> similar@.contains(legal@[j]),
            forall|k1: int, k2: int| 0 <= k1 < k2 < similar@.len() ==> similar@[k1] != similar@[k2],
        decreases legal@.len() - i,
    {
        let m = legal[i];
        let ghost before = similar@;
        proof {
            assert(legal@.contains(m));
            reveal(spec_similar_move);
        }
        if m.piece(board) == piece && m.dest_square() == dest && m.promo_piece()
            == mov.promo_piece() && !contains_move(&similar, m) {
            similar.push(m);
            proof {
                assert(similar@[similar@.len() - 1] == m);
                assert forall|k: int| 0 <= k < similar@.len() implies #[trigger] spec_similar_move(*board, mov, similar@[k]) by {
                    if k < before.len() {
                        assert(similar@[k] == before[k]);
                    }
                }
            }
        }
        proof {
            assert forall|j: int| 0 <= j < i + 1 && #[trigger] spec_similar_move(*board, mov, legal@[j])
                implies similar@.contains(legal@[j]) by {
                if j == i {
                    if before.contains(m) {
                        let k = choose|k: int| 0 <= k < before.len() && before[k] == m;
                        assert(similar@[k] == before[k]);
                    } else {
                        assert(similar@[similar@.len() - 1] == m);
                    }
                } else {
                    assert(before.contains(legal@[j]));
                    let k = choose|k: int| 0 <= k < before.len() && before[k] == legal@[j];
                    assert(similar@[k] == before[k]);
                }
            }
        }
        i = i + 1;
    }
    proof {
        assert forall|m: ChessMove| #[trigger] spec_similar_move(*board, mov, m) implies similar@.contains(m) by {
            reveal(spec_similar_move);
            assert(legal@.contains(m));
            let j = choose|j: int| 0 <= j < legal@.len() && legal@[j] == m;
        }
    }
    similar
}

/// In a list that holds each move similar to `mov` exactly once, two different similar moves
/// starting on squares that satisfy `on` are two positions of the list.
proof fn lemma_ambiguous_positions(b: Chessboard, mov: ChessMove, v: Seq<ChessMove>, on: spec_fn(int) -> bool)
    requires
        forall|k: int| 0 <= k < v.len() ==> #[trigger] spec_similar_move(b, mov, v[k]),
        forall|m: ChessMove| #[trigger] spec_similar_move(b, mov, m) ==> v.contains(m),
        forall|k1: int, k2: int| 0 <= k1 < k2 < v.len() ==> v[k1] != v[k2],
    ensures
        spec_ambiguous(b, mov, on) == exists|k1: int, k2: int|
            0 <= k1 < k2 < v.len() && on(#[trigger] v[k1].spec_src()) && on(#[trigger] v[k2].spec_src()),
{
    if spec_ambiguous(b, mov, on) {
        let (m1, m2) = choose|m1: ChessMove, m2: ChessMove|
            m1 != m2 && #[trigger] spec_similar_move(b, mov, m1) && #[trigger] spec_similar_move(b, mov, m2)
                && on(m1.spec_src()) && on(m2.spec_src());
        assert(v.contains(m1));
        assert(v.contains(m2));
        let i1 = choose|k: int| 0 <= k < v.len() && v[k] == m1;
        let i2 = choose|k: int| 0 <= k < v.len() && v[k] == m2;
        if i1 < i2 {
            assert(on(v[i1].spec_src()) && on(v[i2].spec_src()));
        } else {
            assert(on(v[i2].spec_src()) && on(v[i1].spec_src()));
        }
    }
    if exists|k1: int, k2: int|
        0 <= k1 < k2 < v.len() && on(#[trigger] v[k1].spec_src()) && on(#[trigger] v[k2].spec_src()) {
        let (k1, k2) = choose|k1: int, k2: int|
            0 <= k1 < k2 < v.len() && on(#[trigger] v[k1].spec_src()) && on(#[trigger] v[k2].spec_src());
        assert(spec_similar_move(b, mov, v[k1]));
        assert(spec_similar_move(b, mov, v[k2]));
        assert(v[k1] != v[k2]);
    }
}

fn push_square(out: &mut Vec<char>, square: ChessSquare)
    requires
        square.wf(),
    ensures
        final(out)@ == old(out)@ + spec_square_chars(square.idx as int),
{
    out.push(square.file_char());
    out.push(square.rank_char());
}

/// A move given exactly in algebraic notation: nothing may follow it.
pub open spec fn spec_from_extended_text(s: Seq<char>, b: Chessboard) -> Result<ChessMove, ChessError> {
    match spec_parse_san(s, b) {
        Ok((rest, m)) => if rest.len() == 0 {
            Ok(m)
        } else {
            Err(ChessError::InvalidMove)
        },
        Err(e) => Err(e),
    }
}

/// A move in compact notation, or else in algebraic notation.
pub open spec fn spec_from_text(s: Seq<char>, b: Chessboard) -> Result<ChessMove, ChessError> {
    match spec_parse_compact(s, b) {
        Ok((end, mov)) => if end == s.len() {
            Ok(mov)
        } else {
            spec_from_extended_text(s, b)
        },
        Err(_) => spec_from_extended_text(s, b),
    }
}

/// What algebraic notation reads is a move of the board: castling that is pseudolegal, or a legal
/// move; and an empty text reads nothing.
pub proof fn lemma_parse_san_sound(s: Seq<char>, b: Chessboard)
    ensures
        s.len() == 0 ==> spec_parse_san(s, b) is Err,
        spec_parse_san(s, b) is Ok ==> crate::movegen::spec_is_pseudolegal(b, spec_parse_san(s, b)->Ok_0.1)
            || spec_parsed_move_ok(b, spec_parse_san(s, b)->Ok_0.1),
{
    reveal(spec_parse_san);
    reveal(spec_read_move);
}

impl ChessMove {
    /// Reads a move given exactly in algebraic notation.
    #[verifier::spinoff_prover]
    pub fn from_extended_text(s: &str, board: &Chessboard) -> (r: Result<ChessMove, ChessError>)
        requires
            board.castling.wf(),
            board.ep_square.is_some() ==> board.ep_square.unwrap().wf(),
        ensures
            r == spec_from_extended_text(s@, *board),
            s@.len() == 0 ==> r.is_err(),
            r.is_ok() ==> crate::movegen::spec_is_pseudolegal(*board, r.unwrap())
                || spec_parsed_move_ok(*board, r.unwrap()),
    {
        proof {
            lemma_parse_san_sound(s@, *board);
        }
        match MoveParser::parse(s, board) {
            Ok((remaining, mov)) => {
                if remaining.len() != 0 {
                    return Err(ChessError::InvalidMove);
                }
                Ok(mov)
            },
            Err(e) => Err(e),
        }
    }

    /// Reads a move in compact notation, or else in algebraic notation.
    #[verifier::spinoff_prover]
    pub fn from_text(s: &str, board: &Chessboard) -> (r: Result<ChessMove, ChessError>)
        requires
            board.castling.wf(),
            board.ep_square.is_some() ==> board.ep_square.unwrap().wf(),
        ensures
            r == spec_from_text(s@, *board),
            s@.len() == 0 ==> r.is_err(),
            (match spec_parse_compact(s@, *board) {
                Ok((end, mov)) => end == s@.len() ==> r == Ok::<ChessMove, ChessError>(mov),
                Err(_) => true,
            }),
            r.is_ok() ==> crate::movegen::spec_is_pseudolegal(*board, r.unwrap())
                || spec_parsed_move_ok(*board, r.unwrap()),
    {
        match Self::from_compact_text(s, board) {
            Ok(mov) => Ok(mov),
            Err(_) => Self::from_extended_text(s, board),
        }
    }

    /// Appends `+` if the move gives check and `#` if it checkmates.
    #[verifier::spinoff_prover]
    fn push_check_suffix(self, out: &mut Vec<char>, board: &Chessboard)
        requires
            board.castling.wf(),
            board.ep_square.is_some() ==> board.ep_square.unwrap().wf(),
        ensures
            final(out)@ == old(out)@ + spec_check_suffix(*board, self),
    {
        if let Some(after) = board.make_move(self) {
            if after.is_checkmate_slow() {
                out.push('#');
            } else if after.is_in_check() {
                out.push('+');
            }
        }
    }

    /// The move in standard algebraic notation, disambiguated against the other legal moves; with
    /// `Alternative`, pieces are written as figurines.
    #[verifier::rlimit(80)]
    pub fn to_extended_text(self, board: &Chessboard, format: ExtendedFormat) -> (r: String)
        requires
            board.castling.wf(),
            board.ep_square.is_some() ==> board.ep_square.unwrap().wf(),
        ensures
            self.spec_is_castle() ==> r@ == (if self.spec_flags() == ChessMoveFlags::CastleQueenside {
                seq!['O', '-', 'O', '-', 'O']
            } else {
                seq!['O', '-', 'O']
            }) + spec_check_suffix(*board, self),
            !self.spec_is_castle() && !(exists|m: ChessMove| #[trigger] spec_similar_move(*board, self, m))
                ==> r@ == "<Illegal move "@ + spec_compact_text(self, board.settings.dfrc) + seq!['>'],
            !self.spec_is_castle() && (exists|m: ChessMove| #[trigger] spec_similar_move(*board, self, m))
                ==> r@ == spec_san_text(*board, self, format, spec_disambiguation_text(*board, self)),
    {
        let mut out: Vec<char> = Vec::new();
        if self.is_castle() {
            out.push('O');
            out.push('-');
            out.push('O');
            if self.castle_side() == CastleRight::Queenside {
                out.push('-');
                out.push('O');
            }
            let ghost text = out@;
            self.push_check_suffix(&mut out, board);
            assert(text == (if self.spec_flags() == ChessMoveFlags::CastleQueenside {
                seq!['O', '-', 'O', '-', 'O']
            } else {
                seq!['O', '-', 'O']
            }));
            return string_from_chars(out.as_slice());
        }
        let piece = self.piece_type(board);
        let src = self.src_square();
        let dest = self.dest_square();
        let similar = similar_moves(self, board);
        if similar.len() == 0 {
            let compact = str_chars(self.to_compact_text(board).as_str());
            let mut res = str_chars("<Illegal move ");
            push_chars(&mut res, &compact);
            res.push('>');
            proof {
                assert forall|m: ChessMove| !#[trigger] spec_similar_move(*board, self, m) by {
                    if spec_similar_move(*board, self, m) {
                        assert(similar@.contains(m));
                    }
                }
            }
            return string_from_chars(res.as_slice());
        }
        let typ = match format {
            ExtendedFormat::Standard => CharType::Ascii,
            ExtendedFormat::Alternative => CharType::Unicode,
        };
        assert(typ == spec_format_chars(format));
        assert(spec_similar_move(*board, self, similar@[0]));
        let colored = self.piece(board);
        if piece != ChessPieceType::Pawn {
            let symbol = match format {
                ExtendedFormat::Standard => piece.to_char(CharType::Ascii),
                ExtendedFormat::Alternative => colored.figurine(),
            };
            out.push(symbol);
        }
        let ghost prefix = out@;
        let ghost mut d: Seq<char> = Seq::empty();
        let capture = self.is_capture(board);
        let ghost src_i = self.spec_src();
        let ghost any = |s: int| true;
        let ghost on_file = |s: int| file_of(s) == file_of(src_i);
        let ghost on_rank = |s: int| rank_of(s) == rank_of(src_i);
        proof {
            lemma_ambiguous_positions(*board, self, similar@, any);
            lemma_ambiguous_positions(*board, self, similar@, on_file);
            lemma_ambiguous_positions(*board, self, similar@, on_rank);
            if similar@.len() > 1 {
                assert(any(similar@[0].spec_src()) && any(similar@[1].spec_src()));
            }
        }
        if similar.len() > 1 {
            let mut same_file: usize = 0;
            let mut same_rank: usize = 0;
            let mut j: usize = 0;
            while j < similar.len()
                invariant
                    src.wf(),
                    src.idx == src_i,
                    on_file == (|s: int| file_of(s) == file_of(src_i)),
                    on_rank == (|s: int| rank_of(s) == rank_of(src_i)),
                    same_file <= j,
                    same_rank <= j,
                    j <= similar@.len(),
                    (same_file >= 1) == exists|k: int| 0 <= k < j && on_file(#[trigger] similar@[k].spec_src()),
                    (same_file >= 2) == exists|k1: int, k2: int|
                        0 <= k1 < k2 < j && on_file(#[trigger] similar@[k1].spec_src()) && on_file(
                            #[trigger] similar@[k2].spec_src(),
                        ),
                    (same_rank >= 1) == exists|k: int| 0 <= k < j && on_rank(#[trigger] similar@[k].spec_src()),
                    (same_rank >= 2) == exists|k1: int, k2: int|
                        0 <= k1 < k2 < j && on_rank(#[trigger] similar@[k1].spec_src()) && on_rank(
                            #[trigger] similar@[k2].spec_src(),
                        ),
                decreases similar@.len() - j,
            {
                let other = similar[j].src_square();
                let ghost jj = j as int;
                let ghost f_before = same_file;
                let ghost r_before = same_rank;
                let other_file = other.file();
                let other_rank = other.rank();
                let src_file = src.file();
                let src_rank = src.rank();
                if other_file == src_file {
                    same_file = same_file + 1;
                }
                if other_rank == src_rank {
                    same_rank = same_rank + 1;
                }
                proof {
                    let oj = similar@[jj].spec_src();
                    assert(on_file(oj) == (other_file == src_file));
                    assert(on_rank(oj) == (other_rank == src_rank));
                    if f_before >= 1 && on_file(oj) {
                        let k = choose|k: int| 0 <= k < jj && on_file(#[trigger] similar@[k].spec_src());
                        assert(0 <= k < jj && on_file(similar@[k].spec_src()) && on_file(similar@[jj].spec_src()));
                    }
                    if on_file(oj) {
                        assert(0 <= jj < jj + 1 && on_file(similar@[jj].spec_src()));
                    }
                    if r_before >= 1 && on_rank(oj) {
                        let k = choose|k: int| 0 <= k < jj && on_rank(#[trigger] similar@[k].spec_src());
                        assert(0 <= k < jj && on_rank(similar@[k].spec_src()) && on_rank(similar@[jj].spec_src()));
                    }
                    if on_rank(oj) {
                        assert(0 <= jj < jj + 1 && on_rank(similar@[jj].spec_src()));
                    }
                    if exists|k1: int, k2: int|
                        0 <= k1 < k2 < jj + 1 && on_file(#[trigger] similar@[k1].spec_src()) && on_file(
                            #[trigger] similar@[k2].spec_src(),
                        ) {
                        let (k1, k2) = choose|k1: int, k2: int|
                            0 <= k1 < k2 < jj + 1 && on_file(#[trigger] similar@[k1].spec_src()) && on_file(
                                #[trigger] similar@[k2].spec_src(),
                            );
                        if k2 == jj {
                            assert(0 <= k1 < jj && on_file(similar@[k1].spec_src()));
                        }
                    }
                    if exists|k1: int, k2: int|
                        0 <= k1 < k2 < jj + 1 && on_rank(#[trigger] similar@[k1].spec_src()) && on_rank(
                            #[trigger] similar@[k2].spec_src(),
                        ) {
                        let (k1, k2) = choose|k1: int, k2: int|
                            0 <= k1 < k2 < jj + 1 && on_rank(#[trigger] similar@[k1].spec_src()) && on_rank(
                                #[trigger] similar@[k2].spec_src(),
                            );
                        if k2 == jj {
                            assert(0 <= k1 < jj && on_rank(similar@[k1].spec_src()));
                        }
                    }
                }
                j = j + 1;
            }
            if same_file <= 1 {
                let c = src.file_char();
                out.push(c);
                proof {
                    d = seq![c];
                }
            } else if same_rank <= 1 {
                let c = src.rank_char();
                out.push(c);
                proof {
                    d = seq![c];
                }
            } else {
                push_square(&mut out, src);
                proof {
                    d = spec_square_chars(self.spec_src());
                }
            }
        } else if piece == ChessPieceType::Pawn && capture {
            let c = src.file_char();
            out.push(c);
            proof {
                d = seq![c];
            }
        }
        proof {
            assert(out@ == prefix + d);
            assert(d == spec_disambiguation_text(*board, self));
        }
        let ghost before_x = out@;
        if capture {
            out.push('x');
        }
        let ghost x_part = out@.subrange(before_x.len() as int, out@.len() as int);
        push_square(&mut out, dest);
        let ghost before_promo = out@;
        if self.is_promotion() {
            out.push('=');
            out.push(self.promo_piece().to_char(typ));
        }
        let ghost promo_part = out@.subrange(before_promo.len() as int, out@.len() as int);
        proof {
            assert(out@ == before_promo + promo_part);
            assert(promo_part == spec_promo_text(self, typ));
            assert(before_x + x_part + spec_square_chars(self.spec_dest()) == before_promo);
            assert(x_part == (if capture { seq!['x'] } else { Seq::<char>::empty() }));
            assert(prefix == spec_piece_prefix(colored, format));
        }
        self.push_check_suffix(&mut out, board);
        string_from_chars(out.as_slice())
    }
}

impl Chessboard {
    /// Plays the move given in compact or algebraic notation, if it is legal.
    #[verifier::rlimit(40)]
    #[verifier::spinoff_prover]
    pub fn make_move_from_str(&self, text: &str) -> (r: Result<Chessboard, ChessError>)
        requires
            self.castling.wf(),
            self.ep_square.is_some() ==> self.ep_square.unwrap().wf(),
        ensures
            r == (match spec_from_text(text@, *self) {
                Ok(m) => match crate::make_move::spec_make_move(*self, m) {
                    Some(b) => Ok::<Chessboard, ChessError>(b),
                    None => Err(ChessError::IllegalMove),
                },
                Err(e) => Err(e),
            }),
            r.is_ok() ==> r.unwrap().castling.wf() && (r.unwrap().ep_square.is_some()
                ==> r.unwrap().ep_square.unwrap().wf()),
            r.is_ok() ==> exists|m: ChessMove|
                (crate::movegen::spec_is_pseudolegal(*self, m) || spec_parsed_move_ok(*self, m))
                    && #[trigger] crate::make_move::spec_make_move(*self, m) == Some(r.unwrap()),
            (match spec_parse_compact(text@, *self) {
                Ok((end, mov)) => end == text@.len() ==> r == (match crate::make_move::spec_make_move(
                    *self,
                    mov,
                ) {
                    Some(b) => Ok::<Chessboard, ChessError>(b),
                    None => Err(ChessError::IllegalMove),
                }),
                Err(_) => true,
            }),
    {
        let mov = match ChessMove::from_text(text, self) {
            Ok(m) => m,
            Err(e) => return Err(e),
        };
        match self.make_move(mov) {
            Some(b) => Ok(b),
            None => Err(ChessError::IllegalMove),
        }
    }
}

} // verus!
