//! Ataxx on a 7x7 board: a player either clones a stone onto a neighboring empty square or leaps a
//! stone two squares away; afterwards, all opposing stones next to the destination change color.
//! Squares are numbered as on an 8x8 board (`rank * 8 + file`), whose h file and 8th rank are
//! always blocked.
use vstd::prelude::*;
use crate::bitbase::{moore_exclusive, spec_moore_exclusive};
use rand::rngs::StdRng;
use std::hash::{DefaultHasher, Hash, Hasher};
use crate::bits::{bit, group_bits, has_bit, num_ones, pop_count, pop_lsb};
use crate::chessboard::Strictness;
use crate::games::{PlayerResult, PosHash};
use crate::text::{parse_usize, push_decimal, split_words, str_chars, string_from_chars};

verus! {

broadcast use group_bits;

/// The squares of the 8x8 bitboard that lie outside the 7x7 board: the h file and the 8th rank.
pub const INVALID_EDGE_MASK: u64 = 0xff80_8080_8080_8080;

/// The squares of the 7x7 board.
pub const VALID_MASK: u64 = 0x007f_7f7f_7f7f_7f7f;

/// The number of rows and columns.
pub const ATAXX_SIZE: u8 = 7;

/// The two players; X moves first.
#[derive(Debug, Default, Copy, Clone, Eq, PartialEq, Structural, Hash)]
pub enum AtaxxColor {
    #[default]
    X,
    O,
}

impl AtaxxColor {
    pub open spec fn spec_idx(self) -> int {
        match self {
            AtaxxColor::X => 0,
            AtaxxColor::O => 1,
        }
    }

    pub open spec fn spec_other(self) -> AtaxxColor {
        match self {
            AtaxxColor::X => AtaxxColor::O,
            AtaxxColor::O => AtaxxColor::X,
        }
    }

    /// The index of the color: 0 for X, 1 for O.
    pub fn idx(self) -> (r: usize)
        ensures
            r == self.spec_idx(),
    {
        match self {
            AtaxxColor::X => 0,
            AtaxxColor::O => 1,
        }
    }

    /// The opponent.
    pub fn other(self) -> (r: AtaxxColor)
        ensures
            r == self.spec_other(),
    {
        match self {
            AtaxxColor::X => AtaxxColor::O,
            AtaxxColor::O => AtaxxColor::X,
        }
    }

    /// The FEN letter of the color.
    pub fn color_char(self) -> (c: char)
        ensures
            c == (if self == AtaxxColor::X {
                'x'
            } else {
                'o'
            }),
    {
        match self {
            AtaxxColor::X => 'x',
            AtaxxColor::O => 'o',
        }
    }
}

/// What a square holds, without the color of a stone.
#[derive(Debug, Default, Copy, Clone, Eq, PartialEq, Structural)]
pub enum AtaxxPieceType {
    #[default]
    Empty,
    Blocked,
    Occupied,
}

/// How a move places its stone.
#[derive(Debug, Copy, Clone, Eq, PartialEq, Structural)]
pub enum AtaxxMoveType {
    /// The stone jumps two squares away, leaving its square empty.
    Leaping,
    /// A new stone appears next to an own stone.
    Cloning,
}

/// The settings of an Ataxx game: the blocked squares.
#[derive(Debug, Default, Copy, Clone, Eq, PartialEq, Structural)]
pub struct AtaxxSettings {
    pub blocked: u64,
}

/// A square of the 7x7 board, numbered `rank * 8 + file`.
#[derive(Debug, Default, Copy, Clone, Eq, PartialEq, Structural, Hash)]
pub struct AtaxxSquare {
    pub idx: u8,
}

/// The square with file letter `file` (`a` to `g`) and rank digit `rank` (`1` to `7`).
pub open spec fn spec_square_from_chars(file: char, rank: char) -> Option<AtaxxSquare> {
    if 'a' <= file <= 'g' && '1' <= rank <= '7' {
        Some(AtaxxSquare { idx: ((rank as int - 49) * 8 + (file as int - 97)) as u8 })
    } else {
        None
    }
}

/// The name of square `t`: its file letter and rank digit.
pub open spec fn spec_square_text(t: int) -> Seq<char> {
    seq![((t % 8) + 97) as char, ((t / 8) + 49) as char]
}

/// The compact notation of a move: the source square of a leap followed by the destination.
pub open spec fn spec_move_text(m: Move) -> Seq<char> {
    let src = if m.source != u8::MAX && m.source < 64 {
        spec_square_text(m.source as int)
    } else {
        Seq::empty()
    };
    let dest = if m.target.idx < 64 {
        spec_square_text(m.target.idx as int)
    } else {
        Seq::empty()
    };
    src + dest
}

/// The index of the first character at or after `i` that is not whitespace.
pub open spec fn spec_skip_space(s: Seq<char>, i: int) -> int
    decreases s.len() - i,
{
    if i < s.len() && crate::text::is_space(s[i]) {
        spec_skip_space(s, i + 1)
    } else {
        i
    }
}

/// Reading a move in compact notation after leading whitespace: `0000` passes, two squares leap,
/// one square clones; the move must be legal. The result holds the index after the move.
pub open spec fn spec_parse_move(s: Seq<char>, b: AtaxxBoard) -> Result<(usize, Move), AtaxxError> {
    let st = spec_skip_space(s, 0);
    if st >= s.len() {
        Err(AtaxxError::InvalidMove)
    } else if s.len() - st >= 4 && s[st] == '0' && s[st + 1] == '0' && s[st + 2] == '0' && s[st
        + 3] == '0' {
        Ok(((st + 4) as usize, Move { source: 0, target: AtaxxSquare { idx: 0 } }))
    } else if s.len() - st < 2 {
        Err(AtaxxError::InvalidMove)
    } else {
        match spec_square_from_chars(s[st], s[st + 1]) {
            None => Err(AtaxxError::InvalidMove),
            Some(first) => {
                let second = if s.len() - st >= 4 {
                    spec_square_from_chars(s[st + 2], s[st + 3])
                } else {
                    None
                };
                let (end, mov) = match second {
                    Some(to) => (st + 4, Move { source: first.idx, target: to }),
                    None => (st + 2, Move { source: u8::MAX, target: first }),
                };
                if !spec_legal_check(b, mov) {
                    Err(AtaxxError::IllegalMove)
                } else {
                    Ok((end as usize, mov))
                }
            },
        }
    }
}

/// Whether everything from index `i` on is whitespace.
pub open spec fn spec_only_space_from(s: Seq<char>, i: int) -> bool {
    forall|j: int| i <= j < s.len() ==> crate::text::is_space(#[trigger] s[j])
}

impl AtaxxSquare {
    /// The square lies on the 7x7 board.
    pub open spec fn wf(self) -> bool {
        self.idx < 64 && self.idx % 8 < 7 && self.idx / 8 < 7
    }

    /// The square on `rank` and `file` (both from 0 to 6).
    pub fn from_rank_file(rank: u8, file: u8) -> (r: Self)
        requires
            rank < 7,
            file < 7,
        ensures
            r.wf(),
            r.idx == rank * 8 + file,
    {
        AtaxxSquare { idx: rank * 8 + file }
    }

    pub fn rank(self) -> (r: u8)
        requires
            self.wf(),
        ensures
            r == self.idx / 8,
            r < 7,
    {
        self.idx / 8
    }

    pub fn file(self) -> (r: u8)
        requires
            self.wf(),
        ensures
            r == self.idx % 8,
            r < 7,
    {
        self.idx % 8
    }

    /// The square as a bitboard.
    pub fn bb(self) -> (r: u64)
        requires
            self.wf(),
        ensures
            r == 1u64 << self.idx,
    {
        1u64 << self.idx
    }

    /// Parses a square from its file letter (`a` to `g`) and rank digit (`1` to `7`).
    pub fn from_chars(file: char, rank: char) -> (r: Option<Self>)
        ensures
            r == spec_square_from_chars(file, rank),
            r.is_some() ==> r.unwrap().wf(),
    {
        if 'a' <= file && file <= 'g' && '1' <= rank && rank <= '7' {
            Some(AtaxxSquare::from_rank_file((rank as u32 - 49) as u8, (file as u32 - 97) as u8))
        } else {
            None
        }
    }

    /// The larger of the file and rank distances to `other`.
    pub fn distance(self, other: AtaxxSquare) -> (r: u8)
        requires
            self.wf(),
            other.wf(),
        ensures
            r < 7,
            r == crate::squares::spec_sup_distance(self.idx as int, other.idx as int),
    {
        let df = if self.file() >= other.file() {
            self.file() - other.file()
        } else {
            other.file() - self.file()
        };
        let dr = if self.rank() >= other.rank() {
            self.rank() - other.rank()
        } else {
            other.rank() - self.rank()
        };
        if df > dr {
            df
        } else {
            dr
        }
    }
}

/// An Ataxx move: a clone onto `target` if `source` is `u8::MAX`, else a leap from `source`. The
/// default move (from and to a1) passes.
#[derive(Debug, Default, Copy, Clone, Eq, PartialEq, Structural, Hash)]
pub struct Move {
    pub source: u8,
    pub target: AtaxxSquare,
}

impl Move {
    /// The square the stone ends on.
    pub fn dest_square(self) -> (r: AtaxxSquare)
        ensures
            r == self.target,
    {
        self.target
    }

    /// The move that clones a stone onto `square`.
    pub fn cloning(square: AtaxxSquare) -> (r: Self)
        ensures
            r.target == square,
            r.source == u8::MAX,
    {
        Move { source: u8::MAX, target: square }
    }

    /// The move that leaps the stone from `source` to `target`.
    pub fn leaping(source: AtaxxSquare, target: AtaxxSquare) -> (r: Self)
        ensures
            r.target == target,
            r.source == source.idx,
    {
        Move { source: source.idx, target }
    }

    /// Whether the move leaps or clones.
    pub fn typ(self) -> (r: AtaxxMoveType)
        ensures
            r == (if self.source == u8::MAX {
                AtaxxMoveType::Cloning
            } else {
                AtaxxMoveType::Leaping
            }),
    {
        if self.source == u8::MAX {
            AtaxxMoveType::Cloning
        } else {
            AtaxxMoveType::Leaping
        }
    }

    /// The passing move.
    pub fn pass() -> (r: Self)
        ensures
            r == (Move { source: 0, target: AtaxxSquare { idx: 0 } }),
    {
        Move { source: 0, target: AtaxxSquare { idx: 0 } }
    }

    /// Whether this is the passing move.
    pub open spec fn spec_is_pass(self) -> bool {
        self.source == 0 && self.target.idx == 0
    }
}

/// Why an Ataxx position or move was rejected.
#[derive(Debug, Copy, Clone, Eq, PartialEq, Structural)]
pub enum AtaxxError {
    OverlappingPieces,
    PiecesOnBlockedSquares,
    SquareOutsideBoard,
    HalfmoveClockTooLarge,
    PlyTooLarge,
    MissingFenPart,
    InvalidFen,
    InvalidNumber,
    InvalidMove,
    IllegalMove,
}

/// An Ataxx position.
#[derive(Debug, Copy, Clone, Eq, PartialEq)]
pub struct AtaxxBoard {
    /// The stones of X and of O.
    pub colors: [u64; 2],
    /// The empty squares; the squares that are neither empty nor hold a stone are blocked.
    pub empty: u64,
    pub active_player: AtaxxColor,
    /// Half moves since the last clone.
    pub ply_100_ctr: usize,
    /// Half moves since the start.
    pub ply: usize,
}

/// A board that may not satisfy the invariants of a position yet.
#[derive(Debug, Copy, Clone)]
pub struct UnverifiedAtaxxBoard(pub AtaxxBoard);

/// Checking an Ataxx position: every square used lies on the 7x7 board, the halfmove clock is at
/// most 100 and the ply at most 10000; beyond FEN checks, stones and empty squares don't overlap.
pub open spec fn spec_ataxx_verify(b: AtaxxBoard, fen_only: bool) -> Result<AtaxxBoard, AtaxxError> {
    if (b.empty | b.colors[0] | b.colors[1]) & INVALID_EDGE_MASK != 0 {
        Err(AtaxxError::SquareOutsideBoard)
    } else if b.ply_100_ctr > 100 {
        Err(AtaxxError::HalfmoveClockTooLarge)
    } else if b.ply > 10_000 {
        Err(AtaxxError::PlyTooLarge)
    } else if fen_only {
        Ok(b)
    } else if b.colors[0] & b.colors[1] != 0 || b.empty & b.colors[0] != 0 || b.empty & b.colors[1]
        != 0 {
        Err(AtaxxError::OverlappingPieces)
    } else {
        Ok(b)
    }
}

/// `e` with the `n` squares of `rank` from `file` on added.
pub open spec fn spec_add_run(e: u64, rank: int, file: int, n: int) -> u64
    decreases n,
{
    if n <= 0 {
        e
    } else {
        spec_add_run(e | (1u64 << (rank * 8 + file) as u64), rank, file + 1, n - 1)
    }
}

/// While reading the rows of a FEN at `rank` and `file`: the stones of X and O and the empty
/// squares are disjoint, and nothing is set on the squares not read yet.
pub open spec fn spec_rows_state_ok(x: u64, o: u64, e: u64, rank: int, file: int) -> bool {
    &&& forall|q: u64|
        q < 64 ==> !(#[trigger] bit(x, q) && bit(o, q)) && !(bit(e, q) && (bit(x, q) || bit(o, q)))
    &&& forall|q: u64|
        q < 64 && ((q / 8) < rank || ((q / 8) == rank && (q % 8) >= file)) ==> !#[trigger] bit(x, q)
            && !bit(o, q) && !bit(e, q)
}

/// Setting square (`rank`, `file`) in at most one of the three bitboards keeps the state valid at
/// the next file.
proof fn lemma_rows_step(
    x: u64,
    o: u64,
    e: u64,
    rank: int,
    file: int,
    sx: bool,
    so: bool,
    se: bool,
)
    requires
        0 <= rank < 7,
        0 <= file < 7,
        spec_rows_state_ok(x, o, e, rank, file),
        !(sx && so) && !(sx && se) && !(so && se),
    ensures
        ({
            let bb = 1u64 << ((rank * 8 + file) as u64);
            spec_rows_state_ok(
                if sx { x | bb } else { x },
                if so { o | bb } else { o },
                if se { e | bb } else { e },
                rank,
                file + 1,
            )
        }),
{
    broadcast use group_bits;

    let q0 = (rank * 8 + file) as u64;
    assert(q0 / 8 == rank && q0 % 8 == file) by (nonlinear_arith)
        requires
            q0 == rank * 8 + file,
            0 <= file < 7,
            0 <= rank,
    ;
    assert(!bit(x, q0) && !bit(o, q0) && !bit(e, q0));
    let bb = 1u64 << q0;
    let x2 = if sx { x | bb } else { x };
    let o2 = if so { o | bb } else { o };
    let e2 = if se { e | bb } else { e };
    assert forall|q: u64| q < 64 implies bit(x2, q) == (bit(x, q) || (sx && q == q0)) && bit(o2, q)
        == (bit(o, q) || (so && q == q0)) && bit(e2, q) == (bit(e, q) || (se && q == q0)) by {}
}

/// Reading the rows of an Ataxx FEN from character `i` on, at `rank` and `file`, with the stones of
/// X and O and the empty squares read so far.
pub open spec fn spec_read_rows(w: Seq<char>, i: int, rank: int, file: int, x: u64, o: u64, e: u64) -> Result<
    (u64, u64, u64),
    AtaxxError,
>
    decreases w.len() - i,
{
    if i >= w.len() || i < 0 {
        if rank != 0 || file != 7 {
            Err(AtaxxError::InvalidFen)
        } else {
            Ok((x, o, e))
        }
    } else {
        let c = w[i];
        if c == '/' {
            if file != 7 || rank == 0 {
                Err(AtaxxError::InvalidFen)
            } else {
                spec_read_rows(w, i + 1, rank - 1, 0, x, o, e)
            }
        } else if '1' <= c && c <= '7' {
            let n = c as int - 48;
            if file + n > 7 {
                Err(AtaxxError::InvalidFen)
            } else {
                spec_read_rows(w, i + 1, rank, file + n, x, o, spec_add_run(e, rank, file, n))
            }
        } else if c == 'x' || c == 'o' || c == '-' || c == '.' {
            if file >= 7 {
                Err(AtaxxError::InvalidFen)
            } else {
                let bb = 1u64 << (rank * 8 + file) as u64;
                spec_read_rows(
                    w,
                    i + 1,
                    rank,
                    file + 1,
                    if c == 'x' {
                        x | bb
                    } else {
                        x
                    },
                    if c == 'o' {
                        o | bb
                    } else {
                        o
                    },
                    if c == '.' {
                        e | bb
                    } else {
                        e
                    },
                )
            }
        } else {
            Err(AtaxxError::InvalidFen)
        }
    }
}

/// A number of an Ataxx FEN: `None` if the word is not a number that fits.
pub open spec fn spec_fen_number(w: Seq<char>) -> Option<usize> {
    if w.len() > 0 && crate::text::all_digits(w) && crate::text::digits_value(w) <= usize::MAX {
        Some(crate::text::digits_value(w) as usize)
    } else {
        None
    }
}

/// Reading an Ataxx FEN given as words: the rows, the player to move (`x` or `o` in either case),
/// then the halfmove clock and the move number (which may be missing in relaxed mode), checked as
/// a FEN.
pub open spec fn spec_ataxx_read_fen(words: Seq<Seq<char>>, strict: bool) -> Result<AtaxxBoard, AtaxxError> {
    if words.len() < 2 {
        Err(AtaxxError::MissingFenPart)
    } else {
        match spec_read_rows(words[0], 0, 6, 0, 0, 0, 0) {
            Err(err) => Err(err),
            Ok((x, o, e)) => {
                let cw = words[1];
                let cc = if cw.len() == 1 {
                    crate::pieces::spec_to_ascii_lower(cw[0])
                } else {
                    ' '
                };
                if cw.len() != 1 || (cc != 'x' && cc != 'o') {
                    Err(AtaxxError::InvalidFen)
                } else {
                    let active = if cc == 'x' {
                        AtaxxColor::X
                    } else {
                        AtaxxColor::O
                    };
                    let half: Result<usize, AtaxxError> = if words.len() >= 3 {
                        match spec_fen_number(words[2]) {
                            Some(n) => Ok(n),
                            None => Err(AtaxxError::InvalidNumber),
                        }
                    } else if strict {
                        Err(AtaxxError::MissingFenPart)
                    } else {
                        Ok(0usize)
                    };
                    let full: Result<usize, AtaxxError> = if words.len() >= 4 {
                        match spec_fen_number(words[3]) {
                            Some(n) => Ok(n),
                            None => Err(AtaxxError::InvalidNumber),
                        }
                    } else if strict {
                        Err(AtaxxError::MissingFenPart)
                    } else {
                        Ok(1usize)
                    };
                    match half {
                        Err(err) => Err(err),
                        Ok(h) => match full {
                            Err(err) => Err(err),
                            Ok(f) => if f == 0 || f > 100_000 {
                                Err(AtaxxError::InvalidNumber)
                            } else {
                                spec_ataxx_verify(
                                    AtaxxBoard {
                                        colors: [x, o],
                                        empty: e,
                                        active_player: active,
                                        ply_100_ctr: h,
                                        ply: ((f - 1) * 2 + active.spec_idx()) as usize,
                                    },
                                    true,
                                )
                            },
                        },
                    }
                }
            },
        }
    }
}

/// The starting position: X on a1 and g1, O on a7 and g7, every other square of the 7x7 board
/// empty, X to move.
pub open spec fn spec_ataxx_startpos() -> AtaxxBoard {
    AtaxxBoard {
        colors: [0x41u64, 0x41_0000_0000_0000u64],
        empty: !(0u64 | INVALID_EDGE_MASK | 0x41_0000_0000_0000u64 | 0x41u64),
        active_player: AtaxxColor::X,
        ply_100_ctr: 0,
        ply: 0,
    }
}

/// A run of `n` empty squares in a FEN row: its length, or nothing.
pub open spec fn spec_run(n: nat) -> Seq<char> {
    if n > 0 {
        crate::text::decimal(n)
    } else {
        Seq::empty()
    }
}

/// The FEN of `rank` from `file` on, after `empty` empty squares: `x` and `o` for stones, `-` for
/// blocked squares, runs of empty squares by their length.
pub open spec fn spec_ataxx_row(b: AtaxxBoard, rank: int, file: int, empty: nat) -> Seq<char>
    decreases 7 - file,
{
    let sq = (rank * 8 + file) as u64;
    if file >= 7 {
        spec_run(empty)
    } else if bit(b.empty, sq) {
        spec_ataxx_row(b, rank, file + 1, empty + 1)
    } else {
        let ch = if bit(b.colors[0], sq) {
            'x'
        } else if bit(b.colors[1], sq) {
            'o'
        } else {
            '-'
        };
        spec_run(empty) + seq![ch] + spec_ataxx_row(b, rank, file + 1, 0)
    }
}

/// The FEN of the first `k` rows from the top, separated by `/`.
pub open spec fn spec_ataxx_rows(b: AtaxxBoard, k: int) -> Seq<char>
    decreases k,
{
    if k <= 0 {
        Seq::empty()
    } else {
        let rank = 7 - k;
        spec_ataxx_rows(b, k - 1) + spec_ataxx_row(b, rank, 0, 0) + if rank > 0 {
            seq!['/']
        } else {
            Seq::empty()
        }
    }
}

/// The FEN of an Ataxx position: the rows, the player to move, the halfmove clock and the move
/// number.
pub open spec fn spec_ataxx_fen(b: AtaxxBoard) -> Seq<char> {
    spec_ataxx_rows(b, 7) + seq![
        ' ',
        if b.active_player == AtaxxColor::X {
            'x'
        } else {
            'o'
        },
        ' ',
    ] + crate::text::decimal(b.ply_100_ctr as nat) + seq![' '] + crate::text::decimal(
        (b.ply / 2 + 1) as nat,
    )
}

/// The squares at distance 1 or 2 of a square of `b`, and `b` itself.
pub open spec fn spec_extended_moore(b: u64) -> u64 {
    let n1 = b | spec_moore_exclusive(b);
    n1 | spec_moore_exclusive(n1)
}

/// The squares at distance exactly 2 of square `s`.
pub open spec fn spec_leaping_targets(s: int) -> u64 {
    let b = 1u64 << s as u64;
    let n1 = b | spec_moore_exclusive(b);
    let n2 = n1 | spec_moore_exclusive(n1);
    n2 & !n1
}

/// The squares the player to move can clone onto.
pub open spec fn spec_clone_targets(b: AtaxxBoard) -> u64 {
    spec_moore_exclusive(b.colors[b.active_player.spec_idx()]) & b.empty & VALID_MASK
}

/// Whether square `s` lies on the 7x7 board.
pub open spec fn spec_valid_square(s: int) -> bool {
    0 <= s < 64 && s % 8 < 7 && s / 8 < 7
}

/// The squares the stone of the player to move on `s` can leap to.
pub open spec fn spec_leap_targets_from(b: AtaxxBoard, s: int) -> u64 {
    spec_leaping_targets(s) & b.empty & VALID_MASK
}

/// The number of leaps of the stones of the player to move on the squares of `sources`.
pub open spec fn spec_num_leaps(b: AtaxxBoard, sources: u64) -> nat
    decreases sources,
    via lemma_num_leaps_decreases
{
    if sources == 0 {
        0
    } else {
        let s = vstd::std_specs::bits::u64_trailing_zeros(sources) as int;
        (if spec_valid_square(s) {
            pop_count(spec_leap_targets_from(b, s))
        } else {
            0
        }) + spec_num_leaps(b, sources ^ (1u64 << s as u64))
    }
}

proof fn lemma_num_leaps_bound(b: AtaxxBoard, sources: u64)
    ensures
        spec_num_leaps(b, sources) <= 64 * pop_count(sources),
    decreases sources,
{
    if sources != 0 {
        vstd::std_specs::bits::axiom_u64_trailing_zeros(sources);
        let s = vstd::std_specs::bits::u64_trailing_zeros(sources) as u64;
        assert(s < 64 && (sources >> s) & 1u64 == 1u64 ==> (sources ^ (1u64 << s)) < sources)
            by (bit_vector);
        assert((sources >> s) & 1u64 == 1u64);
        crate::bits::lemma_pop_count_remove_bit(sources, s);
        crate::bits::lemma_pop_count_bound(spec_leap_targets_from(b, s as int));
        lemma_num_leaps_bound(b, sources ^ (1u64 << s));
    }
}

#[via_fn]
proof fn lemma_num_leaps_decreases(b: AtaxxBoard, sources: u64) {
    if sources != 0 {
        vstd::std_specs::bits::axiom_u64_trailing_zeros(sources);
        let s = vstd::std_specs::bits::u64_trailing_zeros(sources) as u64;
        assert(s < 64 && (sources >> s) & 1u64 == 1u64 ==> (sources ^ (1u64 << s)) < sources)
            by (bit_vector);
    }
}

/// Whether the player to move must pass: no clone or leap, but own stones and a move for the
/// opponent.
pub open spec fn spec_must_pass(b: AtaxxBoard) -> bool {
    let pieces = b.colors[b.active_player.spec_idx()];
    &&& pop_count(spec_clone_targets(b)) + spec_num_leaps(b, pieces & VALID_MASK) == 0
    &&& pieces != 0
    &&& spec_extended_moore(b.colors[b.active_player.spec_other().spec_idx()]) & b.empty != 0
}

/// The number of legal moves: the clones and leaps, or the pass.
pub open spec fn spec_num_moves(b: AtaxxBoard) -> nat {
    if spec_must_pass(b) {
        1
    } else {
        pop_count(spec_clone_targets(b)) + spec_num_leaps(
            b,
            b.colors[b.active_player.spec_idx()] & VALID_MASK,
        )
    }
}

/// Whether `r` is the position after playing `mov` in `b`: the other player is to move, the ply
/// advances, the halfmove clock advances except on a clone, and passing changes no stone.
pub open spec fn spec_played(b: AtaxxBoard, mov: Move, r: AtaxxBoard) -> bool {
    &&& r.active_player == b.active_player.spec_other()
    &&& r.ply == b.ply.wrapping_add(1)
    &&& mov.spec_is_pass() ==> r.colors == b.colors && r.empty == b.empty
    &&& r.ply_100_ctr == (if mov.spec_is_pass() || mov.source != u8::MAX {
        b.ply_100_ctr.wrapping_add(1)
    } else {
        0
    })
    &&& !mov.spec_is_pass() ==> r.colors[b.active_player.spec_idx()] == spec_after_move_own(b, mov)
    &&& !mov.spec_is_pass() ==> r.colors[b.active_player.spec_other().spec_idx()]
        == spec_after_move_other(b, mov)
    &&& !mov.spec_is_pass() ==> r.empty == spec_after_move_empty(b, mov)
}

/// The stones of the player to move after `mov`: a leaping stone leaves its square, then a stone
/// appears on the destination together with the converted opposing stones next to it.
pub open spec fn spec_after_move_own(b: AtaxxBoard, mov: Move) -> u64 {
    let own = b.colors[b.active_player.spec_idx()];
    let other = b.colors[b.active_player.spec_other().spec_idx()];
    let left = if mov.source != u8::MAX && mov.source < 64 {
        own ^ (1u64 << mov.source as u64)
    } else {
        own
    };
    if mov.target.idx >= 64 {
        left
    } else {
        let dest = 1u64 << mov.target.idx as u64;
        left | (other & spec_moore_exclusive(dest)) | dest
    }
}

/// The stones of the opponent after `mov`: those next to the destination are converted.
pub open spec fn spec_after_move_other(b: AtaxxBoard, mov: Move) -> u64 {
    let other = b.colors[b.active_player.spec_other().spec_idx()];
    if mov.target.idx >= 64 {
        other
    } else {
        let dest = 1u64 << mov.target.idx as u64;
        other ^ (other & spec_moore_exclusive(dest))
    }
}

/// The empty squares after `mov`: the square a leaping stone leaves and the destination toggle.
pub open spec fn spec_after_move_empty(b: AtaxxBoard, mov: Move) -> u64 {
    let left = if mov.source != u8::MAX && mov.source < 64 {
        b.empty ^ (1u64 << mov.source as u64)
    } else {
        b.empty
    };
    if mov.target.idx >= 64 {
        left
    } else {
        left ^ (1u64 << mov.target.idx as u64)
    }
}

/// The legality test of a single move: the pass when the player must pass, else a destination on
/// the board that is empty and either next to an own stone (a clone) or two squares away from the
/// own stone that leaps.
pub open spec fn spec_legal_check(b: AtaxxBoard, m: Move) -> bool {
    let pieces = b.colors[b.active_player.spec_idx()];
    let t = m.target.idx as int;
    if m.spec_is_pass() {
        spec_must_pass(b)
    } else if !spec_valid_square(t) || !bit(b.empty, t as u64) {
        false
    } else if m.source == u8::MAX {
        bit(spec_moore_exclusive(pieces), t as u64)
    } else {
        spec_valid_square(m.source as int) && bit(pieces, m.source as u64)
            && crate::squares::spec_sup_distance(m.source as int, t) == 2
    }
}

/// Whether `m` is a legal move: a clone onto a clone target, a leap of an own stone on the board
/// onto one of its leap targets, or the pass when the player must pass.
pub open spec fn spec_legal_move(b: AtaxxBoard, m: Move) -> bool {
    let pieces = b.colors[b.active_player.spec_idx()];
    ||| (m.source == u8::MAX && m.target.idx < 64 && bit(spec_clone_targets(b), m.target.idx as u64))
    ||| (spec_valid_square(m.source as int) && bit(pieces & VALID_MASK, m.source as u64)
        && m.target.idx < 64 && bit(
        spec_leap_targets_from(b, m.source as int),
        m.target.idx as u64,
    ))
    ||| (m.spec_is_pass() && spec_must_pass(b))
}
pub fn extended_moore_neighbors(b: u64) -> (r: u64)
    ensures
        r == spec_extended_moore(b),
{
    let n1 = b | moore_exclusive(b);
    n1 | moore_exclusive(n1)
}

/// The squares at distance exactly 2 of `square`.
pub fn leaping_targets(square: AtaxxSquare) -> (r: u64)
    requires
        square.wf(),
    ensures
        r == spec_leaping_targets(square.idx as int),
{
    let b = square.bb();
    let n1 = b | moore_exclusive(b);
    let n2 = n1 | moore_exclusive(n1);
    n2 & !n1
}

/// The result for the player to move when the game is over, from the stones alone: a player
/// without stones loses; on a full board the player with fewer stones loses and equal numbers
/// draw; otherwise 100 half moves without a clone draw, and the game goes on before that.
pub open spec fn spec_ataxx_result(b: AtaxxBoard) -> Option<PlayerResult> {
    let ours = b.colors[b.active_player.spec_idx()];
    let theirs = b.colors[b.active_player.spec_other().spec_idx()];
    if ours == 0 {
        Some(PlayerResult::Lose)
    } else if b.empty != 0 {
        if b.ply_100_ctr >= 100 {
            Some(PlayerResult::Draw)
        } else {
            None
        }
    } else if pop_count(ours) < pop_count(theirs) {
        Some(PlayerResult::Lose)
    } else if pop_count(ours) == pop_count(theirs) {
        Some(PlayerResult::Draw)
    } else {
        Some(PlayerResult::Win)
    }
}

impl AtaxxBoard {
    /// The stones of the two players and the empty squares don't overlap and lie on the 7x7 board.
    pub open spec fn wf(self) -> bool {
        &&& self.colors[0] & self.colors[1] == 0
        &&& self.empty & (self.colors[0] | self.colors[1]) == 0
        &&& (self.empty | self.colors[0] | self.colors[1]) & INVALID_EDGE_MASK == 0
    }

    /// A position with the given blocked squares and stones, X to move; an error if stones
    /// overlap or lie on blocked squares.
    pub fn create(blocked: u64, x_bb: u64, o_bb: u64) -> (r: Result<AtaxxBoard, AtaxxError>)
        ensures
            (o_bb & x_bb != 0) ==> r == Err::<AtaxxBoard, AtaxxError>(AtaxxError::OverlappingPieces),
            (o_bb & x_bb == 0 && (blocked | INVALID_EDGE_MASK) & (o_bb | x_bb) != 0) ==> r == Err::<
                AtaxxBoard,
                AtaxxError,
            >(AtaxxError::PiecesOnBlockedSquares),
            r.is_ok() <==> (o_bb & x_bb == 0 && (blocked | INVALID_EDGE_MASK) & (o_bb | x_bb) == 0),
            r.is_ok() ==> r.unwrap().wf() && r.unwrap().colors[0] == x_bb && r.unwrap().colors[1]
                == o_bb && r.unwrap().active_player == AtaxxColor::X && r.unwrap().ply == 0
                && r.unwrap().ply_100_ctr == 0 && r.unwrap().empty == !(blocked | INVALID_EDGE_MASK
                | o_bb | x_bb),
    {
        let all_blocked = blocked | INVALID_EDGE_MASK;
        if o_bb & x_bb != 0 {
            return Err(AtaxxError::OverlappingPieces);
        }
        if all_blocked & (o_bb | x_bb) != 0 {
            return Err(AtaxxError::PiecesOnBlockedSquares);
        }
        let empty = !(all_blocked | o_bb | x_bb);
        proof {
            assert(x_bb & o_bb == 0 && empty & (x_bb | o_bb) == 0 && (empty | x_bb | o_bb)
                & INVALID_EDGE_MASK == 0) by (bit_vector)
                requires
                    o_bb & x_bb == 0,
                    all_blocked & (o_bb | x_bb) == 0,
                    empty == !(all_blocked | o_bb | x_bb),
                    all_blocked == blocked | INVALID_EDGE_MASK,
            ;
        }
        Ok(
            AtaxxBoard {
                colors: [x_bb, o_bb],
                empty,
                active_player: AtaxxColor::X,
                ply_100_ctr: 0,
                ply: 0,
            },
        )
    }

    /// The position without stones or blocked squares.
    pub fn empty() -> (r: AtaxxBoard)
        ensures
            r.wf(),
            r.colors[0] == 0 && r.colors[1] == 0,
            r == (AtaxxBoard {
                colors: [0u64, 0u64],
                empty: VALID_MASK,
                active_player: AtaxxColor::X,
                ply_100_ctr: 0,
                ply: 0,
            }),
    {
        let r = AtaxxBoard {
            colors: [0, 0],
            empty: VALID_MASK,
            active_player: AtaxxColor::X,
            ply_100_ctr: 0,
            ply: 0,
        };
        proof {
            let (e, a, b) = (r.empty, r.colors[0], r.colors[1]);
            assert(a & b == 0 && e & (a | b) == 0 && (e | a | b) & INVALID_EDGE_MASK == 0)
                by (bit_vector)
                requires
                    e == VALID_MASK,
                    a == 0u64,
                    b == 0u64,
            ;
        }
        r
    }

    /// The starting position: X on a1 and g1, O on a7 and g7.
    pub fn startpos() -> (r: AtaxxBoard)
        ensures
            r.wf(),
            r.colors[0] == 0x41u64,
            r.colors[1] == 0x41_0000_0000_0000u64,
            r == spec_ataxx_startpos(),
    {
        let x_bb: u64 = 0x41;
        let o_bb: u64 = 0x41_0000_0000_0000;
        assert(o_bb & x_bb == 0 && (0u64 | INVALID_EDGE_MASK) & (o_bb | x_bb) == 0) by (bit_vector)
            requires
                x_bb == 0x41u64,
                o_bb == 0x41_0000_0000_0000u64,
        ;
        match Self::create(0, x_bb, o_bb) {
            Ok(b) => {
                assert(b.colors =~= spec_ataxx_startpos().colors);
                b
            },
            Err(_) => Self::empty(),
        }
    }

    /// The stones of `color`.
    pub fn color_bb(&self, color: AtaxxColor) -> (r: u64)
        ensures
            r == self.colors[color.spec_idx()],
    {
        self.colors[color.idx()]
    }

    /// The squares holding a stone.
    pub fn occupied_non_blocked_bb(&self) -> (r: u64)
        ensures
            r == self.colors[0] | self.colors[1],
    {
        self.colors[0] | self.colors[1]
    }

    /// The empty squares.
    pub fn empty_bb(&self) -> (r: u64)
        ensures
            r == self.empty,
    {
        self.empty
    }

    /// The blocked squares, including those outside the 7x7 board.
    pub fn blocked_bb(&self) -> (r: u64)
        ensures
            r == !(self.empty | self.colors[0] | self.colors[1]),
    {
        !(self.empty | self.colors[0] | self.colors[1])
    }

    /// The stones of the player to move.
    pub fn active_player_bb(&self) -> (r: u64)
        ensures
            r == self.colors[self.active_player.spec_idx()],
    {
        self.color_bb(self.active_player)
    }

    /// The stones of the player not to move.
    pub fn inactive_player_bb(&self) -> (r: u64)
        ensures
            r == self.colors[self.active_player.spec_other().spec_idx()],
    {
        self.color_bb(self.active_player.other())
    }

    /// The settings of the position: its blocked squares.
    pub fn settings(&self) -> (r: AtaxxSettings)
        ensures
            r.blocked == !(self.empty | self.colors[0] | self.colors[1]),
    {
        AtaxxSettings { blocked: self.blocked_bb() }
    }

    /// What `square` holds.
    pub fn piece_type_on(&self, square: AtaxxSquare) -> (r: AtaxxPieceType)
        requires
            square.wf(),
        ensures
            r == AtaxxPieceType::Empty <==> bit(self.empty, square.idx as u64),
    {
        if has_bit(self.empty, square.idx) {
            AtaxxPieceType::Empty
        } else if has_bit(self.colors[0] | self.colors[1], square.idx) {
            AtaxxPieceType::Occupied
        } else {
            AtaxxPieceType::Blocked
        }
    }

    /// Whether `square` is empty.
    pub fn is_empty(&self, square: AtaxxSquare) -> (r: bool)
        requires
            square.wf(),
        ensures
            r == bit(self.empty, square.idx as u64),
    {
        has_bit(self.empty, square.idx)
    }

    /// The number of half moves played since the start.
    pub fn halfmove_ctr_since_start(&self) -> (r: usize)
        ensures
            r == self.ply,
    {
        self.ply
    }

    /// The number of half moves since the last clone.
    pub fn halfmove_repetition_clock(&self) -> (r: usize)
        ensures
            r == self.ply_100_ctr,
    {
        self.ply_100_ctr
    }

    /// Appends the legal moves: clones onto empty squares next to own stones, then leaps of each own
    /// stone onto empty squares two squares away. Without such a move, the player passes if the
    /// opponent can move, and has no move otherwise (the game is over).
    pub fn gen_legal(&self, moves: &mut Vec<Move>)
        ensures
            forall|m: Move| #[trigger]
                final(moves)@.contains(m) <==> old(moves)@.contains(m) || spec_legal_move(*self, m),
            final(moves)@.len() == old(moves)@.len() + spec_num_moves(*self),
    {
        broadcast use group_bits;

        let start = moves.len();
        let pieces = self.active_player_bb();
        let empty = self.empty_bb();
        let clones = moore_exclusive(pieces) & empty & VALID_MASK;
        let mut neighbors = clones;
        proof {
            crate::bits::lemma_pop_count_bound(clones);
        }
        while neighbors != 0
            invariant
                clones == spec_clone_targets(*self),
                forall|d: u64| d < 64 && #[trigger] bit(neighbors, d) ==> bit(clones, d),
                pop_count(neighbors) <= pop_count(clones) <= 64,
                moves@.len() == start + pop_count(clones) - pop_count(neighbors),
                start == old(moves)@.len(),
                forall|m: Move| #[trigger]
                    moves@.contains(m) <==> old(moves)@.contains(m) || (m.source == u8::MAX && m.target.idx < 64 && bit(
                        clones,
                        m.target.idx as u64,
                    ) && !bit(neighbors, m.target.idx as u64)),
            decreases neighbors,
        {
            let ghost prev = moves@;
            let ghost old_n = neighbors;
            let (i, rest) = pop_lsb(neighbors);
            proof {
                crate::bits::lemma_pop_count_remove_bit(neighbors, i as u64);
            }
            neighbors = rest;
            let mv = Move::cloning(AtaxxSquare { idx: i });
            moves.push(mv);
            assert forall|m: Move| #[trigger]
                moves@.contains(m) <==> old(moves)@.contains(m) || (m.source == u8::MAX && m.target.idx < 64 && bit(
                    clones,
                    m.target.idx as u64,
                ) && !bit(neighbors, m.target.idx as u64)) by {
                vstd::seq_lib::lemma_seq_contains_after_push(prev, mv, m);
                let t = m.target.idx as u64;
                if t < 64 {
                    assert(bit(neighbors, t) == (bit(old_n, t) && t != i));
                }
            }
        }
        let all_sources = pieces & VALID_MASK;
        let mut sources = all_sources;
        let ghost after_clones = moves@;
        proof {
            lemma_num_leaps_bound(*self, all_sources);
            crate::bits::lemma_pop_count_bound(all_sources);
            assert forall|m: Move| #[trigger]
                moves@.contains(m) <==> old(moves)@.contains(m) || (m.source == u8::MAX && m.target.idx < 64 && bit(
                    clones,
                    m.target.idx as u64,
                )) || (spec_valid_square(m.source as int) && bit(all_sources, m.source as u64)
                    && !bit(sources, m.source as u64) && m.target.idx < 64 && bit(
                    spec_leap_targets_from(*self, m.source as int),
                    m.target.idx as u64,
                )) by {
                if m.target.idx < 64 {
                    crate::bits::lemma_bit_zero(m.target.idx as u64);
                }
            }
        }
        while sources != 0
            invariant
                clones == spec_clone_targets(*self),
                pieces == self.colors[self.active_player.spec_idx()],
                empty == self.empty,
                all_sources == pieces & VALID_MASK,
                forall|d: u64| d < 64 && #[trigger] bit(sources, d) ==> bit(all_sources, d),
                start == old(moves)@.len(),
                pop_count(clones) <= 64,
                moves@.len() + spec_num_leaps(*self, sources) == start + pop_count(clones)
                    + spec_num_leaps(*self, all_sources),
                spec_num_leaps(*self, sources) <= spec_num_leaps(*self, all_sources),
                spec_num_leaps(*self, all_sources) <= 64 * 64,
                spec_num_leaps(*self, sources) <= 64 * pop_count(sources),
                forall|m: Move| #[trigger]
                    moves@.contains(m) <==> old(moves)@.contains(m) || (m.source == u8::MAX && m.target.idx < 64 && bit(
                        clones,
                        m.target.idx as u64,
                    )) || (spec_valid_square(m.source as int) && bit(all_sources, m.source as u64)
                        && !bit(sources, m.source as u64) && m.target.idx < 64 && bit(
                        spec_leap_targets_from(*self, m.source as int),
                        m.target.idx as u64,
                    )),
            decreases sources,
        {
            let ghost old_s = sources;
            let (s, rest) = pop_lsb(sources);
            proof {
                crate::bits::lemma_pop_count_remove_bit(sources, s as u64);
                lemma_num_leaps_bound(*self, rest);
            }
            sources = rest;
            assert(spec_num_leaps(*self, old_s) == (if spec_valid_square(s as int) {
                pop_count(spec_leap_targets_from(*self, s as int))
            } else {
                0
            }) + spec_num_leaps(*self, sources));
            let ghost m0 = moves@;
            if s % 8 < 7 && s / 8 < 7 {
                let source = AtaxxSquare { idx: s };
                let all_leaps = leaping_targets(source) & empty & VALID_MASK;
                let mut leaps = all_leaps;
                proof {
                    crate::bits::lemma_pop_count_bound(all_leaps);
                }
                while leaps != 0
                    invariant
                        source.idx == s,
                        all_leaps == spec_leap_targets_from(*self, s as int),
                        forall|d: u64| d < 64 && #[trigger] bit(leaps, d) ==> bit(all_leaps, d),
                        pop_count(leaps) <= pop_count(all_leaps) <= 64,
                        moves@.len() == m0.len() + pop_count(all_leaps) - pop_count(leaps),
                        forall|m: Move| #[trigger]
                            moves@.contains(m) <==> m0.contains(m) || (m.source == s && m.target.idx < 64 && bit(
                                all_leaps,
                                m.target.idx as u64,
                            ) && !bit(leaps, m.target.idx as u64)),
                    decreases leaps,
                {
                    let ghost prev = moves@;
                    let ghost old_l = leaps;
                    let (t, rest2) = pop_lsb(leaps);
                    proof {
                        crate::bits::lemma_pop_count_remove_bit(leaps, t as u64);
                    }
                    leaps = rest2;
                    let mv = Move::leaping(source, AtaxxSquare { idx: t });
                    moves.push(mv);
                    assert forall|m: Move| #[trigger]
                        moves@.contains(m) <==> m0.contains(m) || (m.source == s && m.target.idx < 64 && bit(
                            all_leaps,
                            m.target.idx as u64,
                        ) && !bit(leaps, m.target.idx as u64)) by {
                        vstd::seq_lib::lemma_seq_contains_after_push(prev, mv, m);
                        let tt = m.target.idx as u64;
                        if tt < 64 {
                            assert(bit(leaps, tt) == (bit(old_l, tt) && tt != t));
                        }
                    }
                }
            }
            assert forall|m: Move| #[trigger]
                moves@.contains(m) <==> old(moves)@.contains(m) || (m.source == u8::MAX && m.target.idx < 64 && bit(
                    clones,
                    m.target.idx as u64,
                )) || (spec_valid_square(m.source as int) && bit(all_sources, m.source as u64)
                    && !bit(sources, m.source as u64) && m.target.idx < 64 && bit(
                    spec_leap_targets_from(*self, m.source as int),
                    m.target.idx as u64,
                )) by {
                let src = m.source as u64;
                if src < 64 {
                    assert(bit(sources, src) == (bit(old_s, src) && src != s));
                }
            }
        }
        let ghost after_leaps = moves@;
        proof {
            crate::bits::lemma_pop_count_zero(clones);
        }
        if moves.len() == start && pieces != 0 {
            let other_bb = self.inactive_player_bb();
            if extended_moore_neighbors(other_bb) & empty != 0 {
                let p = Move::pass();
                moves.push(p);
                assert forall|m: Move| #[trigger]
                    moves@.contains(m) <==> old(moves)@.contains(m) || spec_legal_move(*self, m) by {
                    vstd::seq_lib::lemma_seq_contains_after_push(after_leaps, p, m);
                    if m.target.idx < 64 {
                        crate::bits::lemma_bit_zero(m.target.idx as u64);
                    }
                }
            }
        }
        assert forall|m: Move| #[trigger]
            moves@.contains(m) <==> old(moves)@.contains(m) || spec_legal_move(*self, m) by {
            if m.source < 64 {
                crate::bits::lemma_bit_zero(m.source as u64);
            }
            if moves@ == after_leaps && m.target.idx < 64 {
                crate::bits::lemma_bit_zero(m.target.idx as u64);
            }
        }
    }

    /// The number of legal moves, counted without generating them.
    pub fn num_moves(&self) -> (r: usize)
        ensures
            r == spec_num_moves(*self),
    {
        let pieces = self.active_player_bb();
        let empty = self.empty_bb();
        let clones = moore_exclusive(pieces) & empty & VALID_MASK;
        let mut res: usize = num_ones(clones) as usize;
        let all_sources = pieces & VALID_MASK;
        let mut sources = all_sources;
        proof {
            crate::bits::lemma_pop_count_bound(sources);
            lemma_num_leaps_bound(*self, all_sources);
        }
        while sources != 0
            invariant
                pieces == self.colors[self.active_player.spec_idx()],
                empty == self.empty,
                clones == spec_clone_targets(*self),
                res + spec_num_leaps(*self, sources) == pop_count(clones) + spec_num_leaps(
                    *self,
                    all_sources,
                ),
                pop_count(clones) <= 64,
                spec_num_leaps(*self, sources) <= 64 * pop_count(sources),
                pop_count(sources) <= 64,
                spec_num_leaps(*self, all_sources) <= 64 * 64,
            decreases sources,
        {
            let (s, rest) = pop_lsb(sources);
            proof {
                crate::bits::lemma_pop_count_remove_bit(sources, s as u64);
                crate::bits::lemma_pop_count_bound(rest);
                lemma_num_leaps_bound(*self, rest);
            }
            assert(spec_num_leaps(*self, sources) == (if spec_valid_square(s as int) {
                pop_count(spec_leap_targets_from(*self, s as int))
            } else {
                0
            }) + spec_num_leaps(*self, rest));
            sources = rest;
            if s % 8 < 7 && s / 8 < 7 {
                let source = AtaxxSquare { idx: s };
                res = res + num_ones(leaping_targets(source) & empty & VALID_MASK) as usize;
            }
        }
        if res == 0 && pieces != 0 {
            if extended_moore_neighbors(self.inactive_player_bb()) & empty != 0 {
                return 1;
            }
        }
        res
    }

    /// The legal moves, as many as [`Self::num_moves`] counts.
    pub fn legal_moves(&self) -> (r: Vec<Move>)
        ensures
            forall|m: Move| #[trigger] r@.contains(m) <==> spec_legal_move(*self, m),
            r@.len() == spec_num_moves(*self),
    {
        let mut moves: Vec<Move> = Vec::new();
        self.gen_legal(&mut moves);
        moves
    }

    /// A random legal move; `None` if the game is over.
    pub fn random_legal_move(&self, rng: &mut StdRng) -> (r: Option<Move>)
        ensures
            r.is_none() <==> spec_num_moves(*self) == 0,
            r.is_some() ==> spec_legal_move(*self, r.unwrap()),
    {
        let moves = self.pseudolegal_moves();
        crate::random::choose_from_slice(moves.as_slice(), rng)
    }

    /// A random pseudolegal move, the same as a random legal move.
    pub fn random_pseudolegal_move(&self, rng: &mut StdRng) -> (r: Option<Move>)
        ensures
            r.is_none() <==> spec_num_moves(*self) == 0,
            r.is_some() ==> spec_legal_move(*self, r.unwrap()),
    {
        self.random_legal_move(rng)
    }

    /// The legal moves (every pseudolegal Ataxx move is legal).
    pub fn pseudolegal_moves(&self) -> (r: Vec<Move>)
        ensures
            forall|m: Move| #[trigger] r@.contains(m) <==> spec_legal_move(*self, m),
            r@.len() == spec_num_moves(*self),
    {
        self.legal_moves()
    }

    /// Plays `mov`, which should be legal: the stone is placed, a leaping stone leaves its square,
    /// and the opposing stones next to the destination change color. Passing only hands over the
    /// turn.
    pub fn make_move_impl(self, mov: Move) -> (r: AtaxxBoard)
        ensures
            spec_played(self, mov, r),
    {
        let mut b = self;
        let color = self.active_player;
        let ci = color.idx();
        let oi = color.other().idx();
        b.active_player = color.other();
        b.ply = b.ply.wrapping_add(1);
        if mov.source == 0 && mov.target.idx == 0 {
            b.ply_100_ctr = b.ply_100_ctr.wrapping_add(1);
            return b;
        }
        if mov.typ() == AtaxxMoveType::Leaping {
            if mov.source < 64 {
                let source_bb = 1u64 << mov.source;
                b.colors[ci] = b.colors[ci] ^ source_bb;
                b.empty = b.empty ^ source_bb;
            }
            b.ply_100_ctr = b.ply_100_ctr.wrapping_add(1);
        } else {
            b.ply_100_ctr = 0;
        }
        if mov.target.idx >= 64 {
            return b;
        }
        let dest_bb = 1u64 << mov.target.idx;
        let in_range = moore_exclusive(dest_bb);
        let converted = b.colors[oi] & in_range;
        b.colors[oi] = b.colors[oi] ^ converted;
        b.colors[ci] = b.colors[ci] | converted | dest_bb;
        b.empty = b.empty ^ dest_bb;
        b
    }

    /// Plays a legal move; always succeeds.
    pub fn make_move(self, mov: Move) -> (r: Option<AtaxxBoard>)
        ensures
            r.is_some(),
            spec_played(self, mov, r.unwrap()),
            self.wf() && spec_legal_move(self, mov) ==> r.unwrap().wf(),
    {
        let res = self.make_move_impl(mov);
        proof {
            if self.wf() && spec_legal_move(self, mov) {
                law_make_move_keeps_valid(self, mov, res);
            }
        }
        Some(res)
    }

    /// Passes the turn.
    pub fn make_nullmove(self) -> (r: Option<AtaxxBoard>)
        ensures
            r == Some(
                AtaxxBoard {
                    active_player: self.active_player.spec_other(),
                    ply: self.ply.wrapping_add(1),
                    ply_100_ctr: self.ply_100_ctr.wrapping_add(1),
                    ..self
                },
            ),
    {
        let mut b = self;
        b.active_player = b.active_player.other();
        b.ply = b.ply.wrapping_add(1);
        b.ply_100_ctr = b.ply_100_ctr.wrapping_add(1);
        Some(b)
    }

    /// Whether `mov` is legal: passing only when it is the only legal move, otherwise the
    /// destination is empty and either next to an own stone (cloning) or two squares away from the
    /// own leaping stone.
    pub fn is_move_legal_impl(&self, mov: Move) -> (r: bool)
        ensures
            r == spec_legal_check(*self, mov),
    {
        broadcast use group_bits;

        if mov.source == 0 && mov.target.idx == 0 {
            let moves = self.pseudolegal_moves();
            let p = Move::pass();
            proof {
                if spec_must_pass(*self) {
                    assert(spec_legal_move(*self, p));
                    assert(moves@.contains(p));
                    assert(moves@[0] == p);
                } else if moves@.len() > 0 {
                    assert(moves@.contains(moves@[0]));
                    assert(!bit(spec_leaping_targets(0), 0u64));
                }
            }
            return moves.len() > 0 && moves[0] == p;
        }
        let target = mov.target;
        if target.idx >= 64 || target.idx % 8 >= 7 || target.idx / 8 >= 7 {
            return false;
        }
        if !has_bit(self.empty, target.idx) {
            return false;
        }
        let pieces = self.active_player_bb();
        if mov.typ() == AtaxxMoveType::Cloning {
            has_bit(moore_exclusive(pieces), target.idx)
        } else {
            if mov.source >= 64 || mov.source % 8 >= 7 || mov.source / 8 >= 7 {
                return false;
            }
            let source = AtaxxSquare { idx: mov.source };
            has_bit(pieces, mov.source) && source.distance(target) == 2
        }
    }

    /// Whether `mov` is legal: exactly the moves [`Self::legal_moves`] generates.
    pub fn is_move_legal(&self, mov: Move) -> (r: bool)
        ensures
            r == spec_legal_check(*self, mov),
            r == spec_legal_move(*self, mov),
    {
        proof {
            law_legality_test_matches_generator(*self, mov);
        }
        self.is_move_legal_impl(mov)
    }

    /// Whether `mov` is pseudolegal, which for Ataxx is the same as legal.
    pub fn is_move_pseudolegal(&self, mov: Move) -> (r: bool)
        ensures
            r == spec_legal_check(*self, mov),
            r == spec_legal_move(*self, mov),
    {
        proof {
            law_legality_test_matches_generator(*self, mov);
        }
        self.is_move_legal_impl(mov)
    }

    /// What the hash of the position is computed from: the stones of `X`, the stones of `O` and
    /// the player to move.
    pub fn hash_input(&self) -> (r: (u64, u64, AtaxxColor))
        ensures
            r == (self.colors[0], self.colors[1], self.active_player),
    {
        (self.colors[0], self.colors[1], self.active_player)
    }

    /// The hash of the stones and the player to move, as std's default hasher computes it from
    /// [`Self::hash_input`].
    pub fn hash_impl(&self) -> (r: PosHash) {
        let (x_bb, o_bb, active) = self.hash_input();
        let mut hasher = DefaultHasher::new();
        hash_stones_into(x_bb, o_bb, active, &mut hasher);
        PosHash(hasher.finish())
    }

    /// The hash of the position.
    pub fn zobrist_hash(&self) -> (r: PosHash) {
        self.hash_impl()
    }

    /// The result for the player to move if the game is over, from the stones alone: a player
    /// without stones loses, a full board is decided by the number of stones, and 100 half moves
    /// without a clone draw.
    pub fn player_result_no_movegen(&self) -> (r: Option<PlayerResult>)
        ensures
            r == spec_ataxx_result(*self),
    {
        let color = self.active_player;
        if self.color_bb(color) == 0 {
            return Some(PlayerResult::Lose);
        } else if self.empty != 0 {
            if self.ply_100_ctr >= 100 {
                return Some(PlayerResult::Draw);
            }
            return None;
        }
        let ours = num_ones(self.color_bb(color));
        let theirs = num_ones(self.color_bb(color.other()));
        Some(
            if ours < theirs {
                PlayerResult::Lose
            } else if ours == theirs {
                PlayerResult::Draw
            } else {
                PlayerResult::Win
            },
        )
    }

    /// The result for the player to move if the game is over (the same as
    /// [`Self::player_result_no_movegen`]).
    pub fn player_result_slow(&self) -> (r: Option<PlayerResult>)
        ensures
            r == spec_ataxx_result(*self),
    {
        self.player_result_no_movegen()
    }

    /// Whether the player to move has lost.
    pub fn is_game_lost_slow(&self) -> (r: bool)
        ensures
            r == (spec_ataxx_result(*self) == Some(PlayerResult::Lose)),
    {
        match self.player_result_slow() {
            Some(PlayerResult::Lose) => true,
            _ => false,
        }
    }

    /// The FEN of the position: the rows from the 7th down with `x`, `o`, `-` for blocked squares and
    /// digits for runs of empty squares, then the player to move, the halfmove clock and the move
    /// number.
    pub fn as_fen(&self) -> (r: String)
        ensures
            r@ == spec_ataxx_fen(*self),
    {
        let mut out: Vec<char> = Vec::new();
        let mut rank: u8 = 7;
        while rank > 0
            invariant
                rank <= 7,
                out@ == spec_ataxx_rows(*self, 7 - rank),
            decreases rank,
        {
            rank = rank - 1;
            let ghost base = out@;
            let mut empty_run: usize = 0;
            let mut file: u8 = 0;
            while file < 7
                invariant
                    file <= 7,
                    rank < 7,
                    empty_run <= file,
                    base + spec_ataxx_row(*self, rank as int, 0, 0) == out@ + spec_ataxx_row(
                        *self,
                        rank as int,
                        file as int,
                        empty_run as nat,
                    ),
                decreases 7 - file,
            {
                let sq = AtaxxSquare::from_rank_file(rank, file);
                if has_bit(self.empty, sq.idx) {
                    empty_run = empty_run + 1;
                } else {
                    let ghost before = out@;
                    let ghost e0 = empty_run as nat;
                    if empty_run > 0 {
                        push_decimal(&mut out, empty_run);
                        empty_run = 0;
                    }
                    assert(out@ == before + spec_run(e0));
                    let ch = if has_bit(self.colors[0], sq.idx) {
                        'x'
                    } else if has_bit(self.colors[1], sq.idx) {
                        'o'
                    } else {
                        '-'
                    };
                    out.push(ch);
                    empty_run = 0;
                    assert(spec_ataxx_row(*self, rank as int, file as int, e0) == spec_run(e0)
                        + seq![ch] + spec_ataxx_row(*self, rank as int, file + 1, 0));
                    assert(out@ + spec_ataxx_row(*self, rank as int, file + 1, 0) == before
                        + spec_ataxx_row(*self, rank as int, file as int, e0));
                }
                file = file + 1;
            }
            let ghost before = out@;
            if empty_run > 0 {
                push_decimal(&mut out, empty_run);
            }
            assert(out@ == before + spec_run(empty_run as nat));
            if rank > 0 {
                out.push('/');
            }
            assert(out@ == spec_ataxx_rows(*self, 7 - rank));
        }
        out.push(' ');
        out.push(self.active_player.color_char());
        out.push(' ');
        push_decimal(&mut out, self.ply_100_ctr);
        out.push(' ');
        push_decimal(&mut out, self.ply / 2 + 1);
        assert(out@ == spec_ataxx_fen(*self));
        string_from_chars(out.as_slice())
    }

    /// Parses a FEN (see [`Self::as_fen`]); the player letter may be uppercase, and in relaxed mode
    /// the halfmove clock and move number may be missing.
    pub fn read_fen_impl(words: &Vec<Vec<char>>, strictness: Strictness) -> (r: Result<
        AtaxxBoard,
        AtaxxError,
    >)
        ensures
            r == spec_ataxx_read_fen(crate::text::spec_views(words@), strictness == Strictness::Strict),
            r.is_ok() ==> r.unwrap().wf(),
    {
        if words.len() < 2 {
            return Err(AtaxxError::MissingFenPart);
        }
        let strict = strictness == Strictness::Strict;
        let ghost dw = crate::text::spec_views(words@);
        assert(dw[0] == words@[0]@);
        assert(dw[1] == words@[1]@);
        let mut board = UnverifiedAtaxxBoard(AtaxxBoard::empty());
        board.0.empty = 0;
        let position = &words[0];
        let mut rank: u8 = 6;
        let mut file: u8 = 0;
        let mut i: usize = 0;
        while i < position.len()
            invariant
                rank < 7,
                file <= 7,
                i <= position@.len(),
                position@ == dw[0],
                dw == crate::text::spec_views(words@),
                words@.len() >= 2,
                spec_rows_state_ok(board.0.colors[0], board.0.colors[1], board.0.empty, rank as int, file as int),
                spec_read_rows(dw[0], 0, 6, 0, 0, 0, 0) == spec_read_rows(
                    dw[0],
                    i as int,
                    rank as int,
                    file as int,
                    board.0.colors[0],
                    board.0.colors[1],
                    board.0.empty,
                ),
            decreases position@.len() - i,
        {
            let c = position[i];
            let ghost here = spec_read_rows(
                dw[0],
                i as int,
                rank as int,
                file as int,
                board.0.colors[0],
                board.0.colors[1],
                board.0.empty,
            );
            assert(c == dw[0][i as int]);
            if c == '/' {
                if file != 7 || rank == 0 {
                    assert(here == Err::<(u64, u64, u64), AtaxxError>(AtaxxError::InvalidFen));
                    return Err(AtaxxError::InvalidFen);
                }
                rank = rank - 1;
                file = 0;
                assert(here == spec_read_rows(dw[0], i + 1, rank as int, file as int, board.0.colors[0], board.0.colors[1], board.0.empty));
            } else if '1' <= c && c <= '7' {
                let n = (c as u32 - 48) as u8;
                if file + n > 7 {
                    assert(here == Err::<(u64, u64, u64), AtaxxError>(AtaxxError::InvalidFen));
                    return Err(AtaxxError::InvalidFen);
                }
                let ghost e0 = board.0.empty;
                let ghost f0 = file;
                let ghost cols = board.0.colors;
                let mut k: u8 = 0;
                while k < n
                    invariant
                        board.0.colors == cols,
                        spec_rows_state_ok(board.0.colors[0], board.0.colors[1], board.0.empty, rank as int, file as int),
                        rank < 7,
                        file + n - k <= 7,
                        k <= n,
                        file == f0 + k,
                        spec_add_run(e0, rank as int, f0 as int, n as int) == spec_add_run(
                            board.0.empty,
                            rank as int,
                            file as int,
                            (n - k) as int,
                        ),
                    decreases n - k,
                {
                    let sq = AtaxxSquare::from_rank_file(rank, file);
                    proof {
                        lemma_rows_step(board.0.colors[0], board.0.colors[1], board.0.empty, rank as int, file as int, false, false, true);
                    }
                    board.0.empty = board.0.empty | sq.bb();
                    file = file + 1;
                    k = k + 1;
                }
                assert(spec_add_run(board.0.empty, rank as int, file as int, 0) == board.0.empty);
                assert(here == spec_read_rows(dw[0], i + 1, rank as int, file as int, board.0.colors[0], board.0.colors[1], board.0.empty));
            } else if c == 'x' || c == 'o' || c == '-' || c == '.' {
                if file >= 7 {
                    assert(here == Err::<(u64, u64, u64), AtaxxError>(AtaxxError::InvalidFen));
                    return Err(AtaxxError::InvalidFen);
                }
                let sq = AtaxxSquare::from_rank_file(rank, file);
                proof {
                    lemma_rows_step(board.0.colors[0], board.0.colors[1], board.0.empty, rank as int, file as int, c == 'x', c == 'o', c == '.');
                }
                if c == 'x' {
                    board.0.colors[0] = board.0.colors[0] | sq.bb();
                } else if c == 'o' {
                    board.0.colors[1] = board.0.colors[1] | sq.bb();
                } else if c == '.' {
                    board.0.empty = board.0.empty | sq.bb();
                }
                file = file + 1;
                assert(here == spec_read_rows(dw[0], i + 1, rank as int, file as int, board.0.colors[0], board.0.colors[1], board.0.empty));
            } else {
                assert(here == Err::<(u64, u64, u64), AtaxxError>(AtaxxError::InvalidFen));
                return Err(AtaxxError::InvalidFen);
            }
            i = i + 1;
        }
        assert(spec_read_rows(
            dw[0],
            i as int,
            rank as int,
            file as int,
            board.0.colors[0],
            board.0.colors[1],
            board.0.empty,
        ) == (if rank != 0 || file != 7 {
            Err::<(u64, u64, u64), AtaxxError>(AtaxxError::InvalidFen)
        } else {
            Ok((board.0.colors[0], board.0.colors[1], board.0.empty))
        }));
        if rank != 0 || file != 7 {
            return Err(AtaxxError::InvalidFen);
        }
        let color_word = &words[1];
        if color_word.len() != 1 {
            return Err(AtaxxError::InvalidFen);
        }
        let cc = crate::pieces::to_ascii_lower(color_word[0]);
        let active = if cc == 'x' {
            AtaxxColor::X
        } else if cc == 'o' {
            AtaxxColor::O
        } else {
            return Err(AtaxxError::InvalidFen);
        };
        board.0.active_player = active;
        let mut halfmove: usize = 0;
        let mut fullmove: usize = 1;
        if words.len() >= 3 {
            assert(dw[2] == words@[2]@);
            match parse_usize(words[2].as_slice()) {
                Some(n) => halfmove = n,
                None => return Err(AtaxxError::InvalidNumber),
            }
        } else if strict {
            return Err(AtaxxError::MissingFenPart);
        }
        if words.len() >= 4 {
            assert(dw[3] == words@[3]@);
            match parse_usize(words[3].as_slice()) {
                Some(n) => fullmove = n,
                None => return Err(AtaxxError::InvalidNumber),
            }
        } else if strict {
            return Err(AtaxxError::MissingFenPart);
        }
        if fullmove == 0 || fullmove > 100_000 {
            return Err(AtaxxError::InvalidNumber);
        }
        board.0.ply_100_ctr = halfmove;
        board.0.ply = (fullmove - 1) * 2 + active.idx();
        assert(board.0.colors == [board.0.colors[0], board.0.colors[1]]);
        proof {
            let (x, o, e) = (board.0.colors[0], board.0.colors[1], board.0.empty);
            assert forall|q: u64| q < 64 implies !#[trigger] bit(x & o, q) by {
                assert(!(bit(x, q) && bit(o, q)));
            }
            assert forall|q: u64| q < 64 implies !#[trigger] bit(e & (x | o), q) by {
                assert(!(bit(e, q) && (bit(x, q) || bit(o, q))));
            }
            crate::bits::lemma_no_bits_zero(x & o);
            crate::bits::lemma_no_bits_zero(e & (x | o));
        }
        board.verify_with_level(true)
    }

    /// Parses a FEN given as text.
    pub fn from_fen(fen: &str, strictness: Strictness) -> (r: Result<AtaxxBoard, AtaxxError>)
        ensures
            r == spec_ataxx_read_fen(
                crate::text::spec_words(fen@),
                strictness == Strictness::Strict,
            ),
            r.is_ok() ==> r.unwrap().wf(),
    {
        let chars = str_chars(fen);
        let words = split_words(chars.as_slice());
        Self::read_fen_impl(&words, strictness)
    }
}

/// `Hash::hash` of std on the tuple of the two stone bitboards and the player to move, feeding
/// `state`. Nothing is said of what it feeds: std does not document the bytes that `Hash` writes.
#[verifier::external_body]
fn hash_stones_into(x_bb: u64, o_bb: u64, active: AtaxxColor, state: &mut DefaultHasher) {
    Hash::hash(&(x_bb, o_bb, active), state)
}

impl UnverifiedAtaxxBoard {
    /// Checks that no square outside the 7x7 board is used, the counters are in range and, beyond
    /// FEN checks, that stones and empty squares don't overlap.
    pub fn verify_with_level(self, fen_only: bool) -> (r: Result<AtaxxBoard, AtaxxError>)
        ensures
            r == spec_ataxx_verify(self.0, fen_only),
            r.is_ok() ==> r.unwrap() == self.0,
            r.is_ok() ==> (self.0.empty | self.0.colors[0] | self.0.colors[1]) & INVALID_EDGE_MASK
                == 0,
            r.is_ok() && !fen_only ==> r.unwrap().wf(),
    {
        let this = self.0;
        if (this.empty | this.colors[0] | this.colors[1]) & INVALID_EDGE_MASK != 0 {
            return Err(AtaxxError::SquareOutsideBoard);
        }
        if this.ply_100_ctr > 100 {
            return Err(AtaxxError::HalfmoveClockTooLarge);
        }
        if this.ply > 10_000 {
            return Err(AtaxxError::PlyTooLarge);
        }
        if fen_only {
            return Ok(this);
        }
        if this.colors[0] & this.colors[1] != 0 {
            return Err(AtaxxError::OverlappingPieces);
        }
        if this.empty & this.colors[0] != 0 || this.empty & this.colors[1] != 0 {
            return Err(AtaxxError::OverlappingPieces);
        }
        proof {
            let (e, a, b) = (this.empty, this.colors[0], this.colors[1]);
            assert(e & (a | b) == 0) by (bit_vector)
                requires
                    e & a == 0,
                    e & b == 0,
            ;
        }
        Ok(this)
    }

    /// Sets the halfmove clock.
    pub fn set_halfmove_clock(self, halfmove_clock: usize) -> (r: Self)
        ensures
            r.0 == (AtaxxBoard { ply_100_ctr: halfmove_clock, ..self.0 }),
    {
        let mut this = self.0;
        this.ply_100_ctr = halfmove_clock;
        UnverifiedAtaxxBoard(this)
    }

    /// Makes exactly the squares of `blockers_bb` blocked among those that are not occupied.
    pub fn set_blockers_bb(self, blockers_bb: u64) -> (r: Self)
        ensures
            r.0 == (AtaxxBoard { empty: self.0.empty ^ self.0.spec_blocked() ^ blockers_bb, ..self.0 }),
    {
        let mut this = self.0;
        this.empty = this.empty ^ this.blocked_bb() ^ blockers_bb;
        UnverifiedAtaxxBoard(this)
    }

    /// Sets the player to move.
    pub fn set_active_player(self, player: AtaxxColor) -> (r: Self)
        ensures
            r.0 == (AtaxxBoard { active_player: player, ..self.0 }),
    {
        let mut this = self.0;
        this.active_player = player;
        UnverifiedAtaxxBoard(this)
    }

    /// Sets the number of half moves since the start.
    pub fn set_ply_since_start(self, ply: usize) -> (r: Self)
        ensures
            r.0 == (AtaxxBoard { ply, ..self.0 }),
    {
        let mut this = self.0;
        this.ply = ply;
        UnverifiedAtaxxBoard(this)
    }
}

impl Default for AtaxxBoard {
    /// The starting position.
    fn default() -> (r: Self)
        ensures
            r.wf(),
            r == spec_ataxx_startpos(),
    {
        Self::startpos()
    }
}

impl AtaxxBoard {
    /// The blocked squares.
    pub open spec fn spec_blocked(self) -> u64 {
        !(self.empty | self.colors[0] | self.colors[1])
    }
}

impl Move {
    /// Reads a move at the start of `s` (after leading whitespace): `0000` passes, two squares leap,
    /// one square clones. Returns the move and the number of characters read; the move must be
    /// legal.
    pub fn parse_compact_text(s: &[char], board: &AtaxxBoard) -> (r: Result<(usize, Move), AtaxxError>)
        ensures
            r == spec_parse_move(s@, *board),
    {
        let mut start: usize = 0;
        while start < s.len() && crate::text::is_whitespace(s[start])
            invariant
                start <= s@.len(),
                spec_skip_space(s@, start as int) == spec_skip_space(s@, 0),
            decreases s@.len() - start,
        {
            start = start + 1;
        }
        if start == s.len() {
            return Err(AtaxxError::InvalidMove);
        }
        if s.len() - start >= 4 && s[start] == '0' && s[start + 1] == '0' && s[start + 2] == '0'
            && s[start + 3] == '0' {
            return Ok((start + 4, Move::pass()));
        }
        if s.len() - start < 2 {
            return Err(AtaxxError::InvalidMove);
        }
        let first = match AtaxxSquare::from_chars(s[start], s[start + 1]) {
            Some(sq) => sq,
            None => return Err(AtaxxError::InvalidMove),
        };
        let second = if s.len() - start >= 4 {
            AtaxxSquare::from_chars(s[start + 2], s[start + 3])
        } else {
            None
        };
        let (end, mov) = match second {
            Some(to) => (start + 4, Move::leaping(first, to)),
            None => (start + 2, Move::cloning(first)),
        };
        if !board.is_move_pseudolegal(mov) {
            return Err(AtaxxError::IllegalMove);
        }
        Ok((end, mov))
    }

    /// Reads a move given exactly in compact notation (trailing whitespace is fine).
    pub fn from_text(s: &str, board: &AtaxxBoard) -> (r: Result<Move, AtaxxError>)
        ensures
            r == (match spec_parse_move(s@, *board) {
                Err(e) => Err(e),
                Ok((end, mov)) => if spec_only_space_from(s@, end as int) {
                    Ok(mov)
                } else {
                    Err(AtaxxError::InvalidMove)
                },
            }),
    {
        let chars = str_chars(s);
        let (end, mov) = Self::parse_compact_text(chars.as_slice(), board)?;
        let mut i = end;
        while i < chars.len()
            invariant
                end <= i,
                chars@ == s@,
                spec_parse_move(s@, *board) == Ok::<(usize, Move), AtaxxError>((end, mov)),
                forall|j: int| end <= j < i ==> crate::text::is_space(#[trigger] chars@[j]),
            decreases chars@.len() - i,
        {
            if !crate::text::is_whitespace(chars[i]) {
                assert(!crate::text::is_space(s@[i as int]));
                return Err(AtaxxError::InvalidMove);
            }
            i = i + 1;
        }
        Ok(mov)
    }

    /// Reads a move given exactly; Ataxx has a single notation.
    pub fn from_extended_text(s: &str, board: &AtaxxBoard) -> (r: Result<Move, AtaxxError>)
        ensures
            r == (match spec_parse_move(s@, *board) {
                Err(e) => Err(e),
                Ok((end, mov)) => if spec_only_space_from(s@, end as int) {
                    Ok(mov)
                } else {
                    Err(AtaxxError::InvalidMove)
                },
            }),
    {
        Self::from_text(s, board)
    }

    /// The move in compact notation: the source square of a leap, then the destination square.
    pub fn to_compact_text(self) -> (r: String)
        ensures
            r@ == spec_move_text(self),
    {
        let mut out: Vec<char> = Vec::new();
        if self.source != u8::MAX {
            let s = self.source;
            if s < 64 {
                out.push(crate::games::file_to_char(s % 8));
                out.push(((s / 8) + 49) as char);
            }
        }
        let ghost first = out@;
        let t = self.target.idx;
        if t < 64 {
            out.push(crate::games::file_to_char(t % 8));
            out.push(((t / 8) + 49) as char);
        }
        assert(out@ == spec_move_text(self));
        string_from_chars(out.as_slice())
    }
}

/// Counts the leaves of the move tree of an Ataxx position to `depth` plies.
fn do_ataxx_perft(depth: usize, pos: AtaxxBoard) -> (r: u64)
    requires
        depth >= 1,
    ensures
        depth == 1 ==> r == spec_num_moves(pos),
    decreases depth,
{
    if depth == 1 {
        return pos.num_moves() as u64;
    }
    let moves = pos.legal_moves();
    let mut nodes: u64 = 0;
    let mut i: usize = 0;
    while i < moves.len()
        invariant
            depth >= 2,
            i <= moves@.len(),
        decreases moves@.len() - i,
    {
        let child = pos.make_move_impl(moves[i]);
        nodes = nodes.saturating_add(do_ataxx_perft(depth - 1, child));
        i = i + 1;
    }
    nodes
}

/// Counts the leaves of the move tree of an Ataxx position to `depth` plies: 1 at depth 0.
pub fn ataxx_perft(depth: usize, pos: AtaxxBoard) -> (r: crate::perft::PerftRes)
    ensures
        r.depth == depth,
        depth == 0 ==> r.nodes == 1,
        depth == 1 ==> r.nodes == spec_num_moves(pos),
{
    let nodes = if depth == 0 {
        1
    } else {
        do_ataxx_perft(depth, pos)
    };
    crate::perft::PerftRes { depth, nodes }
}

impl crate::games::Color for AtaxxColor {
    open spec fn spec_is_first(self) -> bool {
        self == AtaxxColor::X
    }

    fn first() -> (r: Self) {
        AtaxxColor::X
    }

    fn second() -> (r: Self) {
        AtaxxColor::O
    }

    fn is_first(self) -> (r: bool) {
        self == AtaxxColor::X
    }

    fn other(self) -> (r: Self) {
        AtaxxColor::other(self)
    }

    fn to_char(self) -> (r: char) {
        self.color_char()
    }
}

impl crate::games::Settings for AtaxxSettings {
}

impl crate::games::Coordinates for AtaxxSquare {
    open spec fn valid(self) -> bool {
        self.wf()
    }

    fn flip_up_down(self) -> (r: Self) {
        AtaxxSquare::from_rank_file(6 - self.rank(), self.file())
    }

    fn flip_left_right(self) -> (r: Self) {
        AtaxxSquare::from_rank_file(self.rank(), 6 - self.file())
    }
}

/// The size of an Ataxx board: 7x7.
#[derive(Clone, Copy, PartialEq, Eq, Structural, Debug, Default)]
pub struct AtaxxSize {}

impl crate::games::Size<AtaxxSquare> for AtaxxSize {
    fn num_squares(self) -> (r: usize) {
        49
    }

    fn internal_key(self, coordinates: AtaxxSquare) -> (r: usize) {
        coordinates.idx as usize
    }

    fn to_coordinates_unchecked(self, internal_key: usize) -> (r: AtaxxSquare) {
        AtaxxSquare { idx: (internal_key % 64) as u8 }
    }

    fn coordinates_valid(self, coordinates: AtaxxSquare) -> (r: bool) {
        coordinates.idx < 64 && coordinates.idx % 8 < 7 && coordinates.idx / 8 < 7
    }
}

impl crate::games::AbstractPieceType for AtaxxPieceType {
    fn empty() -> (r: Self) {
        AtaxxPieceType::Empty
    }

    fn to_char(self, typ: crate::games::CharType) -> (r: char) {
        match self {
            AtaxxPieceType::Empty => '.',
            AtaxxPieceType::Blocked => '-',
            AtaxxPieceType::Occupied => 'x',
        }
    }

    fn from_char(c: char) -> (r: Option<Self>) {
        if c == '.' {
            Some(AtaxxPieceType::Empty)
        } else if c == '-' {
            Some(AtaxxPieceType::Blocked)
        } else if c == 'o' || c == 'x' {
            Some(AtaxxPieceType::Occupied)
        } else {
            None
        }
    }

    fn to_uncolored_idx(self) -> (r: usize) {
        match self {
            AtaxxPieceType::Empty => 0,
            AtaxxPieceType::Blocked => 1,
            AtaxxPieceType::Occupied => 2,
        }
    }
}

/// The bitboards after a move stay disjoint and on the board when the leaping stone (if any) is
/// an own stone and the destination is empty.
proof fn lemma_move_masks(own: u64, other: u64, e: u64, s: u64, t: u64, leaps: bool, n: u64)
    requires
        own & other == 0,
        e & (own | other) == 0,
        (e | own | other) & INVALID_EDGE_MASK == 0,
        s < 64,
        t < 64,
        leaps ==> (own >> s) & 1u64 == 1u64,
        (e >> t) & 1u64 == 1u64,
    ensures
        ({
            let src: u64 = if leaps {
                1u64 << s
            } else {
                0u64
            };
            let dest = 1u64 << t;
            let own2 = ((own ^ src) | (other & n)) | dest;
            let other2 = other ^ (other & n);
            let e2 = (e ^ src) ^ dest;
            &&& own2 & other2 == 0
            &&& other2 & own2 == 0
            &&& e2 & (own2 | other2) == 0
            &&& e2 & (other2 | own2) == 0
            &&& (e2 | own2 | other2) & INVALID_EDGE_MASK == 0
            &&& (e2 | other2 | own2) & INVALID_EDGE_MASK == 0
        }),
{
    let src: u64 = if leaps {
        1u64 << s
    } else {
        0u64
    };
    assert(src == 0u64 || (src == 1u64 << s && (own >> s) & 1u64 == 1u64));
    let dest = 1u64 << t;
    assert({
        let own2 = ((own ^ src) | (other & n)) | dest;
        let other2 = other ^ (other & n);
        let e2 = (e ^ src) ^ dest;
        &&& own2 & other2 == 0
        &&& other2 & own2 == 0
        &&& e2 & (own2 | other2) == 0
        &&& e2 & (other2 | own2) == 0
        &&& (e2 | own2 | other2) & 0xff80_8080_8080_8080u64 == 0
        &&& (e2 | other2 | own2) & 0xff80_8080_8080_8080u64 == 0
    }) by (bit_vector)
        requires
            own & other == 0,
            e & (own | other) == 0,
            (e | own | other) & 0xff80_8080_8080_8080u64 == 0,
            s < 64,
            t < 64,
            src == 0u64 || (src == 1u64 << s && (own >> s) & 1u64 == 1u64),
            dest == 1u64 << t,
            (e >> t) & 1u64 == 1u64,
    ;
}

/// Playing a legal move keeps an Ataxx position valid: the stones of the two players and the
/// empty squares stay disjoint and on the 7x7 board.
pub proof fn law_make_move_keeps_valid(b: AtaxxBoard, m: Move, r: AtaxxBoard)
    requires
        b.wf(),
        spec_legal_move(b, m),
        spec_played(b, m, r),
    ensures
        r.wf(),
{
    broadcast use group_bits;

    if !m.spec_is_pass() {
        let us = b.active_player.spec_idx();
        let them = b.active_player.spec_other().spec_idx();
        let own = b.colors[us];
        let other = b.colors[them];
        let t = m.target.idx as u64;
        let leaps = m.source != u8::MAX && m.source < 64;
        let s: u64 = if leaps {
            m.source as u64
        } else {
            0
        };
        assert(t < 64);
        assert(bit(b.empty, t));
        if leaps {
            assert(bit(own, s));
        }
        if us == 0 {
            assert(b.colors[0] & b.colors[1] == 0);
            assert(b.empty & (own | other) == 0);
            assert((b.empty | own | other) & INVALID_EDGE_MASK == 0);
        } else {
            assert(other & own == 0);
            crate::bits::lemma_and_or_comm(own, other, b.empty);
        }
        let n = spec_moore_exclusive(1u64 << t);
        lemma_move_masks(own, other, b.empty, s, t, leaps, n);
        crate::bits::lemma_xor_shapes(own, 0, 0, 0, 0, 0);
        crate::bits::lemma_xor_shapes(b.empty, 0, 0, 0, 0, 0);
        let src: u64 = if leaps {
            1u64 << s
        } else {
            0u64
        };
        let own2 = ((own ^ src) | (other & n)) | (1u64 << t);
        let other2 = other ^ (other & n);
        let e2 = (b.empty ^ src) ^ (1u64 << t);
        assert(r.colors[us] == own2);
        assert(r.colors[them] == other2);
        assert(r.empty == e2);
        if us == 0 {
            assert(r.colors[0] == own2 && r.colors[1] == other2);
        } else {
            assert(r.colors[1] == own2 && r.colors[0] == other2);
        }
    }
}

/// On the 7x7 board, the leap targets of a square are the squares at distance two, and the valid
/// squares are those of the valid mask.
proof fn lemma_leap_distance(s: u64, t: u64)
    requires
        s < 64,
        t < 64,
    ensures
        bit(VALID_MASK, t) == (t % 8 < 7 && t / 8 < 7),
        (s % 8 < 7 && s / 8 < 7 && t % 8 < 7 && t / 8 < 7) ==> (bit(spec_leaping_targets(s as int), t)
            == (crate::squares::spec_sup_distance(s as int, t as int) == 2)),
{
    let b = 1u64 << s;
    let v1 = (b << 8u64) | (b >> 8u64);
    let s1 = b | v1;
    let m1 = v1 | ((s1 << 1u64) & !0x0101_0101_0101_0101u64) | ((s1 >> 1u64) & !0x8080_8080_8080_8080u64);
    let n1 = b | m1;
    let v2 = (n1 << 8u64) | (n1 >> 8u64);
    let s2 = n1 | v2;
    let m2 = v2 | ((s2 << 1u64) & !0x0101_0101_0101_0101u64) | ((s2 >> 1u64) & !0x8080_8080_8080_8080u64);
    let n2 = n1 | m2;
    assert(spec_leaping_targets(s as int) == n2 & !n1);
    let fs = s % 8;
    let rs = s / 8;
    let ft = t % 8;
    let rt = t / 8;
    assert(s % 8 == s & 7u64 && s / 8 == s >> 3u64 && t % 8 == t & 7u64 && t / 8 == t >> 3u64) by (bit_vector);
    let df = if fs >= ft { fs - ft } else { ft - fs };
    let dr = if rs >= rt { rs - rt } else { rt - rs };
    assert(crate::squares::spec_sup_distance(s as int, t as int) == (if df >= dr { df } else { dr }) as int);
    assert((((0x007f_7f7f_7f7f_7f7fu64 >> t) & 1u64) == 1u64) == ((t & 7u64) < 7 && (t >> 3u64) < 7)
        && (((s & 7u64) < 7 && (s >> 3u64) < 7 && (t & 7u64) < 7 && (t >> 3u64) < 7) ==> ((((n2 & !n1) >> t) & 1u64 == 1u64) == ((if (if (s & 7u64) >= (t & 7u64) { (s & 7u64) - (t & 7u64) } else { (t & 7u64) - (s & 7u64) }) >= (if (s >> 3u64) >= (t >> 3u64) { (s >> 3u64) - (t >> 3u64) } else { (t >> 3u64) - (s >> 3u64) }) { (if (s & 7u64) >= (t & 7u64) { (s & 7u64) - (t & 7u64) } else { (t & 7u64) - (s & 7u64) }) } else { (if (s >> 3u64) >= (t >> 3u64) { (s >> 3u64) - (t >> 3u64) } else { (t >> 3u64) - (s >> 3u64) }) }) == 2u64)))) by (bit_vector)
        requires
            s < 64,
            t < 64,
            b == 1u64 << s,
            v1 == (b << 8u64) | (b >> 8u64),
            s1 == b | v1,
            m1 == v1 | ((s1 << 1u64) & !0x0101_0101_0101_0101u64) | ((s1 >> 1u64) & !0x8080_8080_8080_8080u64),
            n1 == b | m1,
            v2 == (n1 << 8u64) | (n1 >> 8u64),
            s2 == n1 | v2,
            m2 == v2 | ((s2 << 1u64) & !0x0101_0101_0101_0101u64) | ((s2 >> 1u64) & !0x8080_8080_8080_8080u64),
            n2 == n1 | m2,
    ;
}

/// A move passes the legality test of a single move exactly when it is among the legal moves
/// that the generator produces.
pub proof fn law_legality_test_matches_generator(b: AtaxxBoard, m: Move)
    ensures
        spec_legal_check(b, m) == spec_legal_move(b, m),
{
    broadcast use group_bits;

    let t = m.target.idx as u64;
    let pieces = b.colors[b.active_player.spec_idx()];
    if t < 64 {
        if m.source < 64 {
            lemma_leap_distance(m.source as u64, t);
        } else {
            lemma_leap_distance(0, t);
        }
    }
    if m.spec_is_pass() {
        lemma_leap_distance(0, 0);
    }
    if m.source < 64 {
        lemma_leap_distance(m.source as u64, m.source as u64);
    }
}

/// Positions for benchmarks and tests, with various blocked squares.
pub const ATAXX_BENCH_FENS: [&'static str; 50] = [
    "x-1-1-o/-1-1-1-/1-1-1-1/-1-1-1-/1-1-1-1/-1-1-1-/o-1-1-x x 0 1",
    "x-1-1-o/1-1-1-1/1-1-1-1/1-1-1-1/1-1-1-1/1-1-1-1/o-1-1-x x 0 1",
    "x1-1-1o/2-1-2/-------/2-1-2/-------/2-1-2/o1-1-1x x 0 1",
    "x5o/1-----1/1-3-1/1-1-1-1/1-3-1/1-----1/o5x x 0 1",
    "x-1-1-o/1-1-1-1/-1-1-1-/-1-1-1-/-1-1-1-/1-1-1-1/o-1-1-x x 0 1",
    "x5o/1--1--1/1--1--1/7/1--1--1/1--1--1/o5x x 0 1",
    "x-3-o/1-1-1-1/1-1-1-1/3-3/1-1-1-1/1-1-1-1/o-3-x x 0 1",
    "x2-2o/3-3/3-3/-------/3-3/3-3/o2-2x x 0 1",
    "x2-2o/2-1-2/1-3-1/-2-2-/1-3-1/2-1-2/o2-2x x 0 1",
    "x5o/7/7/7/7/7/o5x x 0 1",
    "x5o/7/2-1-2/7/2-1-2/7/o5x x 0 1",
    "x5o/7/3-3/2-1-2/3-3/7/o5x x 0 1",
    "x2-2o/3-3/2---2/7/2---2/3-3/o2-2x x 0 1",
    "x2-2o/3-3/7/--3--/7/3-3/o2-2x x 0 1",
    "x1-1-1o/2-1-2/2-1-2/7/2-1-2/2-1-2/o1-1-1x x 0 1",
    "x5o/7/2-1-2/3-3/2-1-2/7/o5x x 0 1",
    "x5o/7/3-3/2---2/3-3/7/o5x x 0 1",
    "x5o/2-1-2/1-3-1/7/1-3-1/2-1-2/o5x x 0 1",
    "x5o/1-3-1/2-1-2/7/2-1-2/1-3-1/o5x x 0 1",
    "2x3o/7/7/7/o6/5x1/6x o 2 2",
    "5oo/7/x6/x6/7/7/o5x o 0 2",
    "x5o/1x5/7/7/7/2o4/4x2 o 0 2",
    "7/7/2x1o2/1x5/7/7/o5x o 0 2",
    "7/7/1x4o/7/4x2/7/o6 o 3 2",
    "x5o/7/6x/7/1o5/7/7 o 3 2",
    "5oo/7/2x4/7/7/4x2/o6 o 1 2",
    "x5o/7/7/3x3/7/1o5/o6 o 1 2",
    "x5o/7/7/7/7/2x1x2/3x3 o 0 2",
    "7/7/1x4o/7/7/4x2/o6 o 3 2",
    "x5o/7/7/5x1/5x1/1o5/o6 o 0 2",
    "6o/7/4x2/7/7/1o5/o5x o 1 2",
    "x5o/x5o/7/7/7/6x/o5x o 0 2",
    "4x1o/7/7/7/7/o6/o5x o 1 2",
    "6o/7/x6/7/7/2o4/6x o 3 2",
    "x5o/7/7/7/1o4x/7/5x1 o 2 2",
    "x5o/6o/7/7/4x2/7/o6 o 1 2",
    "7/7/1xx1o2/7/7/7/o5x o 0 2",
    "2x3o/2x4/7/7/7/7/2o3x o 0 2",
    "x5o/6o/7/7/4x2/3x3/o6 o 0 2",
    "x5o/7/7/7/o3xx1/7/7 o 0 2",
    "6o/6o/1x5/7/4x2/7/o6 o 1 2",
    "7/7/4x1o/7/7/7/o5x o 3 2",
    "4o2/7/2x4/7/7/7/o4xx o 0 2",
    "2x3o/x6/7/7/7/o6/o5x o 1 2",
    "6o/7/2x4/7/1o5/7/4x2 o 3 2",
    "x6/4o2/7/7/6x/7/o6 o 3 2",
    "x6/7/5o1/7/7/4x2/o6 o 3 2",
    "x5o/1x4o/7/7/7/7/o3x2 o 0 2",
    "xx4o/7/7/7/7/6x/oo4x o 0 2",
    "x6/7/4x2/3x3/7/7/o5x o 2 2",
];

/// The positions of the first `i` benchmark FENs that read correctly, in order.
pub open spec fn spec_ataxx_bench_upto(i: int) -> Seq<AtaxxBoard>
    decreases i,
{
    if i <= 0 || i > 50 {
        Seq::empty()
    } else {
        match spec_ataxx_read_fen(crate::text::spec_words(ATAXX_BENCH_FENS[i - 1]@), true) {
            Ok(b) => spec_ataxx_bench_upto(i - 1).push(b),
            Err(_) => spec_ataxx_bench_upto(i - 1),
        }
    }
}

impl AtaxxBoard {
    /// The positions of [`ATAXX_BENCH_FENS`], read strictly; a FEN that does not read is skipped.
    pub fn bench_positions() -> (r: Vec<AtaxxBoard>)
        ensures
            r@ == spec_ataxx_bench_upto(50),
            forall|j: int| 0 <= j < r@.len() ==> #[trigger] r@[j].wf(),
    {
        let mut res: Vec<AtaxxBoard> = Vec::new();
        let mut i: usize = 0;
        while i < 50
            invariant
                i <= 50,
                res@ == spec_ataxx_bench_upto(i as int),
                forall|j: int| 0 <= j < res@.len() ==> #[trigger] res@[j].wf(),
            decreases 50 - i,
        {
            if let Ok(b) = Self::from_fen(ATAXX_BENCH_FENS[i], Strictness::Strict) {
                res.push(b);
            }
            i = i + 1;
        }
        res
    }
}

/// On a full board the game is decided by counting stones: the player to move loses with fewer
/// stones than the opponent, wins with more and draws with as many, and a player without stones
/// has lost; with stones on both sides the two players' results are opposite. While squares are
/// empty and the player to move has stones, only the halfmove clock ends the game, as a draw.
pub proof fn law_result_by_stones(b: AtaxxBoard)
    ensures
        ({
            let ours = b.colors[b.active_player.spec_idx()];
            let theirs = b.colors[b.active_player.spec_other().spec_idx()];
            let flipped = AtaxxBoard { active_player: b.active_player.spec_other(), ..b };
            &&& ours == 0 ==> spec_ataxx_result(b) == Some(PlayerResult::Lose)
            &&& b.empty == 0 && ours != 0 && pop_count(ours) < pop_count(theirs) ==> spec_ataxx_result(b)
                == Some(PlayerResult::Lose)
            &&& b.empty == 0 && ours != 0 && pop_count(ours) > pop_count(theirs) ==> spec_ataxx_result(b)
                == Some(PlayerResult::Win)
            &&& b.empty == 0 && ours != 0 && pop_count(ours) == pop_count(theirs) ==> spec_ataxx_result(b)
                == Some(PlayerResult::Draw)
            &&& b.empty == 0 && ours != 0 && theirs != 0 ==> match spec_ataxx_result(b) {
                Some(PlayerResult::Win) => spec_ataxx_result(flipped) == Some(PlayerResult::Lose),
                Some(PlayerResult::Lose) => spec_ataxx_result(flipped) == Some(PlayerResult::Win),
                Some(PlayerResult::Draw) => spec_ataxx_result(flipped) == Some(PlayerResult::Draw),
                None => false,
            }
            &&& b.empty != 0 && ours != 0 ==> spec_ataxx_result(b) == (if b.ply_100_ctr >= 100 {
                Some(PlayerResult::Draw)
            } else {
                None::<PlayerResult>
            })
        }),
{
    let ours = b.colors[b.active_player.spec_idx()];
    let theirs = b.colors[b.active_player.spec_other().spec_idx()];
    crate::bits::lemma_pop_count_zero(theirs);
}

/// A clone resets the halfmove clock; a leap or a pass advances it by one.
pub proof fn law_clock_after_move(b: AtaxxBoard, mov: Move, r: AtaxxBoard)
    requires
        spec_played(b, mov, r),
    ensures
        mov.source == u8::MAX ==> r.ply_100_ctr == 0,
        mov.source != u8::MAX ==> r.ply_100_ctr == b.ply_100_ctr.wrapping_add(1),
{
}

/// The stones after a move of a stone onto another, empty square: the destination holds a stone of the mover; the
/// opponent gains no stone, and each stone the opponent loses goes over to the mover; a clone
/// keeps every stone of the mover, and a leap empties the square the stone left.
pub proof fn law_stones_after_move(b: AtaxxBoard, mov: Move, r: AtaxxBoard)
    requires
        spec_played(b, mov, r),
        b.wf(),
        !mov.spec_is_pass(),
        mov.target.idx < 64,
        mov.source != mov.target.idx,
        bit(b.empty, mov.target.idx as u64),
    ensures
        ({
            let us = b.active_player.spec_idx();
            let them = b.active_player.spec_other().spec_idx();
            let t = mov.target.idx as u64;
            &&& bit(r.colors[us], t)
            &&& !bit(r.colors[them], t)
            &&& !bit(r.empty, t)
            &&& forall|k: u64| k < 64 && #[trigger] bit(r.colors[them], k) ==> bit(b.colors[them], k)
            &&& forall|k: u64| k < 64 && #[trigger] bit(b.colors[them], k) ==> bit(r.colors[them], k) || bit(r.colors[us], k)
            &&& mov.source == u8::MAX ==> forall|k: u64| k < 64 && #[trigger] bit(b.colors[us], k) ==> bit(r.colors[us], k)
            &&& mov.source < 64 && bit(b.colors[us], mov.source as u64) ==> !bit(
                r.colors[us],
                mov.source as u64,
            ) && bit(r.empty, mov.source as u64)
        }),
{
    broadcast use crate::bits::group_bits;

    let us = b.active_player.spec_idx();
    let them = b.active_player.spec_other().spec_idx();
    let t = mov.target.idx as u64;
    assert(b.active_player.spec_other().spec_idx() != us);
    let own = b.colors[us];
    let other = b.colors[them];
    let dest = 1u64 << t;
    assert(!bit(b.colors[0] & b.colors[1], t));
    assert(!bit(b.empty & (b.colors[0] | b.colors[1]), t));
    assert(bit(r.colors[us], t));
    assert(!bit(r.colors[them], t));
    assert(!bit(r.empty, t));
    assert forall|k: u64| k < 64 && #[trigger] bit(r.colors[them], k) implies bit(b.colors[them], k) by {
        assert(r.colors[them] == other ^ (other & spec_moore_exclusive(dest)));
    }
    assert forall|k: u64| k < 64 && #[trigger] bit(b.colors[them], k) implies bit(r.colors[them], k) || bit(
        r.colors[us],
        k,
    ) by {
        assert(r.colors[them] == other ^ (other & spec_moore_exclusive(dest)));
        assert(bit(other & spec_moore_exclusive(dest), k) == bit(spec_moore_exclusive(dest), k));
    }
    if mov.source == u8::MAX {
        assert forall|k: u64| k < 64 && #[trigger] bit(b.colors[us], k) implies bit(r.colors[us], k) by {
            assert(r.colors[us] == own | (other & spec_moore_exclusive(dest)) | dest);
        }
    }
    if mov.source < 64 && mov.source != mov.target.idx && bit(b.colors[us], mov.source as u64) {
        let sq = mov.source as u64;
        assert(!bit(b.colors[0] & b.colors[1], sq));
        assert(!bit(b.empty & (b.colors[0] | b.colors[1]), sq));
        assert(r.colors[us] == (own ^ (1u64 << sq)) | (other & spec_moore_exclusive(dest)) | dest);
        assert(!bit(other, sq));
        assert(!bit(r.colors[us], sq));
        assert(r.empty == (b.empty ^ (1u64 << sq)) ^ dest);
        assert(bit(r.empty, sq));
    }
}

} // verus!
