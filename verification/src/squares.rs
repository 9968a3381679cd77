//! Squares of the 8x8 chessboard and their coordinates.
use vstd::prelude::*;
use crate::bits::{bit, group_bits, single_bb};

verus! {

broadcast use group_bits;

/// Number of files (columns) of the chessboard.
pub const NUM_COLUMNS: usize = 8;

/// Number of squares of the chessboard.
pub const NUM_SQUARES: usize = 64;

pub const A_FILE_NUM: u8 = 0;
pub const B_FILE_NUM: u8 = 1;
pub const C_FILE_NUM: u8 = 2;
pub const D_FILE_NUM: u8 = 3;
pub const E_FILE_NUM: u8 = 4;
pub const F_FILE_NUM: u8 = 5;
pub const G_FILE_NUM: u8 = 6;
pub const H_FILE_NUM: u8 = 7;

/// File of a square index (0 is the a-file).
pub open spec fn file_of(i: int) -> int {
    i % 8
}

/// Rank of a square index (0 is the first rank).
pub open spec fn rank_of(i: int) -> int {
    i / 8
}

/// Index of the square on file `f` and rank `r`.
pub open spec fn sq_at(f: int, r: int) -> int {
    r * 8 + f
}

/// Whether file `f` and rank `r` lie on the board.
pub open spec fn on_board(f: int, r: int) -> bool {
    0 <= f < 8 && 0 <= r < 8
}

/// The larger of the file and rank distances (the number of king moves between two squares).
pub open spec fn spec_sup_distance(a: int, b: int) -> int {
    let df = if file_of(a) >= file_of(b) {
        file_of(a) - file_of(b)
    } else {
        file_of(b) - file_of(a)
    };
    let dr = if rank_of(a) >= rank_of(b) {
        rank_of(a) - rank_of(b)
    } else {
        rank_of(b) - rank_of(a)
    };
    if df >= dr {
        df
    } else {
        dr
    }
}

/// A square of the chessboard, stored as its index `rank * 8 + file`.
#[derive(Clone, Copy, PartialEq, Eq, Structural, Debug, Hash, PartialOrd, Ord, Default)]
pub struct ChessSquare {
    pub idx: u8,
}

impl ChessSquare {
    /// The index lies on the board.
    pub open spec fn wf(self) -> bool {
        self.idx < 64
    }

    pub open spec fn spec_file(self) -> int {
        file_of(self.idx as int)
    }

    pub open spec fn spec_rank(self) -> int {
        rank_of(self.idx as int)
    }

    /// The square with the given index.
    pub fn from_bb_idx(idx: usize) -> (r: Self)
        requires
            idx < 64,
        ensures
            r.wf(),
            r.idx == idx,
    {
        ChessSquare { idx: idx as u8 }
    }

    /// The square on the given rank and file.
    pub fn from_rank_file(rank: u8, file: u8) -> (r: Self)
        requires
            rank < 8,
            file < 8,
        ensures
            r.wf(),
            r.idx == sq_at(file as int, rank as int),
            r.spec_file() == file,
            r.spec_rank() == rank,
    {
        ChessSquare { idx: rank * 8 + file }
    }

    /// The index of this square in a bitboard.
    pub fn bb_idx(self) -> (r: usize)
        ensures
            r == self.idx,
    {
        self.idx as usize
    }

    /// The file, 0 being the a-file.
    pub fn file(self) -> (r: u8)
        requires
            self.wf(),
        ensures
            r == self.spec_file(),
            r < 8,
    {
        self.idx % 8
    }

    /// The rank, 0 being the first rank.
    pub fn rank(self) -> (r: u8)
        requires
            self.wf(),
        ensures
            r == self.spec_rank(),
            r < 8,
    {
        self.idx / 8
    }

    /// The bitboard containing only this square.
    pub fn bb(self) -> (r: u64)
        requires
            self.wf(),
        ensures
            r == 1u64 << self.idx,
            forall|j: u64| j < 64 ==> bit(r, j) == (j == self.idx),
    {
        single_bb(self.idx)
    }

    /// Whether the square lies on the first or eighth rank.
    pub fn is_backrank(self) -> (r: bool)
        requires
            self.wf(),
        ensures
            r == (self.spec_rank() == 0 || self.spec_rank() == 7),
    {
        self.idx < 8 || self.idx >= 56
    }

    /// Mirrors the square vertically.
    pub fn flip_up_down(self) -> (r: Self)
        requires
            self.wf(),
        ensures
            r.wf(),
            r.spec_file() == self.spec_file(),
            r.spec_rank() == 7 - self.spec_rank(),
            r.idx == sq_at(file_of(self.idx as int), 7 - rank_of(self.idx as int)),
    {
        ChessSquare::from_rank_file(7 - self.rank(), self.file())
    }

    /// Mirrors the square horizontally.
    pub fn flip_left_right(self) -> (r: Self)
        requires
            self.wf(),
        ensures
            r.wf(),
            r.spec_file() == 7 - self.spec_file(),
            r.spec_rank() == self.spec_rank(),
            r.idx == sq_at(7 - file_of(self.idx as int), rank_of(self.idx as int)),
    {
        ChessSquare::from_rank_file(self.rank(), 7 - self.file())
    }

    /// Parses a square from its file letter ('a' to 'h') and rank digit ('1' to '8').
    pub fn from_chars(file: char, rank: char) -> (r: Option<Self>)
        ensures
            r.is_some() == ('a' <= file <= 'h' && '1' <= rank <= '8'),
            r.is_some() ==> r.unwrap().wf() && r.unwrap().spec_file() == file as int - 97
                && r.unwrap().spec_rank() == rank as int - 49,
    {
        if 'a' <= file && file <= 'h' && '1' <= rank && rank <= '8' {
            let f = (file as u32 - 97) as u8;
            let rk = (rank as u32 - 49) as u8;
            Some(ChessSquare::from_rank_file(rk, f))
        } else {
            None
        }
    }

    /// The file letter of this square.
    pub fn file_char(self) -> (c: char)
        requires
            self.wf(),
        ensures
            c as int == self.spec_file() + 97,
    {
        crate::games::file_to_char(self.file())
    }

    /// The rank digit of this square.
    pub fn rank_char(self) -> (c: char)
        requires
            self.wf(),
        ensures
            c as int == self.spec_rank() + 49,
    {
        (self.rank() + 49) as char
    }

    /// The square one rank further in the pawn direction of `white` (up for white, down for black).
    pub fn pawn_advance_unchecked(self, white: bool) -> (r: Self)
        requires
            self.wf(),
            white ==> self.spec_rank() < 7,
            !white ==> self.spec_rank() > 0,
        ensures
            r.wf(),
            r.spec_file() == self.spec_file(),
            r.spec_rank() == self.spec_rank() + (if white {
                1int
            } else {
                -1int
            }),
            r.idx == self.idx + (if white {
                8int
            } else {
                -8int
            }),
    {
        if white {
            ChessSquare { idx: self.idx + 8 }
        } else {
            ChessSquare { idx: self.idx - 8 }
        }
    }
}

/// Parses a square written like `e4`; the text must consist of exactly these two characters.
pub fn parse_square(text: &str) -> (r: Option<ChessSquare>)
    ensures
        r.is_some() ==> r.unwrap().wf() && text@.len() == 2 && r.unwrap().spec_file()
            == text@[0] as int - 97 && r.unwrap().spec_rank() == text@[1] as int - 49,
        (text@.len() == 2 && 'a' <= text@[0] <= 'h' && '1' <= text@[1] <= '8') ==> r.is_some(),
{
    let chars = crate::text::str_chars(text);
    if chars.len() != 2 {
        return None;
    }
    ChessSquare::from_chars(chars[0], chars[1])
}

/// The square written like `e4`; panics on other input, for writing tests.
pub fn sq(text: &str) -> (r: ChessSquare)
    requires
        text@.len() == 2,
        'a' <= text@[0] <= 'h',
        '1' <= text@[1] <= '8',
    ensures
        r.wf(),
        r.spec_file() == text@[0] as int - 97,
        r.spec_rank() == text@[1] as int - 49,
{
    parse_square(text).unwrap()
}

/// The larger of the file and rank distances between two squares.
pub fn sup_distance(a: ChessSquare, b: ChessSquare) -> (r: u8)
    requires
        a.wf(),
        b.wf(),
    ensures
        r == spec_sup_distance(a.idx as int, b.idx as int),
{
    let (af, bf) = (a.file(), b.file());
    let (ar, br) = (a.rank(), b.rank());
    let df = if af >= bf {
        af - bf
    } else {
        bf - af
    };
    let dr = if ar >= br {
        ar - br
    } else {
        br - ar
    };
    if df >= dr {
        df
    } else {
        dr
    }
}

impl crate::games::Coordinates for ChessSquare {
    open spec fn valid(self) -> bool {
        self.wf()
    }

    fn flip_up_down(self) -> (r: Self) {
        ChessSquare::flip_up_down(self)
    }

    fn flip_left_right(self) -> (r: Self) {
        ChessSquare::flip_left_right(self)
    }
}

/// The size of a chessboard: 8x8.
#[derive(Clone, Copy, PartialEq, Eq, Structural, Debug, Default)]
pub struct ChessboardSize {}

impl crate::games::Size<ChessSquare> for ChessboardSize {
    fn num_squares(self) -> (r: usize) {
        NUM_SQUARES
    }

    fn internal_key(self, coordinates: ChessSquare) -> (r: usize) {
        coordinates.idx as usize
    }

    fn to_coordinates_unchecked(self, internal_key: usize) -> (r: ChessSquare) {
        ChessSquare { idx: (internal_key % 64) as u8 }
    }

    fn coordinates_valid(self, coordinates: ChessSquare) -> (r: bool) {
        coordinates.idx < 64
    }
}

} // verus!
