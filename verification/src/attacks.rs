//! Squares attacked by chess pieces, as bitboards.
use vstd::prelude::*;
use crate::bits::{bit, group_bits, lemma_bits_ext};
use crate::chessboard::Board;
use crate::pieces::ChessColor;
use crate::squares::{file_of, on_board, rank_of, sq_at, ChessSquare};

verus! {

broadcast use group_bits;

/// The square `df` files and `dr` ranks away from `s`, as a bitboard (empty if off the board).
pub open spec fn spec_offset(s: int, df: int, dr: int) -> u64 {
    if on_board(file_of(s) + df, rank_of(s) + dr) {
        1u64 << (sq_at(file_of(s) + df, rank_of(s) + dr) as u64)
    } else {
        0
    }
}

/// Squares a knight on `s` attacks.
pub open spec fn spec_knight_attacks(s: int) -> u64 {
    spec_offset(s, 1, 2) | spec_offset(s, 2, 1) | spec_offset(s, 2, -1) | spec_offset(s, 1, -2)
        | spec_offset(s, -1, -2) | spec_offset(s, -2, -1) | spec_offset(s, -2, 1) | spec_offset(
        s,
        -1,
        2,
    )
}

/// Squares a king on `s` attacks.
pub open spec fn spec_king_attacks(s: int) -> u64 {
    spec_offset(s, 1, 1) | spec_offset(s, 1, 0) | spec_offset(s, 1, -1) | spec_offset(s, 0, -1)
        | spec_offset(s, -1, -1) | spec_offset(s, -1, 0) | spec_offset(s, -1, 1) | spec_offset(
        s,
        0,
        1,
    )
}

/// Squares a pawn on `s` attacks: diagonally forward, which is up for white and down for black.
pub open spec fn spec_pawn_captures(white: bool, s: int) -> u64 {
    if white {
        spec_offset(s, -1, 1) | spec_offset(s, 1, 1)
    } else {
        spec_offset(s, -1, -1) | spec_offset(s, 1, -1)
    }
}

/// Measure for walking along a ray: the number of steps left to the edge of the board.
pub open spec fn ray_measure(f: int, r: int, df: int, dr: int) -> int {
    if df > 0 {
        8 - f
    } else if df < 0 {
        f + 1
    } else if dr > 0 {
        8 - r
    } else {
        r + 1
    }
}

/// Squares reached from file `f`, rank `r` stepping by `(df, dr)` up to and including the first
/// square in `occ` (the square itself is not included).
pub open spec fn spec_ray(f: int, r: int, df: int, dr: int, occ: u64) -> u64
    decreases ray_measure(f, r, df, dr),
{
    if !(-1 <= df <= 1 && -1 <= dr <= 1) || (df == 0 && dr == 0) || !on_board(f, r)
        || !on_board(f + df, r + dr) {
        0
    } else {
        let s = sq_at(f + df, r + dr) as u64;
        if bit(occ, s) {
            1u64 << s
        } else {
            (1u64 << s) | spec_ray(f + df, r + dr, df, dr, occ)
        }
    }
}

/// Squares a bishop on `s` attacks when the squares in `occ` are occupied.
pub open spec fn spec_bishop_attacks(s: int, occ: u64) -> u64 {
    let (f, r) = (file_of(s), rank_of(s));
    spec_ray(f, r, 1, 1, occ) | spec_ray(f, r, 1, -1, occ) | spec_ray(f, r, -1, -1, occ)
        | spec_ray(f, r, -1, 1, occ)
}

/// Squares a rook on `s` attacks when the squares in `occ` are occupied.
pub open spec fn spec_rook_attacks(s: int, occ: u64) -> u64 {
    let (f, r) = (file_of(s), rank_of(s));
    spec_ray(f, r, 1, 0, occ) | spec_ray(f, r, 0, -1, occ) | spec_ray(f, r, -1, 0, occ)
        | spec_ray(f, r, 0, 1, occ)
}

pub proof fn lemma_or_assoc(a: u64, b: u64, c: u64)
    ensures
        (a | b) | c == a | (b | c),
        a | 0u64 == a,
        0u64 | a == a,
{
    assert((a | b) | c == a | (b | c) && a | 0u64 == a && 0u64 | a == a) by (bit_vector);
}

/// The square `df` files and `dr` ranks away from `sq`, as a bitboard.
pub fn offset_bb(sq: u8, df: i8, dr: i8) -> (r: u64)
    requires
        sq < 64,
        -2 <= df <= 2,
        -2 <= dr <= 2,
    ensures
        r == spec_offset(sq as int, df as int, dr as int),
{
    let f = (sq % 8) as i8 + df;
    let rk = (sq / 8) as i8 + dr;
    if 0 <= f && f < 8 && 0 <= rk && rk < 8 {
        1u64 << ((rk * 8 + f) as u64)
    } else {
        0
    }
}

impl Board {
    /// Squares a knight on `square` attacks.
    pub fn knight_attacks_from(square: ChessSquare) -> (r: u64)
        requires
            square.wf(),
        ensures
            r == spec_knight_attacks(square.idx as int),
    {
        let s = square.idx;
        offset_bb(s, 1, 2) | offset_bb(s, 2, 1) | offset_bb(s, 2, -1) | offset_bb(s, 1, -2) | offset_bb(
            s,
            -1,
            -2,
        ) | offset_bb(s, -2, -1) | offset_bb(s, -2, 1) | offset_bb(s, -1, 2)
    }

    /// Squares a king on `square` attacks (castling moves are not attacks).
    pub fn normal_king_attacks_from(square: ChessSquare) -> (r: u64)
        requires
            square.wf(),
        ensures
            r == spec_king_attacks(square.idx as int),
    {
        let s = square.idx;
        offset_bb(s, 1, 1) | offset_bb(s, 1, 0) | offset_bb(s, 1, -1) | offset_bb(s, 0, -1) | offset_bb(
            s,
            -1,
            -1,
        ) | offset_bb(s, -1, 0) | offset_bb(s, -1, 1) | offset_bb(s, 0, 1)
    }

    /// Squares a pawn of the given color on `square` could capture on.
    pub fn single_pawn_captures(color: ChessColor, square: ChessSquare) -> (r: u64)
        requires
            square.wf(),
        ensures
            r == spec_pawn_captures(color == ChessColor::White, square.idx as int),
    {
        let s = square.idx;
        if color == ChessColor::White {
            offset_bb(s, -1, 1) | offset_bb(s, 1, 1)
        } else {
            offset_bb(s, -1, -1) | offset_bb(s, 1, -1)
        }
    }
}

/// Squares reached from `square` stepping by `(df, dr)` up to and including the first occupied one.
pub fn ray_attacks_dir(square: ChessSquare, df: i8, dr: i8, occ: u64) -> (r: u64)
    requires
        square.wf(),
        -1 <= df <= 1,
        -1 <= dr <= 1,
        df != 0 || dr != 0,
    ensures
        r == spec_ray(square.spec_file(), square.spec_rank(), df as int, dr as int, occ),
{
    let mut f: i8 = (square.idx % 8) as i8;
    let mut rk: i8 = (square.idx / 8) as i8;
    let mut res: u64 = 0;
    proof {
        lemma_or_assoc(spec_ray(f as int, rk as int, df as int, dr as int, occ), 0, 0);
    }
    loop
        invariant
            -1 <= df <= 1,
            -1 <= dr <= 1,
            df != 0 || dr != 0,
            on_board(f as int, rk as int),
            res | spec_ray(f as int, rk as int, df as int, dr as int, occ) == spec_ray(
                square.spec_file(),
                square.spec_rank(),
                df as int,
                dr as int,
                occ,
            ),
        decreases ray_measure(f as int, rk as int, df as int, dr as int),
    {
        let nf = f + df;
        let nr = rk + dr;
        if nf < 0 || nf >= 8 || nr < 0 || nr >= 8 {
            proof {
                lemma_or_assoc(res, 0, 0);
            }
            return res;
        }
        let s = (nr * 8 + nf) as u64;
        let here = 1u64 << s;
        if (occ >> s) & 1 == 1 {
            return res | here;
        }
        proof {
            lemma_or_assoc(res, here, spec_ray(nf as int, nr as int, df as int, dr as int, occ));
        }
        res = res | here;
        f = nf;
        rk = nr;
    }
}

/// The attacks of sliding pieces when the squares of `blockers` are occupied.
#[derive(Copy, Clone, Debug)]
pub struct ChessSliderGenerator {
    pub blockers: u64,
}

impl ChessSliderGenerator {
    /// The generator for the occupied squares `blockers`.
    pub fn new(blockers: u64) -> (r: Self)
        ensures
            r.blockers == blockers,
    {
        ChessSliderGenerator { blockers }
    }

    /// The squares a rook on `square` attacks.
    pub fn rook_attacks(&self, square: ChessSquare) -> (r: u64)
        requires
            square.wf(),
        ensures
            r == spec_rook_attacks(square.idx as int, self.blockers),
    {
        rook_attacks(square, self.blockers)
    }

    /// The squares a bishop on `square` attacks.
    pub fn bishop_attacks(&self, square: ChessSquare) -> (r: u64)
        requires
            square.wf(),
        ensures
            r == spec_bishop_attacks(square.idx as int, self.blockers),
    {
        bishop_attacks(square, self.blockers)
    }
}

/// Squares a bishop on `square` attacks.
pub fn bishop_attacks(square: ChessSquare, occ: u64) -> (r: u64)
    requires
        square.wf(),
    ensures
        r == spec_bishop_attacks(square.idx as int, occ),
{
    ray_attacks_dir(square, 1, 1, occ) | ray_attacks_dir(square, 1, -1, occ) | ray_attacks_dir(
        square,
        -1,
        -1,
        occ,
    ) | ray_attacks_dir(square, -1, 1, occ)
}

/// Squares a rook on `square` attacks.
pub fn rook_attacks(square: ChessSquare, occ: u64) -> (r: u64)
    requires
        square.wf(),
    ensures
        r == spec_rook_attacks(square.idx as int, occ),
{
    ray_attacks_dir(square, 1, 0, occ) | ray_attacks_dir(square, 0, -1, occ) | ray_attacks_dir(
        square,
        -1,
        0,
        occ,
    ) | ray_attacks_dir(square, 0, 1, occ)
}

/// Squares a queen on `square` attacks.
pub fn queen_attacks(square: ChessSquare, occ: u64) -> (r: u64)
    requires
        square.wf(),
    ensures
        r == spec_rook_attacks(square.idx as int, occ) | spec_bishop_attacks(square.idx as int, occ),
{
    rook_attacks(square, occ) | bishop_attacks(square, occ)
}

/// The step from `a` towards `b` when they share a rank, file or diagonal and differ.
pub open spec fn spec_direction(a: int, b: int) -> Option<(int, int)> {
    let df = file_of(b) - file_of(a);
    let dr = rank_of(b) - rank_of(a);
    if a == b {
        None
    } else if df == 0 {
        Some((0, if dr > 0 {
            1int
        } else {
            -1int
        }))
    } else if dr == 0 {
        Some((if df > 0 {
            1int
        } else {
            -1int
        }, 0))
    } else if df == dr || df == -dr {
        Some((if df > 0 {
            1int
        } else {
            -1int
        }, if dr > 0 {
            1int
        } else {
            -1int
        }))
    } else {
        None
    }
}

/// The squares strictly between `a` and `b` if they are aligned, else the empty bitboard.
pub open spec fn spec_ray_exclusive(a: int, b: int) -> u64 {
    match spec_direction(a, b) {
        Some((df, dr)) => spec_ray(file_of(a), rank_of(a), df, dr, 1u64 << (b as u64)) ^ (1u64 << (
        b as u64)),
        None => 0,
    }
}

/// The squares between `a` and `b`, both included, if they are aligned; only `a` if `a == b`;
/// else the empty bitboard.
pub open spec fn spec_ray_inclusive(a: int, b: int) -> u64 {
    if a == b {
        1u64 << (a as u64)
    } else {
        match spec_direction(a, b) {
            Some((df, dr)) => spec_ray(file_of(a), rank_of(a), df, dr, 1u64 << (b as u64)) | (1u64
                << (a as u64)),
            None => 0,
        }
    }
}

fn direction(a: ChessSquare, b: ChessSquare) -> (r: Option<(i8, i8)>)
    requires
        a.wf(),
        b.wf(),
    ensures
        r.is_some() == spec_direction(a.idx as int, b.idx as int).is_some(),
        r.is_some() ==> (r.unwrap().0 as int, r.unwrap().1 as int) == spec_direction(
            a.idx as int,
            b.idx as int,
        ).unwrap(),
{
    let df = b.file() as i8 - a.file() as i8;
    let dr = b.rank() as i8 - a.rank() as i8;
    let sf: i8 = if df > 0 {
        1
    } else if df < 0 {
        -1
    } else {
        0
    };
    let sr: i8 = if dr > 0 {
        1
    } else if dr < 0 {
        -1
    } else {
        0
    };
    if a.idx == b.idx {
        None
    } else if df == 0 || dr == 0 || df == dr || df == -dr {
        Some((sf, sr))
    } else {
        None
    }
}

/// The squares strictly between `a` and `b` if they share a rank, file or diagonal.
pub fn ray_exclusive(a: ChessSquare, b: ChessSquare) -> (r: u64)
    requires
        a.wf(),
        b.wf(),
    ensures
        r == spec_ray_exclusive(a.idx as int, b.idx as int),
{
    match direction(a, b) {
        Some((df, dr)) => ray_attacks_dir(a, df, dr, b.bb()) ^ b.bb(),
        None => 0,
    }
}

/// The squares between `a` and `b`, both included, if they share a rank, file or diagonal.
pub fn ray_inclusive(a: ChessSquare, b: ChessSquare) -> (r: u64)
    requires
        a.wf(),
        b.wf(),
    ensures
        r == spec_ray_inclusive(a.idx as int, b.idx as int),
{
    if a.idx == b.idx {
        return a.bb();
    }
    match direction(a, b) {
        Some((df, dr)) => ray_attacks_dir(a, df, dr, b.bb()) | a.bb(),
        None => 0,
    }
}

} // verus!
