//! The king placements of endgame tables with pawns: every pair of a white and a black king that
//! are not next to each other, numbered with the white king's squares taken file group by file
//! group (files a to d, then e to h), rank by rank, and the black king's squares in order.
use vstd::prelude::*;
use crate::squares::{file_of, rank_of, sq_at, spec_sup_distance, sup_distance, ChessSquare};

verus! {

/// The index of a pair of kings that can't stand on the board together.
pub const INVALID_KING_IDX: usize = 65535;

/// The number of pairs of kings that are not next to each other.
pub const NUM_KING_SQUARES: usize = 3612;

/// The white king square with position `w` in the order of the table: files a to d first, rank by
/// rank, then files e to h.
pub open spec fn spec_white_king_at(w: int) -> int {
    sq_at((w / 32) * 4 + w % 4, (w % 32) / 4)
}

/// The position of the white king square `s` in the order of the table.
pub open spec fn spec_white_king_order(s: int) -> int {
    (file_of(s) / 4) * 32 + rank_of(s) * 4 + file_of(s) % 4
}

/// The number of squares below `b` where the black king can stand with the white king on `wk`:
/// those not next to it and not its own square.
pub open spec fn spec_black_kings_below(wk: int, b: int) -> nat
    decreases b,
{
    if b <= 0 {
        0
    } else {
        spec_black_kings_below(wk, b - 1) + if spec_sup_distance(wk, b - 1) > 1 {
            1nat
        } else {
            0nat
        }
    }
}

/// The number of pairs of kings whose white king comes before position `w` in the order.
pub open spec fn spec_pairs_before(w: int) -> nat
    decreases w,
{
    if w <= 0 {
        0
    } else {
        spec_pairs_before(w - 1) + spec_black_kings_below(spec_white_king_at(w - 1), 64)
    }
}

/// The index of the pair of the white king on `wk` and the black king on `bk` among all pairs.
pub open spec fn spec_kings_idx(wk: int, bk: int) -> int {
    if spec_sup_distance(wk, bk) > 1 {
        (spec_pairs_before(spec_white_king_order(wk)) + spec_black_kings_below(wk, bk)) as int
    } else {
        INVALID_KING_IDX as int
    }
}

/// Counting the black king squares below `b` never gives more than `b`.
proof fn lemma_black_kings_below_bound(wk: int, b: int)
    ensures
        spec_black_kings_below(wk, b) <= (if b < 0 { 0 } else { b }),
    decreases b,
{
    if b > 0 {
        lemma_black_kings_below_bound(wk, b - 1);
    }
}

/// Counting the pairs before position `w` never gives more than `64 * w`.
proof fn lemma_pairs_before_bound(w: int)
    ensures
        spec_pairs_before(w) <= 64 * (if w < 0 { 0 } else { w }),
    decreases w,
{
    if w > 0 {
        lemma_pairs_before_bound(w - 1);
        lemma_black_kings_below_bound(spec_white_king_at(w - 1), 64);
    }
}

/// The number of black king squares below `b` for the white king on `wk`.
fn black_kings_below(wk: ChessSquare, b: u8) -> (r: usize)
    requires
        wk.wf(),
        b <= 64,
    ensures
        r == spec_black_kings_below(wk.idx as int, b as int),
{
    let mut count: usize = 0;
    let mut i: u8 = 0;
    while i < b
        invariant
            wk.wf(),
            i <= b <= 64,
            count == spec_black_kings_below(wk.idx as int, i as int),
        decreases b - i,
    {
        proof {
            lemma_black_kings_below_bound(wk.idx as int, i as int);
        }
        if sup_distance(wk, ChessSquare::from_bb_idx(i as usize)) > 1 {
            count = count + 1;
        }
        i = i + 1;
    }
    count
}

/// The index of the pair of kings `kings` (white first) in the table, or [`INVALID_KING_IDX`]
/// if the kings are next to each other or on the same square.
pub fn kings_idx(kings: [ChessSquare; 2]) -> (r: usize)
    requires
        kings[0].wf(),
        kings[1].wf(),
    ensures
        r == spec_kings_idx(kings[0].idx as int, kings[1].idx as int),
{
    let wk = kings[0];
    let bk = kings[1];
    if sup_distance(wk, bk) <= 1 {
        return INVALID_KING_IDX;
    }
    let order = ((wk.file() / 4) as usize) * 32 + (wk.rank() as usize) * 4 + (wk.file() % 4) as usize;
    let mut before: usize = 0;
    let mut w: usize = 0;
    while w < order
        invariant
            w <= order < 64,
            before == spec_pairs_before(w as int),
        decreases order - w,
    {
        proof {
            lemma_pairs_before_bound(w as int);
        }
        let square = ChessSquare::from_rank_file(((w % 32) / 4) as u8, ((w / 32) * 4 + w % 4) as u8);
        assert(square.idx == spec_white_king_at(w as int));
        proof {
            lemma_black_kings_below_bound(square.idx as int, 64);
        }
        before = before + black_kings_below(square, 64);
        w = w + 1;
    }
    proof {
        lemma_pairs_before_bound(order as int);
        lemma_black_kings_below_bound(wk.idx as int, bk.idx as int);
    }
    before + black_kings_below(wk, bk.idx)
}


/// Counting up to a higher square counts at least as many black king squares.
proof fn lemma_black_kings_below_mono(wk: int, b1: int, b2: int)
    requires
        0 <= b1 <= b2,
    ensures
        spec_black_kings_below(wk, b1) <= spec_black_kings_below(wk, b2),
    decreases b2 - b1,
{
    if b1 < b2 {
        lemma_black_kings_below_mono(wk, b1, b2 - 1);
    }
}

/// An allowed black king square counts one more than the squares below it.
proof fn lemma_black_kings_below_strict(wk: int, b1: int, b2: int)
    requires
        0 <= b1 < b2,
        spec_sup_distance(wk, b1) > 1,
    ensures
        spec_black_kings_below(wk, b1) < spec_black_kings_below(wk, b2),
{
    lemma_black_kings_below_mono(wk, b1 + 1, b2);
}

/// Positions further on in the order of white king squares come after more pairs.
proof fn lemma_pairs_before_mono(w1: int, w2: int)
    requires
        0 <= w1 <= w2,
    ensures
        spec_pairs_before(w1) <= spec_pairs_before(w2),
    decreases w2 - w1,
{
    if w1 < w2 {
        lemma_pairs_before_mono(w1, w2 - 1);
    }
}

/// The order of white king squares lists every square once.
proof fn lemma_white_king_order(s: int)
    requires
        0 <= s < 64,
    ensures
        0 <= spec_white_king_order(s) < 64,
        spec_white_king_at(spec_white_king_order(s)) == s,
{
    let f = file_of(s);
    let r = rank_of(s);
    let o = spec_white_king_order(s);
    assert(0 <= f < 8 && 0 <= r < 8 && s == r * 8 + f);
    assert(o == (f / 4) * 32 + r * 4 + f % 4);
    assert(o / 32 == f / 4 && o % 32 == r * 4 + f % 4 && o % 4 == f % 4 && (o % 32) / 4 == r) by (nonlinear_arith)
        requires
            o == (f / 4) * 32 + r * 4 + f % 4,
            0 <= f < 8,
            0 <= r < 8,
    ;
}

/// The index of a pair of kings that are not next to each other lies below the number of all such
/// pairs, and different pairs get different indices.
pub proof fn law_kings_idx_injective(w1: int, b1: int, w2: int, b2: int)
    requires
        0 <= w1 < 64,
        0 <= b1 < 64,
        0 <= w2 < 64,
        0 <= b2 < 64,
        spec_sup_distance(w1, b1) > 1,
        spec_sup_distance(w2, b2) > 1,
    ensures
        0 <= spec_kings_idx(w1, b1) < spec_pairs_before(64),
        spec_kings_idx(w1, b1) == spec_kings_idx(w2, b2) ==> w1 == w2 && b1 == b2,
{
    lemma_white_king_order(w1);
    lemma_white_king_order(w2);
    let o1 = spec_white_king_order(w1);
    let o2 = spec_white_king_order(w2);
    lemma_black_kings_below_strict(w1, b1, 64);
    lemma_black_kings_below_strict(w2, b2, 64);
    lemma_pairs_before_mono(o1 + 1, 64);
    assert(spec_pairs_before(o1 + 1) == spec_pairs_before(o1) + spec_black_kings_below(w1, 64));
    assert(spec_pairs_before(o2 + 1) == spec_pairs_before(o2) + spec_black_kings_below(w2, 64));
    if spec_kings_idx(w1, b1) == spec_kings_idx(w2, b2) {
        if o1 < o2 {
            lemma_pairs_before_mono(o1 + 1, o2);
        } else if o2 < o1 {
            lemma_pairs_before_mono(o2 + 1, o1);
        } else {
            assert(w1 == w2);
            if b1 < b2 {
                lemma_black_kings_below_strict(w1, b1, b2);
            } else if b2 < b1 {
                lemma_black_kings_below_strict(w1, b2, b1);
            }
        }
    }
}

} // verus!
