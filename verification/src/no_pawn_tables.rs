//! The king placements of endgame tables without pawns: the white king is brought onto one of ten
//! squares of the lower left triangle (a1, a2, b2, a3, b3, c3, a4, b4, c4, d4) by the board's
//! symmetries, and with the white king on the diagonal the black king stays on or above it.
use vstd::prelude::*;
use crate::squares::{file_of, rank_of, sq_at, spec_sup_distance, sup_distance, ChessSquare};

verus! {

/// The index of a pair of kings that is not in the table.
pub const INVALID_KING_IDX: usize = 65535;

/// The number of squares the white king is brought onto.
pub const NUM_KING_SYMMETRY_SQUARES: usize = 10;

/// The number of pairs of kings in the table.
pub const NUM_KING_SQUARES: usize = 462;

/// The square with position `j` among the ten white king squares.
pub open spec fn spec_symmetry_square(j: int) -> int {
    if j == 0 {
        sq_at(0, 0)
    } else if j == 1 {
        sq_at(0, 1)
    } else if j == 2 {
        sq_at(1, 1)
    } else if j == 3 {
        sq_at(0, 2)
    } else if j == 4 {
        sq_at(1, 2)
    } else if j == 5 {
        sq_at(2, 2)
    } else if j == 6 {
        sq_at(0, 3)
    } else if j == 7 {
        sq_at(1, 3)
    } else if j == 8 {
        sq_at(2, 3)
    } else {
        sq_at(3, 3)
    }
}

/// Whether the black king may stand on `b` with the white king on `w`: not next to it or on it,
/// and not below the diagonal when the white king is on the diagonal.
pub open spec fn spec_allowed_pair(w: int, b: int) -> bool {
    spec_sup_distance(w, b) > 1 && !(rank_of(w) == file_of(w) && rank_of(b) < file_of(b))
}

/// The number of allowed black king squares below `b` with the white king on `w`.
pub open spec fn spec_allowed_below(w: int, b: int) -> nat
    decreases b,
{
    if b <= 0 {
        0
    } else {
        spec_allowed_below(w, b - 1) + if spec_allowed_pair(w, b - 1) {
            1nat
        } else {
            0nat
        }
    }
}

/// The number of pairs whose white king comes before position `j` of the ten squares.
pub open spec fn spec_symmetry_pairs_before(j: int) -> nat
    decreases j,
{
    if j <= 0 {
        0
    } else {
        spec_symmetry_pairs_before(j - 1) + spec_allowed_below(spec_symmetry_square(j - 1), 64)
    }
}

/// The index of the pair of the white king on `w` and the black king on `b` in the table, or
/// [`INVALID_KING_IDX`] when the white king is not on one of the ten squares or the pair is not
/// allowed.
pub open spec fn spec_kings_idx(w: int, b: int) -> int {
    if exists|j: int| 0 <= j < 10 && spec_symmetry_square(j) == w {
        let j = choose|j: int| 0 <= j < 10 && spec_symmetry_square(j) == w;
        if spec_allowed_pair(w, b) {
            (spec_symmetry_pairs_before(j) + spec_allowed_below(w, b)) as int
        } else {
            INVALID_KING_IDX as int
        }
    } else {
        INVALID_KING_IDX as int
    }
}

proof fn lemma_allowed_below_bound(w: int, b: int)
    ensures
        spec_allowed_below(w, b) <= (if b < 0 { 0 } else { b }),
    decreases b,
{
    if b > 0 {
        lemma_allowed_below_bound(w, b - 1);
    }
}

proof fn lemma_symmetry_pairs_before_bound(j: int)
    ensures
        spec_symmetry_pairs_before(j) <= 64 * (if j < 0 { 0 } else { j }),
    decreases j,
{
    if j > 0 {
        lemma_symmetry_pairs_before_bound(j - 1);
        lemma_allowed_below_bound(spec_symmetry_square(j - 1), 64);
    }
}

/// The square with position `j` among the ten white king squares.
pub fn symmetry_square(j: usize) -> (r: ChessSquare)
    requires
        j < NUM_KING_SYMMETRY_SQUARES,
    ensures
        r.wf(),
        r.idx == spec_symmetry_square(j as int),
{
    let (file, rank): (u8, u8) = if j == 0 {
        (0, 0)
    } else if j == 1 {
        (0, 1)
    } else if j == 2 {
        (1, 1)
    } else if j == 3 {
        (0, 2)
    } else if j == 4 {
        (1, 2)
    } else if j == 5 {
        (2, 2)
    } else if j == 6 {
        (0, 3)
    } else if j == 7 {
        (1, 3)
    } else if j == 8 {
        (2, 3)
    } else {
        (3, 3)
    };
    ChessSquare::from_rank_file(rank, file)
}

/// The number of allowed black king squares below `b` with the white king on `w`.
fn allowed_below(w: ChessSquare, b: u8) -> (r: usize)
    requires
        w.wf(),
        b <= 64,
    ensures
        r == spec_allowed_below(w.idx as int, b as int),
{
    let mut count: usize = 0;
    let mut i: u8 = 0;
    while i < b
        invariant
            w.wf(),
            i <= b <= 64,
            count == spec_allowed_below(w.idx as int, i as int),
        decreases b - i,
    {
        proof {
            lemma_allowed_below_bound(w.idx as int, i as int);
        }
        let other = ChessSquare::from_bb_idx(i as usize);
        if sup_distance(w, other) > 1 && !(w.rank() == w.file() && other.rank() < other.file()) {
            count = count + 1;
        }
        i = i + 1;
    }
    count
}

/// The index of the pair of kings `kings` (white first) in the table, or [`INVALID_KING_IDX`].
pub fn kings_idx(kings: [ChessSquare; 2]) -> (r: usize)
    requires
        kings[0].wf(),
        kings[1].wf(),
    ensures
        r == spec_kings_idx(kings[0].idx as int, kings[1].idx as int),
{
    let w = kings[0];
    let b = kings[1];
    let mut j: usize = 0;
    while j < NUM_KING_SYMMETRY_SQUARES
        invariant
            j <= NUM_KING_SYMMETRY_SQUARES,
            forall|j2: int| 0 <= j2 < j ==> spec_symmetry_square(j2) != w.idx,
        ensures
            j <= NUM_KING_SYMMETRY_SQUARES,
            forall|j2: int| 0 <= j2 < j ==> spec_symmetry_square(j2) != w.idx,
            j < NUM_KING_SYMMETRY_SQUARES ==> spec_symmetry_square(j as int) == w.idx,
        decreases NUM_KING_SYMMETRY_SQUARES - j,
    {
        if symmetry_square(j) == w {
            break;
        }
        j = j + 1;
    }
    if j == NUM_KING_SYMMETRY_SQUARES {
        return INVALID_KING_IDX;
    }
    proof {
        let c = choose|j2: int| 0 <= j2 < 10 && spec_symmetry_square(j2) == w.idx;
        assert(c == j) by {
            if c < j {
            } else if c > j {
                assert(spec_symmetry_square(c) != spec_symmetry_square(j as int));
            }
        }
    }
    if !(sup_distance(w, b) > 1 && !(w.rank() == w.file() && b.rank() < b.file())) {
        return INVALID_KING_IDX;
    }
    let mut before: usize = 0;
    let mut k: usize = 0;
    while k < j
        invariant
            k <= j < NUM_KING_SYMMETRY_SQUARES,
            before == spec_symmetry_pairs_before(k as int),
        decreases j - k,
    {
        proof {
            lemma_symmetry_pairs_before_bound(k as int);
        }
        let square = symmetry_square(k);
        proof {
            lemma_allowed_below_bound(square.idx as int, 64);
        }
        before = before + allowed_below(square, 64);
        k = k + 1;
    }
    proof {
        lemma_symmetry_pairs_before_bound(j as int);
        lemma_allowed_below_bound(w.idx as int, b.idx as int);
    }
    before + allowed_below(w, b.idx)
}


proof fn lemma_allowed_below_mono(w: int, b1: int, b2: int)
    requires
        0 <= b1 <= b2,
    ensures
        spec_allowed_below(w, b1) <= spec_allowed_below(w, b2),
    decreases b2 - b1,
{
    if b1 < b2 {
        lemma_allowed_below_mono(w, b1, b2 - 1);
    }
}

proof fn lemma_allowed_below_strict(w: int, b1: int, b2: int)
    requires
        0 <= b1 < b2,
        spec_allowed_pair(w, b1),
    ensures
        spec_allowed_below(w, b1) < spec_allowed_below(w, b2),
{
    lemma_allowed_below_mono(w, b1 + 1, b2);
}

proof fn lemma_symmetry_pairs_before_mono(j1: int, j2: int)
    requires
        0 <= j1 <= j2,
    ensures
        spec_symmetry_pairs_before(j1) <= spec_symmetry_pairs_before(j2),
    decreases j2 - j1,
{
    if j1 < j2 {
        lemma_symmetry_pairs_before_mono(j1, j2 - 1);
    }
}

/// The ten white king squares are different.
proof fn lemma_symmetry_squares_distinct(j1: int, j2: int)
    requires
        0 <= j1 < 10,
        0 <= j2 < 10,
        spec_symmetry_square(j1) == spec_symmetry_square(j2),
    ensures
        j1 == j2,
{
}

/// The index of an allowed pair lies below the number of all allowed pairs, and different allowed
/// pairs get different indices.
pub proof fn law_kings_idx_injective(j1: int, b1: int, j2: int, b2: int)
    requires
        0 <= j1 < 10,
        0 <= j2 < 10,
        0 <= b1 < 64,
        0 <= b2 < 64,
        spec_allowed_pair(spec_symmetry_square(j1), b1),
        spec_allowed_pair(spec_symmetry_square(j2), b2),
    ensures
        0 <= spec_kings_idx(spec_symmetry_square(j1), b1) < spec_symmetry_pairs_before(10),
        spec_kings_idx(spec_symmetry_square(j1), b1) == spec_kings_idx(spec_symmetry_square(j2), b2)
            ==> j1 == j2 && b1 == b2,
{
    let w1 = spec_symmetry_square(j1);
    let w2 = spec_symmetry_square(j2);
    let c1 = choose|j: int| 0 <= j < 10 && spec_symmetry_square(j) == w1;
    let c2 = choose|j: int| 0 <= j < 10 && spec_symmetry_square(j) == w2;
    lemma_symmetry_squares_distinct(c1, j1);
    lemma_symmetry_squares_distinct(c2, j2);
    lemma_allowed_below_strict(w1, b1, 64);
    lemma_allowed_below_strict(w2, b2, 64);
    lemma_symmetry_pairs_before_mono(j1 + 1, 10);
    assert(spec_symmetry_pairs_before(j1 + 1) == spec_symmetry_pairs_before(j1) + spec_allowed_below(w1, 64));
    assert(spec_symmetry_pairs_before(j2 + 1) == spec_symmetry_pairs_before(j2) + spec_allowed_below(w2, 64));
    if spec_kings_idx(w1, b1) == spec_kings_idx(w2, b2) {
        if j1 < j2 {
            lemma_symmetry_pairs_before_mono(j1 + 1, j2);
        } else if j2 < j1 {
            lemma_symmetry_pairs_before_mono(j2 + 1, j1);
        } else {
            if b1 < b2 {
                lemma_allowed_below_strict(w1, b1, b2);
            } else if b2 < b1 {
                lemma_allowed_below_strict(w1, b2, b1);
            }
        }
    }
}

} // verus!
