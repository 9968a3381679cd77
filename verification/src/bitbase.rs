//! The king and pawn versus king endgame: for every placement of a white pawn, the white king and
//! the black king, whether White wins (with either side to move), computed by retrograde analysis.
use vstd::prelude::*;
use crate::bits::{bit, east, has_bit, north, pop_count, pop_lsb, south, west};
use crate::squares::{file_of, rank_of};
use crate::chessboard::{Board, Chessboard};
use crate::games::PlayerResult;
use crate::pieces::{ChessColor, ChessPieceType};
use crate::squares::{sup_distance, ChessSquare};

verus! {

/// The number of pawn and white king placements with the pawn on the left half of the board.
pub const NUM_COMPLETE_BITBOARDS: usize = 2048;

/// The number of placements without the pawn on the first or last rank.
pub const NUM_RELEVANT_BITBOARDS: usize = 1536;

/// The index of the first placement with the pawn on the second rank.
pub const OFFSET: usize = 256;

/// For every placement of the white pawn and king, the squares of the black king where White wins:
/// `white` with White to move, `black` with Black to move. Indexed by [`idx_compact`], so only for
/// pawns on the files a to d and the ranks 2 to 7.
pub struct CompactBitbase {
    pub white: Vec<u64>,
    pub black: Vec<u64>,
}

impl CompactBitbase {
    /// Both tables have an entry for every relevant placement.
    pub open spec fn wf(&self) -> bool {
        self.white@.len() == NUM_RELEVANT_BITBOARDS && self.black@.len() == NUM_RELEVANT_BITBOARDS
    }
}

/// The index of a placement of the white pawn (on the files a to d) and the white king.
pub fn idx_full(w_pawn: ChessSquare, w_king: ChessSquare) -> (r: usize)
    requires
        w_pawn.wf(),
        w_king.wf(),
        w_pawn.spec_file() < 4,
    ensures
        r == (w_pawn.spec_rank() * 4 + w_pawn.spec_file()) * 64 + w_king.idx,
        r < NUM_COMPLETE_BITBOARDS,
{
    (w_pawn.rank() as usize * 4 + w_pawn.file() as usize) * 64 + w_king.bb_idx()
}

/// The index of a placement with the pawn not on the first or last rank in the compact tables.
pub fn idx_compact(w_pawn: ChessSquare, w_king: ChessSquare) -> (r: usize)
    requires
        w_pawn.wf(),
        w_king.wf(),
        w_pawn.spec_file() < 4,
        1 <= w_pawn.spec_rank() <= 6,
    ensures
        r == (w_pawn.spec_rank() * 4 + w_pawn.spec_file()) * 64 + w_king.idx - OFFSET,
        r < NUM_RELEVANT_BITBOARDS,
{
    idx_full(w_pawn, w_king) - OFFSET
}

/// The squares next to a square of `b`, computed by shifting `b` one rank up and down and then
/// one file left and right.
pub open spec fn spec_moore_exclusive(b: u64) -> u64 {
    let vertical = (b << 8u64) | (b >> 8u64);
    let sides = b | vertical;
    vertical | ((sides << 1u64) & !crate::bits::FILE_A) | ((sides >> 1u64) & !crate::bits::FILE_H)
}

/// The squares next to a square of `b` (not counting `b` itself unless next to another of its
/// squares).
pub fn moore_exclusive(b: u64) -> (r: u64)
    ensures
        r == spec_moore_exclusive(b),
{
    let vertical = north(b) | south(b);
    let sides = b | vertical;
    vertical | east(sides) | west(sides)
}

/// The index of a placement of the white pawn on `wp` and the white king on `wk` in the full
/// tables.
pub open spec fn spec_idx_full(wp: int, wk: int) -> int {
    (rank_of(wp) * 4 + file_of(wp)) * 64 + wk
}

/// Starting from `acc`, adds for every square `t` of `tos` (a destination of the white king) the
/// black king squares where Black, to move after the king went to `t`, loses and is not next to
/// `t`.
pub open spec fn spec_king_move_wins(wp: int, tos: u64, black: Seq<u64>, acc: u64) -> u64
    decreases pop_count(tos),
{
    if tos == 0 {
        acc
    } else {
        let t = vstd::std_specs::bits::u64_trailing_zeros(tos) as u64;
        proof {
            vstd::std_specs::bits::axiom_u64_trailing_zeros(tos);
            crate::bits::lemma_pop_count_remove_bit(tos, t);
        }
        spec_king_move_wins(
            wp,
            tos ^ (1u64 << t),
            black,
            acc | (black[spec_idx_full(wp, t as int)] & !crate::attacks::spec_king_attacks(t as int)),
        )
    }
}

/// The black king squares where White, to move with the pawn on `wp` and the king on `wk`, wins:
/// some king move, pawn push or double push reaches a placement that Black loses; squares the
/// pawn stands on or that are invalid (the black king in check or next to the white king) are
/// left out.
pub open spec fn spec_white_wins(wp: int, wk: int, black: Seq<u64>, invalid: Seq<u64>) -> u64 {
    let pawn_bb = 1u64 << wp as u64;
    let push = wp + 8;
    let by_king = spec_king_move_wins(wp, crate::attacks::spec_king_attacks(wk) & !pawn_bb, black, 0);
    let by_push = if push != wk {
        by_king | black[spec_idx_full(push, wk)]
    } else {
        by_king
    };
    let by_double = if push != wk && rank_of(wp) == 1 && push + 8 != wk {
        by_push | (black[spec_idx_full(push + 8, wk)] & !(1u64 << push as u64))
    } else {
        by_push
    };
    by_double & !pawn_bb & !invalid[spec_idx_full(wp, wk)]
}

/// The black king squares where Black, to move with the white pawn on `wp`, loses, given the
/// squares `white` where White to move wins and the `invalid` ones: Black has a move, and every
/// move reaches a square where White wins.
pub open spec fn spec_black_loses(wp: int, white: u64, invalid: u64) -> u64 {
    spec_moore_exclusive(!invalid) & !spec_moore_exclusive(!(white | invalid)) & !(1u64 << wp as u64)
}

/// The squares of `a` are all squares of `b`.
pub open spec fn subset(a: u64, b: u64) -> bool {
    a & !b == 0
}

/// The set operations of the analysis keep inclusions: unions and intersections of larger sets
/// are larger, fewer winning squares for White to move leave Black fewer lost squares, and
/// halving a bitboard keeps inclusions (which is how its squares are counted).
proof fn lemma_subset_steps(a1: u64, a2: u64, b1: u64, b2: u64, m: u64, inv: u64, pbb: u64)
    ensures
        subset(a1, a1),
        subset(0, a1),
        subset(a1, 0) ==> a1 == 0,
        subset(a1, a2) && subset(b1, b2) ==> subset(a1 | b1, a2 | b2),
        subset(a1, a2) ==> subset(a1 & m, a2 & m),
        subset(a1, a2) ==> subset(
            spec_moore_exclusive(!inv) & !spec_moore_exclusive(!(a1 | inv)) & !pbb,
            spec_moore_exclusive(!inv) & !spec_moore_exclusive(!(a2 | inv)) & !pbb,
        ),
        subset(a1, a2) ==> subset(a1 / 2, a2 / 2) && a1 % 2 <= a2 % 2 && (a1 != a2 ==> (a1 / 2 != a2 / 2
            || a1 % 2 < a2 % 2)),
{
    assert(a1 & !a1 == 0 && 0u64 & !a1 == 0 && (a1 & !0u64 == 0 ==> a1 == 0) && (a1 & !a2 == 0 && b1
        & !b2 == 0 ==> (a1 | b1) & !(a2 | b2) == 0) && (a1 & !a2 == 0 ==> (a1 & m) & !(a2 & m) == 0) && (
    a1 & !a2 == 0 ==> (spec_moore_exclusive(!inv) & !spec_moore_exclusive(!(a1 | inv)) & !pbb) & !(
    spec_moore_exclusive(!inv) & !spec_moore_exclusive(!(a2 | inv)) & !pbb) == 0) && (a1 & !a2 == 0 ==> (
    a1 / 2) & !(a2 / 2) == 0 && a1 % 2 <= a2 % 2 && (a1 != a2 ==> (a1 / 2 != a2 / 2 || a1 % 2 < a2 % 2))))
        by (bit_vector);
}

/// A subset has at most as many squares, and fewer if it is a proper subset.
proof fn lemma_pop_count_subset(a: u64, b: u64)
    requires
        subset(a, b),
    ensures
        pop_count(a) <= pop_count(b),
        a != b ==> pop_count(a) < pop_count(b),
    decreases b,
{
    lemma_subset_steps(a, b, 0, 0, 0, 0, 0);
    if b == 0 {
    } else {
        lemma_pop_count_subset(a / 2, b / 2);
        if a == 0 {
            crate::bits::lemma_pop_count_zero(b);
        }
    }
}

/// The number of black king squares in the first `k` entries of the block of pawn square `wp`.
pub open spec fn spec_block_count(t: Seq<u64>, wp: int, k: int) -> nat
    decreases k,
{
    if k <= 0 {
        0
    } else {
        spec_block_count(t, wp, k - 1) + pop_count(t[spec_idx_full(wp, k - 1)])
    }
}

/// A block with each entry a subset of another block's counts at most as many squares, and fewer
/// if some entry differs.
proof fn lemma_block_count_grows(t1: Seq<u64>, t2: Seq<u64>, wp: int, k: int)
    requires
        forall|k2: int| 0 <= k2 < k ==> subset(#[trigger] t1[spec_idx_full(wp, k2)], t2[spec_idx_full(wp, k2)]),
    ensures
        spec_block_count(t1, wp, k) <= spec_block_count(t2, wp, k),
        (exists|k2: int| 0 <= k2 < k && #[trigger] t1[spec_idx_full(wp, k2)] != t2[spec_idx_full(wp, k2)])
            ==> spec_block_count(t1, wp, k) < spec_block_count(t2, wp, k),
    decreases k,
{
    if k > 0 {
        lemma_block_count_grows(t1, t2, wp, k - 1);
        lemma_pop_count_subset(t1[spec_idx_full(wp, k - 1)], t2[spec_idx_full(wp, k - 1)]);
    }
}

/// A block of `k` entries holds at most `64 * k` squares.
proof fn lemma_block_count_bound(t: Seq<u64>, wp: int, k: int)
    ensures
        spec_block_count(t, wp, k) <= 64 * (if k < 0 { 0 } else { k }),
    decreases k,
{
    if k > 0 {
        lemma_block_count_bound(t, wp, k - 1);
        crate::bits::lemma_pop_count_bound(t[spec_idx_full(wp, k - 1)]);
    }
}

/// More lost squares for Black give White at least as many won king moves.
proof fn lemma_king_move_wins_grows(wp: int, tos: u64, b1: Seq<u64>, b2: Seq<u64>, acc1: u64, acc2: u64)
    requires
        subset(acc1, acc2),
        forall|t: int| 0 <= t < 64 ==> subset(#[trigger] b1[spec_idx_full(wp, t)], b2[spec_idx_full(wp, t)]),
    ensures
        subset(spec_king_move_wins(wp, tos, b1, acc1), spec_king_move_wins(wp, tos, b2, acc2)),
    decreases pop_count(tos),
{
    if tos != 0 {
        let t = vstd::std_specs::bits::u64_trailing_zeros(tos) as u64;
        vstd::std_specs::bits::axiom_u64_trailing_zeros(tos);
        crate::bits::lemma_pop_count_remove_bit(tos, t);
        let m = !crate::attacks::spec_king_attacks(t as int);
        let x1 = b1[spec_idx_full(wp, t as int)];
        let x2 = b2[spec_idx_full(wp, t as int)];
        lemma_subset_steps(x1, x2, 0, 0, m, 0, 0);
        lemma_subset_steps(acc1, acc2, x1 & m, x2 & m, 0, 0, 0);
        lemma_king_move_wins_grows(wp, tos ^ (1u64 << t), b1, b2, acc1 | (x1 & m), acc2 | (x2 & m));
    }
}

/// The won king moves depend only on the block of the pawn square.
proof fn lemma_king_move_wins_frame(wp: int, tos: u64, b1: Seq<u64>, b2: Seq<u64>, acc: u64)
    requires
        forall|t: int| 0 <= t < 64 ==> #[trigger] b1[spec_idx_full(wp, t)] == b2[spec_idx_full(wp, t)],
    ensures
        spec_king_move_wins(wp, tos, b1, acc) == spec_king_move_wins(wp, tos, b2, acc),
    decreases pop_count(tos),
{
    if tos != 0 {
        let t = vstd::std_specs::bits::u64_trailing_zeros(tos) as u64;
        vstd::std_specs::bits::axiom_u64_trailing_zeros(tos);
        crate::bits::lemma_pop_count_remove_bit(tos, t);
        assert(b1[spec_idx_full(wp, t as int)] == b2[spec_idx_full(wp, t as int)]);
        lemma_king_move_wins_frame(
            wp,
            tos ^ (1u64 << t),
            b1,
            b2,
            acc | (b1[spec_idx_full(wp, t as int)] & !crate::attacks::spec_king_attacks(t as int)),
        );
    }
}

/// More lost squares for Black in the block of `wp`, and the same in the blocks of the squares
/// the pawn can push to, give White to move at least as many won squares.
proof fn lemma_white_wins_grows(wp: int, wk: int, b1: Seq<u64>, b2: Seq<u64>, invalid: Seq<u64>)
    requires
        forall|t: int| 0 <= t < 64 ==> subset(#[trigger] b1[spec_idx_full(wp, t)], b2[spec_idx_full(wp, t)]),
        subset(b1[spec_idx_full(wp + 8, wk)], b2[spec_idx_full(wp + 8, wk)]),
        rank_of(wp) == 1 ==> subset(b1[spec_idx_full(wp + 16, wk)], b2[spec_idx_full(wp + 16, wk)]),
    ensures
        subset(spec_white_wins(wp, wk, b1, invalid), spec_white_wins(wp, wk, b2, invalid)),
{
    let pawn_bb = 1u64 << wp as u64;
    let push_bb = 1u64 << (wp + 8) as u64;
    let tos = crate::attacks::spec_king_attacks(wk) & !pawn_bb;
    lemma_subset_steps(0, 0, 0, 0, 0, 0, 0);
    lemma_king_move_wins_grows(wp, tos, b1, b2, 0, 0);
    let k1 = spec_king_move_wins(wp, tos, b1, 0);
    let k2 = spec_king_move_wins(wp, tos, b2, 0);
    let p1 = b1[spec_idx_full(wp + 8, wk)];
    let p2 = b2[spec_idx_full(wp + 8, wk)];
    let e1 = b1[spec_idx_full(wp + 16, wk)];
    let e2 = b2[spec_idx_full(wp + 16, wk)];
    let d1 = e1 & !push_bb;
    let d2 = e2 & !push_bb;
    if rank_of(wp) == 1 {
        lemma_subset_steps(e1, e2, 0, 0, !push_bb, 0, 0);
    }
    lemma_subset_steps(k1, k2, p1, p2, 0, 0, 0);
    let q1 = if wp + 8 != wk { k1 | p1 } else { k1 };
    let q2 = if wp + 8 != wk { k2 | p2 } else { k2 };
    lemma_subset_steps(q1, q2, d1, d2, 0, 0, 0);
    let r1 = if wp + 8 != wk && rank_of(wp) == 1 && wp + 16 != wk { q1 | d1 } else { q1 };
    let r2 = if wp + 8 != wk && rank_of(wp) == 1 && wp + 16 != wk { q2 | d2 } else { q2 };
    lemma_subset_steps(r1, r2, 0, 0, !pawn_bb, 0, 0);
    lemma_subset_steps(r1 & !pawn_bb, r2 & !pawn_bb, 0, 0, !invalid[spec_idx_full(wp, wk)], 0, 0);
}

/// The squares White to move wins with the pawn on `wp` depend only on the blocks of `wp` and of
/// the squares the pawn can push to.
proof fn lemma_white_wins_frame(wp: int, wk: int, b1: Seq<u64>, b2: Seq<u64>, invalid: Seq<u64>)
    requires
        forall|t: int| 0 <= t < 64 ==> #[trigger] b1[spec_idx_full(wp, t)] == b2[spec_idx_full(wp, t)],
        b1[spec_idx_full(wp + 8, wk)] == b2[spec_idx_full(wp + 8, wk)],
        rank_of(wp) == 1 ==> b1[spec_idx_full(wp + 16, wk)] == b2[spec_idx_full(wp + 16, wk)],
    ensures
        spec_white_wins(wp, wk, b1, invalid) == spec_white_wins(wp, wk, b2, invalid),
{
    let tos = crate::attacks::spec_king_attacks(wk) & !(1u64 << wp as u64);
    lemma_king_move_wins_frame(wp, tos, b1, b2, 0);
}

fn zeros(n: usize) -> (r: Vec<u64>)
    ensures
        r@.len() == n,
        forall|i: int| 0 <= i < n ==> #[trigger] r@[i] == 0,
{
    let mut v: Vec<u64> = Vec::new();
    let mut i: usize = 0;
    while i < n
        invariant
            i <= n,
            v@.len() == i,
            forall|j: int| 0 <= j < i ==> #[trigger] v@[j] == 0,
        decreases n - i,
    {
        v.push(0);
        i = i + 1;
    }
    v
}

/// The placements with the pawn on `w_pawn` where White wins with White to move, from those with
/// Black to move: White wins if some king move or pawn push reaches a position that Black loses.
fn update_white(
    w_pawn: ChessSquare,
    white: &mut Vec<u64>,
    black: &Vec<u64>,
    invalid: &Vec<u64>,
)
    requires
        w_pawn.wf(),
        w_pawn.spec_file() < 4,
        w_pawn.spec_rank() < 7,
        old(white)@.len() == NUM_COMPLETE_BITBOARDS,
        black@.len() == NUM_COMPLETE_BITBOARDS,
        invalid@.len() == NUM_COMPLETE_BITBOARDS,
    ensures
        final(white)@.len() == NUM_COMPLETE_BITBOARDS,
        forall|k: int| 0 <= k < 64 ==> #[trigger] final(white)@[spec_idx_full(w_pawn.idx as int, k)]
            == spec_white_wins(w_pawn.idx as int, k, black@, invalid@),
        forall|j: int| 0 <= j < NUM_COMPLETE_BITBOARDS && !(spec_idx_full(w_pawn.idx as int, 0) <= j
            < spec_idx_full(w_pawn.idx as int, 0) + 64) ==> #[trigger] final(white)@[j] == old(white)@[j],
{
    let ghost wp = w_pawn.idx as int;
    let ghost start = white@;
    let push = ChessSquare { idx: w_pawn.idx + 8 };
    let mut k: u8 = 0;
    while k < 64
        invariant
            w_pawn.wf(),
            w_pawn.spec_file() < 4,
            w_pawn.spec_rank() < 7,
            wp == w_pawn.idx,
            k <= 64,
            push.idx == w_pawn.idx + 8,
            white@.len() == NUM_COMPLETE_BITBOARDS,
            black@.len() == NUM_COMPLETE_BITBOARDS,
            invalid@.len() == NUM_COMPLETE_BITBOARDS,
            forall|k2: int| 0 <= k2 < k ==> #[trigger] white@[spec_idx_full(wp, k2)]
                == spec_white_wins(wp, k2, black@, invalid@),
            forall|j: int| 0 <= j < NUM_COMPLETE_BITBOARDS && !(spec_idx_full(wp, 0) <= j
                < spec_idx_full(wp, 0) + k) ==> #[trigger] white@[j] == start[j],
        decreases 64 - k,
    {
        let w_king = ChessSquare::from_bb_idx(k as usize);
        let mut won: u64 = 0;
        let tos0 = Board::normal_king_attacks_from(w_king) & !w_pawn.bb();
        let mut tos = tos0;
        while tos != 0
            invariant
                w_pawn.wf(),
                w_pawn.spec_file() < 4,
                wp == w_pawn.idx,
                black@.len() == NUM_COMPLETE_BITBOARDS,
                spec_king_move_wins(wp, tos, black@, won) == spec_king_move_wins(wp, tos0, black@, 0),
            decreases tos,
        {
            let (t, rest) = pop_lsb(tos);
            tos = rest;
            let to = ChessSquare::from_bb_idx(t as usize);
            won = won | (black[idx_full(w_pawn, to)] & !Board::normal_king_attacks_from(to));
        }
        if push != w_king {
            won = won | black[idx_full(push, w_king)];
            if w_pawn.rank() == 1 {
                let double_push = ChessSquare { idx: push.idx + 8 };
                if double_push != w_king {
                    won = won | (black[idx_full(double_push, w_king)] & !push.bb());
                }
            }
        }
        let i = idx_full(w_pawn, w_king);
        white.set(i, won & !w_pawn.bb() & !invalid[i]);
        proof {
            assert(white@[spec_idx_full(wp, k as int)] == spec_white_wins(wp, k as int, black@, invalid@));
        }
        k = k + 1;
    }
}

/// The placements with the pawn on `w_pawn` where White wins with Black to move: Black has a move,
/// and every move reaches a position that White wins with White to move. Returns whether anything
/// changed.
fn update_black(
    w_pawn: ChessSquare,
    white: &Vec<u64>,
    black: &mut Vec<u64>,
    invalid: &Vec<u64>,
) -> (changed: bool)
    requires
        w_pawn.wf(),
        w_pawn.spec_file() < 4,
        white@.len() == NUM_COMPLETE_BITBOARDS,
        old(black)@.len() == NUM_COMPLETE_BITBOARDS,
        invalid@.len() == NUM_COMPLETE_BITBOARDS,
    ensures
        final(black)@.len() == NUM_COMPLETE_BITBOARDS,
        forall|k: int| 0 <= k < 64 ==> #[trigger] final(black)@[spec_idx_full(w_pawn.idx as int, k)]
            == spec_black_loses(
                w_pawn.idx as int,
                white@[spec_idx_full(w_pawn.idx as int, k)],
                invalid@[spec_idx_full(w_pawn.idx as int, k)],
            ),
        forall|j: int| 0 <= j < NUM_COMPLETE_BITBOARDS && !(spec_idx_full(w_pawn.idx as int, 0) <= j
            < spec_idx_full(w_pawn.idx as int, 0) + 64) ==> #[trigger] final(black)@[j] == old(black)@[j],
        !changed ==> final(black)@ == old(black)@,
        changed ==> exists|k: int| 0 <= k < 64 && #[trigger] final(black)@[spec_idx_full(w_pawn.idx as int, k)]
            != old(black)@[spec_idx_full(w_pawn.idx as int, k)],
{
    let ghost wp = w_pawn.idx as int;
    let ghost start = black@;
    let mut changed = false;
    let mut k: u8 = 0;
    while k < 64
        invariant
            w_pawn.wf(),
            w_pawn.spec_file() < 4,
            wp == w_pawn.idx,
            k <= 64,
            white@.len() == NUM_COMPLETE_BITBOARDS,
            black@.len() == NUM_COMPLETE_BITBOARDS,
            invalid@.len() == NUM_COMPLETE_BITBOARDS,
            forall|k2: int| 0 <= k2 < k ==> #[trigger] black@[spec_idx_full(wp, k2)] == spec_black_loses(
                wp,
                white@[spec_idx_full(wp, k2)],
                invalid@[spec_idx_full(wp, k2)],
            ),
            forall|j: int| 0 <= j < NUM_COMPLETE_BITBOARDS && !(spec_idx_full(wp, 0) <= j
                < spec_idx_full(wp, 0) + k) ==> #[trigger] black@[j] == start[j],
            !changed ==> black@ == start,
            changed ==> exists|k2: int| 0 <= k2 < k && #[trigger] black@[spec_idx_full(wp, k2)]
                != start[spec_idx_full(wp, k2)],
        decreases 64 - k,
    {
        let w_king = ChessSquare::from_bb_idx(k as usize);
        let i = idx_full(w_pawn, w_king);
        let no_draw_wtm = white[i] | invalid[i];
        let draw_btm = moore_exclusive(!no_draw_wtm);
        let has_moves_btm = moore_exclusive(!invalid[i]);
        let white_win_btm = has_moves_btm & !draw_btm & !w_pawn.bb();
        let ghost was_changed = changed;
        let ghost before = black@;
        if black[i] != white_win_btm {
            changed = true;
        }
        black.set(i, white_win_btm);
        proof {
            assert(before[spec_idx_full(wp, k as int)] == start[spec_idx_full(wp, k as int)]);
            if was_changed {
                let k2 = choose|k2: int| 0 <= k2 < k && #[trigger] before[spec_idx_full(wp, k2)]
                    != start[spec_idx_full(wp, k2)];
                assert(black@[spec_idx_full(wp, k2)] == before[spec_idx_full(wp, k2)]);
            } else if changed {
                assert(black@[spec_idx_full(wp, k as int)] != start[spec_idx_full(wp, k as int)]);
            }
            assert(black@[spec_idx_full(wp, k as int)] == spec_black_loses(
                wp,
                white@[spec_idx_full(wp, k as int)],
                invalid@[spec_idx_full(wp, k as int)],
            ));
        }
        k = k + 1;
    }
    changed
}

/// The black king squares that are impossible with the white pawn on `wp` and the white king on
/// `wk` and Black to move: attacked by the pawn, next to the white king, or the king's own square.
pub open spec fn spec_invalid(wp: int, wk: int) -> u64 {
    crate::attacks::spec_pawn_captures(true, wp) | crate::attacks::spec_king_attacks(wk) | (1u64
        << wk as u64)
}

/// The invalid black king squares for every placement, indexed like the full tables.
pub open spec fn spec_invalid_table() -> Seq<u64> {
    Seq::new(
        NUM_COMPLETE_BITBOARDS as nat,
        |i: int| spec_invalid(crate::squares::sq_at((i / 64) % 4, (i / 64) / 4), i % 64),
    )
}

/// With the pawn on the last rank (just promoted) and Black to move, the black king squares where
/// White wins: not next to or on the white king, not the pawn's square, and unable to take the
/// new queen unless the white king defends it.
pub open spec fn spec_promoted_black_loses(wp: int, wk: int) -> u64 {
    let promo_safe = if crate::squares::spec_sup_distance(wp, wk) == 1 {
        !0u64
    } else {
        !crate::attacks::spec_king_attacks(wp)
    };
    promo_safe & !crate::attacks::spec_king_attacks(wk) & !(1u64 << wk as u64) & !(1u64 << wp as u64)
}

/// A pawn square that the analysis covers: files a to d, ranks 2 to 7.
pub open spec fn spec_kpk_pawn(wp: int) -> bool {
    0 <= wp < 64 && file_of(wp) < 4 && 1 <= rank_of(wp) <= 6
}

/// The tables are consistent for the pawn on `wp`: White to move wins exactly where some king
/// move or pawn push reaches a square that Black loses, and Black to move loses exactly where it
/// has a move and every move reaches a square that White wins.
pub open spec fn spec_kpk_settled(white: Seq<u64>, black: Seq<u64>, invalid: Seq<u64>, wp: int) -> bool {
    forall|k: int|
        0 <= k < 64 ==> #[trigger] white[spec_idx_full(wp, k)] == spec_white_wins(wp, k, black, invalid)
            && black[spec_idx_full(wp, k)] == spec_black_loses(
            wp,
            white[spec_idx_full(wp, k)],
            invalid[spec_idx_full(wp, k)],
        )
}

/// The entries of different pawn squares (on the files a to d) lie in different blocks.
proof fn lemma_blocks_apart(q: int, wp: int, t: int)
    requires
        0 <= q < 64,
        0 <= wp < 64,
        file_of(q) < 4,
        file_of(wp) < 4,
        0 <= t < 64,
    ensures
        0 <= spec_idx_full(q, t) < NUM_COMPLETE_BITBOARDS,
        q != wp ==> !(spec_idx_full(wp, 0) <= spec_idx_full(q, t) < spec_idx_full(wp, 0) + 64),
        (spec_idx_full(q, t) / 64) % 4 == file_of(q),
        (spec_idx_full(q, t) / 64) / 4 == rank_of(q),
        spec_idx_full(q, t) % 64 == t,
{
}

/// One more round of the analysis loses Black no square: if the previous round's black table
/// `bp` was contained in `b_old`, then White wins at least as much from `b_old` as from `bp`, and
/// so Black loses at least as much again.
proof fn lemma_round_grows(
    wp: int,
    bp: Seq<u64>,
    b_old: Seq<u64>,
    w_old: Seq<u64>,
    w_new: Seq<u64>,
    b_new: Seq<u64>,
    invalid: Seq<u64>,
    black0: Seq<u64>,
)
    requires
        spec_kpk_pawn(wp),
        forall|j: int|
            0 <= j < NUM_COMPLETE_BITBOARDS && !(spec_idx_full(wp, 0) <= j < spec_idx_full(wp, 0) + 64)
                ==> #[trigger] bp[j] == black0[j],
        forall|j: int|
            0 <= j < NUM_COMPLETE_BITBOARDS && !(spec_idx_full(wp, 0) <= j < spec_idx_full(wp, 0) + 64)
                ==> #[trigger] b_old[j] == black0[j],
        forall|k: int| 0 <= k < 64 ==> #[trigger] w_old[spec_idx_full(wp, k)] == spec_white_wins(wp, k, bp, invalid),
        forall|k: int| 0 <= k < 64 ==> #[trigger] b_old[spec_idx_full(wp, k)] == spec_black_loses(
            wp,
            w_old[spec_idx_full(wp, k)],
            invalid[spec_idx_full(wp, k)],
        ),
        forall|k: int| 0 <= k < 64 ==> subset(#[trigger] bp[spec_idx_full(wp, k)], b_old[spec_idx_full(wp, k)]),
        forall|k: int| 0 <= k < 64 ==> #[trigger] w_new[spec_idx_full(wp, k)] == spec_white_wins(wp, k, b_old, invalid),
        forall|k: int| 0 <= k < 64 ==> #[trigger] b_new[spec_idx_full(wp, k)] == spec_black_loses(
            wp,
            w_new[spec_idx_full(wp, k)],
            invalid[spec_idx_full(wp, k)],
        ),
    ensures
        forall|k: int| 0 <= k < 64 ==> subset(#[trigger] b_old[spec_idx_full(wp, k)], b_new[spec_idx_full(wp, k)]),
{
    assert forall|k: int| 0 <= k < 64 implies subset(#[trigger] b_old[spec_idx_full(wp, k)], b_new[spec_idx_full(wp, k)]) by {
        lemma_blocks_apart(wp + 8, wp, k);
        assert(bp[spec_idx_full(wp + 8, k)] == black0[spec_idx_full(wp + 8, k)]);
        assert(b_old[spec_idx_full(wp + 8, k)] == black0[spec_idx_full(wp + 8, k)]);
        lemma_subset_steps(black0[spec_idx_full(wp + 8, k)], 0, 0, 0, 0, 0, 0);
        if rank_of(wp) == 1 {
            lemma_blocks_apart(wp + 16, wp, k);
            assert(bp[spec_idx_full(wp + 16, k)] == black0[spec_idx_full(wp + 16, k)]);
            assert(b_old[spec_idx_full(wp + 16, k)] == black0[spec_idx_full(wp + 16, k)]);
            lemma_subset_steps(black0[spec_idx_full(wp + 16, k)], 0, 0, 0, 0, 0, 0);
        }
        lemma_white_wins_grows(wp, k, bp, b_old, invalid);
        lemma_subset_steps(
            w_old[spec_idx_full(wp, k)],
            w_new[spec_idx_full(wp, k)],
            0,
            0,
            0,
            invalid[spec_idx_full(wp, k)],
            1u64 << wp as u64,
        );
    }
}

/// Changing only the block of the pawn square `wp` keeps the tables consistent for a higher pawn
/// square `q`, whose equations read only the blocks of `q` and of the squares above it.
proof fn lemma_settled_frame(
    white0: Seq<u64>,
    black0: Seq<u64>,
    white1: Seq<u64>,
    black1: Seq<u64>,
    invalid: Seq<u64>,
    wp: int,
    q: int,
)
    requires
        spec_kpk_pawn(wp),
        spec_kpk_pawn(q),
        q > wp,
        spec_kpk_settled(white0, black0, invalid, q),
        forall|j: int|
            0 <= j < NUM_COMPLETE_BITBOARDS && !(spec_idx_full(wp, 0) <= j < spec_idx_full(wp, 0) + 64)
                ==> #[trigger] white1[j] == white0[j],
        forall|j: int|
            0 <= j < NUM_COMPLETE_BITBOARDS && !(spec_idx_full(wp, 0) <= j < spec_idx_full(wp, 0) + 64)
                ==> #[trigger] black1[j] == black0[j],
    ensures
        spec_kpk_settled(white1, black1, invalid, q),
{
    assert forall|k: int| 0 <= k < 64 implies #[trigger] white1[spec_idx_full(q, k)] == spec_white_wins(q, k, black1, invalid)
        && black1[spec_idx_full(q, k)] == spec_black_loses(q, white1[spec_idx_full(q, k)], invalid[spec_idx_full(q, k)]) by {
        lemma_blocks_apart(q, wp, k);
        lemma_blocks_apart(q + 8, wp, k);
        if rank_of(q) == 1 {
            lemma_blocks_apart(q + 16, wp, k);
        }
        assert(white1[spec_idx_full(q, k)] == white0[spec_idx_full(q, k)]);
        assert(black1[spec_idx_full(q + 8, k)] == black0[spec_idx_full(q + 8, k)]);
        if rank_of(q) == 1 {
            assert(black1[spec_idx_full(q + 16, k)] == black0[spec_idx_full(q + 16, k)]);
        }
        assert forall|t: int| 0 <= t < 64 implies #[trigger] black1[spec_idx_full(q, t)] == black0[spec_idx_full(q, t)] by {
            lemma_blocks_apart(q, wp, t);
        }
        lemma_white_wins_frame(q, k, black1, black0, invalid);
    }
}

/// Full tables that solve the analysis: consistent for every pawn square of the ranks 2 to 7 (see
/// [`spec_kpk_settled`]), with the promoted pawn's results on the last rank.
pub open spec fn spec_kpk_solution(white: Seq<u64>, black: Seq<u64>) -> bool {
    &&& white.len() == NUM_COMPLETE_BITBOARDS
    &&& black.len() == NUM_COMPLETE_BITBOARDS
    &&& forall|wp: int| spec_kpk_pawn(wp) ==> #[trigger] spec_kpk_settled(white, black, spec_invalid_table(), wp)
    &&& forall|wp: int, wk: int|
        0 <= wp < 64 && file_of(wp) < 4 && rank_of(wp) == 7 && 0 <= wk < 64 ==> #[trigger] black[spec_idx_full(
            wp,
            wk,
        )] == spec_promoted_black_loses(wp, wk)
}

/// Every entry of the block of pawn square `wp` in `t1` is contained in the one in `t2`.
pub open spec fn spec_block_within(t1: Seq<u64>, t2: Seq<u64>, wp: int) -> bool {
    forall|k: int| 0 <= k < 64 ==> subset(#[trigger] t1[spec_idx_full(wp, k)], t2[spec_idx_full(wp, k)])
}

/// The entries that the equations of `wp` read above it (the squares the pawn can push to) are
/// contained in those of `big`.
pub open spec fn spec_push_within(small: Seq<u64>, big: Seq<u64>, wp: int) -> bool {
    forall|k: int|
        0 <= k < 64 ==> subset(#[trigger] small[spec_idx_full(wp + 8, k)], big[spec_idx_full(wp + 8, k)])
            && (rank_of(wp) == 1 ==> subset(small[spec_idx_full(wp + 16, k)], big[spec_idx_full(wp + 16, k)]))
}

/// A round of the analysis stays within every solution: when the current black table is
/// contained in a solution on the block of `wp` and above it, so are the White and Black tables
/// the round computes.
proof fn lemma_round_below_solution(
    wp: int,
    b_cur: Seq<u64>,
    w_new: Seq<u64>,
    b_new: Seq<u64>,
    big_white: Seq<u64>,
    big_black: Seq<u64>,
    black0: Seq<u64>,
)
    requires
        spec_kpk_solution(big_white, big_black),
        spec_kpk_pawn(wp),
        spec_block_within(b_cur, big_black, wp),
        forall|j: int|
            0 <= j < NUM_COMPLETE_BITBOARDS && !(spec_idx_full(wp, 0) <= j < spec_idx_full(wp, 0) + 64)
                ==> #[trigger] b_cur[j] == black0[j],
        spec_push_within(black0, big_black, wp),
        forall|k: int| 0 <= k < 64 ==> #[trigger] w_new[spec_idx_full(wp, k)] == spec_white_wins(
            wp,
            k,
            b_cur,
            spec_invalid_table(),
        ),
        forall|k: int| 0 <= k < 64 ==> #[trigger] b_new[spec_idx_full(wp, k)] == spec_black_loses(
            wp,
            w_new[spec_idx_full(wp, k)],
            spec_invalid_table()[spec_idx_full(wp, k)],
        ),
    ensures
        spec_block_within(w_new, big_white, wp),
        spec_block_within(b_new, big_black, wp),
{
    let table = spec_invalid_table();
    assert(spec_kpk_settled(big_white, big_black, table, wp));
    assert forall|k: int| 0 <= k < 64 implies subset(#[trigger] w_new[spec_idx_full(wp, k)], big_white[spec_idx_full(wp, k)])
        && subset(b_new[spec_idx_full(wp, k)], big_black[spec_idx_full(wp, k)]) by {
        lemma_blocks_apart(wp + 8, wp, k);
        assert(b_cur[spec_idx_full(wp + 8, k)] == black0[spec_idx_full(wp + 8, k)]);
        assert(subset(black0[spec_idx_full(wp + 8, k)], big_black[spec_idx_full(wp + 8, k)]));
        if rank_of(wp) == 1 {
            lemma_blocks_apart(wp + 16, wp, k);
            assert(b_cur[spec_idx_full(wp + 16, k)] == black0[spec_idx_full(wp + 16, k)]);
        }
        lemma_white_wins_grows(wp, k, b_cur, big_black, table);
        assert(big_white[spec_idx_full(wp, k)] == spec_white_wins(wp, k, big_black, table));
        lemma_subset_steps(
            w_new[spec_idx_full(wp, k)],
            big_white[spec_idx_full(wp, k)],
            0,
            0,
            0,
            table[spec_idx_full(wp, k)],
            1u64 << wp as u64,
        );
    }
}

/// Changing only the block of `wp` keeps the entries of another pawn square within a table.
proof fn lemma_within_frame(t0: Seq<u64>, t1: Seq<u64>, big: Seq<u64>, wp: int, q: int)
    requires
        spec_block_within(t0, big, q),
        spec_kpk_pawn(wp),
        spec_kpk_pawn(q),
        q != wp,
        forall|j: int|
            0 <= j < NUM_COMPLETE_BITBOARDS && !(spec_idx_full(wp, 0) <= j < spec_idx_full(wp, 0) + 64)
                ==> #[trigger] t1[j] == t0[j],
    ensures
        spec_block_within(t1, big, q),
{
    assert forall|k: int| 0 <= k < 64 implies subset(#[trigger] t1[spec_idx_full(q, k)], big[spec_idx_full(q, k)]) by {
        lemma_blocks_apart(q, wp, k);
        assert(t1[spec_idx_full(q, k)] == t0[spec_idx_full(q, k)]);
    }
}

/// The won placements for both sides to move, indexed by [`idx_full`]: starting from the pawn on
/// the last rank (won unless Black captures it at once), the pawn squares are handled from the
/// seventh rank down, each until nothing changes. The result is consistent for every pawn square
/// of the ranks 2 to 7 (see [`spec_kpk_settled`]).
#[verifier::rlimit(60)]
pub fn calc_pawn_vs_king_impl() -> (r: (Vec<u64>, Vec<u64>))
    ensures
        r.0@.len() == NUM_COMPLETE_BITBOARDS,
        r.1@.len() == NUM_COMPLETE_BITBOARDS,
        forall|wp: int| spec_kpk_pawn(wp) ==> #[trigger] spec_kpk_settled(r.0@, r.1@, spec_invalid_table(), wp),
        forall|wp: int, wk: int|
            0 <= wp < 64 && file_of(wp) < 4 && rank_of(wp) == 7 && 0 <= wk < 64 ==> #[trigger] r.1@[spec_idx_full(
                wp,
                wk,
            )] == spec_promoted_black_loses(wp, wk),
        spec_kpk_solution(r.0@, r.1@),
        forall|big_white: Seq<u64>, big_black: Seq<u64>, wp: int|
            #![trigger spec_kpk_solution(big_white, big_black), spec_block_within(r.0@, big_white, wp)]
            spec_kpk_solution(big_white, big_black) && spec_kpk_pawn(wp) ==> spec_block_within(r.0@, big_white, wp),
        forall|big_white: Seq<u64>, big_black: Seq<u64>, wp: int|
            #![trigger spec_kpk_solution(big_white, big_black), spec_block_within(r.1@, big_black, wp)]
            spec_kpk_solution(big_white, big_black) && spec_kpk_pawn(wp) ==> spec_block_within(r.1@, big_black, wp),
{
    let mut invalid = zeros(NUM_COMPLETE_BITBOARDS);
    let mut p: u8 = 0;
    while p < 64
        invariant
            p <= 64,
            invalid@.len() == NUM_COMPLETE_BITBOARDS,
            forall|i: int|
                0 <= i < NUM_COMPLETE_BITBOARDS && crate::squares::sq_at((i / 64) % 4, (i / 64) / 4) < p
                    ==> #[trigger] invalid@[i] == spec_invalid_table()[i],
        decreases 64 - p,
    {
        let w_pawn = ChessSquare::from_bb_idx(p as usize);
        if w_pawn.file() < 4 {
            let mut k: u8 = 0;
            while k < 64
                invariant
                    w_pawn.wf(),
                    w_pawn.idx == p,
                    p < 64,
                    w_pawn.spec_file() < 4,
                    k <= 64,
                    invalid@.len() == NUM_COMPLETE_BITBOARDS,
                    forall|i: int|
                        0 <= i < NUM_COMPLETE_BITBOARDS && crate::squares::sq_at((i / 64) % 4, (i / 64) / 4) < p
                            ==> #[trigger] invalid@[i] == spec_invalid_table()[i],
                    forall|k2: int| 0 <= k2 < k ==> #[trigger] invalid@[spec_idx_full(p as int, k2)] == spec_invalid_table()[spec_idx_full(p as int, k2)],
                decreases 64 - k,
            {
                let w_king = ChessSquare::from_bb_idx(k as usize);
                proof {
                    lemma_blocks_apart(p as int, p as int, k as int);
                }
                invalid.set(
                    idx_full(w_pawn, w_king),
                    Board::single_pawn_captures(ChessColor::White, w_pawn)
                        | Board::normal_king_attacks_from(w_king) | w_king.bb(),
                );
                proof {
                    assert forall|i: int|
                        0 <= i < NUM_COMPLETE_BITBOARDS && crate::squares::sq_at((i / 64) % 4, (i / 64) / 4) < p
                            implies #[trigger] invalid@[i] == spec_invalid_table()[i] by {
                        if i == spec_idx_full(p as int, k as int) {
                        }
                    }
                }
                k = k + 1;
            }
            proof {
                assert forall|i: int|
                    0 <= i < NUM_COMPLETE_BITBOARDS && crate::squares::sq_at((i / 64) % 4, (i / 64) / 4) < p + 1
                        implies #[trigger] invalid@[i] == spec_invalid_table()[i] by {
                    if crate::squares::sq_at((i / 64) % 4, (i / 64) / 4) == p {
                        assert(i == spec_idx_full(p as int, i % 64));
                    }
                }
            }
        } else {
            proof {
                assert forall|i: int|
                    0 <= i < NUM_COMPLETE_BITBOARDS && crate::squares::sq_at((i / 64) % 4, (i / 64) / 4) < p + 1
                        implies #[trigger] invalid@[i] == spec_invalid_table()[i] by {
                }
            }
        }
        p = p + 1;
    }
    proof {
        assert(invalid@ =~= spec_invalid_table());
    }
    let mut white = zeros(NUM_COMPLETE_BITBOARDS);
    let mut black = zeros(NUM_COMPLETE_BITBOARDS);
    let mut p: u8 = 56;
    while p < 60
        invariant
            56 <= p <= 60,
            black@.len() == NUM_COMPLETE_BITBOARDS,
            forall|i: int| 0 <= i < spec_idx_full(56, 0) ==> #[trigger] black@[i] == 0,
            forall|q: int, wk: int|
                56 <= q < p && 0 <= wk < 64 ==> #[trigger] black@[spec_idx_full(q, wk)]
                    == spec_promoted_black_loses(q, wk),
        decreases 60 - p,
    {
        let w_pawn = ChessSquare::from_bb_idx(p as usize);
        let mut k: u8 = 0;
        while k < 64
            invariant
                w_pawn.wf(),
                w_pawn.idx == p,
                56 <= p < 60,
                k <= 64,
                black@.len() == NUM_COMPLETE_BITBOARDS,
                forall|i: int| 0 <= i < spec_idx_full(56, 0) ==> #[trigger] black@[i] == 0,
                forall|q: int, wk: int|
                    56 <= q < p && 0 <= wk < 64 ==> #[trigger] black@[spec_idx_full(q, wk)]
                        == spec_promoted_black_loses(q, wk),
                forall|wk: int| 0 <= wk < k ==> #[trigger] black@[spec_idx_full(p as int, wk)]
                    == spec_promoted_black_loses(p as int, wk),
            decreases 64 - k,
        {
            let w_king = ChessSquare::from_bb_idx(k as usize);
            let promo_safe = if sup_distance(w_pawn, w_king) == 1 {
                !0u64
            } else {
                !Board::normal_king_attacks_from(w_pawn)
            };
            black.set(
                idx_full(w_pawn, w_king),
                promo_safe & !Board::normal_king_attacks_from(w_king) & !w_king.bb() & !w_pawn.bb(),
            );
            proof {
                assert forall|q: int, wk: int|
                    56 <= q < p && 0 <= wk < 64 implies #[trigger] black@[spec_idx_full(q, wk)]
                        == spec_promoted_black_loses(q, wk) by {
                    lemma_blocks_apart(q, p as int, wk);
                }
            }
            k = k + 1;
        }
        p = p + 1;
    }
    let mut p: u8 = 64;
    while p > 0
        invariant
            p <= 64,
            white@.len() == NUM_COMPLETE_BITBOARDS,
            black@.len() == NUM_COMPLETE_BITBOARDS,
            invalid@ == spec_invalid_table(),
            forall|q: int| spec_kpk_pawn(q) && q >= p ==> #[trigger] spec_kpk_settled(white@, black@, invalid@, q),
            forall|q: int, t: int|
                spec_kpk_pawn(q) && q < p && 0 <= t < 64 ==> #[trigger] black@[spec_idx_full(q, t)] == 0,
            forall|q: int, wk: int|
                56 <= q < 60 && 0 <= wk < 64 ==> #[trigger] black@[spec_idx_full(q, wk)]
                    == spec_promoted_black_loses(q, wk),
            forall|big_white: Seq<u64>, big_black: Seq<u64>, q: int|
                #![trigger spec_kpk_solution(big_white, big_black), spec_block_within(white@, big_white, q)]
                spec_kpk_solution(big_white, big_black) && spec_kpk_pawn(q) && q >= p ==> spec_block_within(white@, big_white, q),
            forall|big_white: Seq<u64>, big_black: Seq<u64>, q: int|
                #![trigger spec_kpk_solution(big_white, big_black), spec_block_within(black@, big_black, q)]
                spec_kpk_solution(big_white, big_black) && spec_kpk_pawn(q) && q >= p ==> spec_block_within(black@, big_black, q),
        decreases p,
    {
        p = p - 1;
        let w_pawn = ChessSquare::from_bb_idx(p as usize);
        if !w_pawn.is_backrank() && w_pawn.file() < 4 {
            let ghost wp = p as int;
            let ghost white0 = white@;
            let ghost black0 = black@;
            proof {
                assert forall|big_white: Seq<u64>, big_black: Seq<u64>| spec_kpk_solution(big_white, big_black) implies spec_push_within(
                    black0,
                    big_black,
                    wp,
                ) && spec_block_within(black0, big_black, wp) by {
                    assert forall|k: int| 0 <= k < 64 implies subset(#[trigger] black0[spec_idx_full(wp + 8, k)], big_black[spec_idx_full(wp + 8, k)])
                        && (rank_of(wp) == 1 ==> subset(black0[spec_idx_full(wp + 16, k)], big_black[spec_idx_full(wp + 16, k)])) by {
                        if rank_of(wp) == 6 {
                            lemma_subset_steps(black0[spec_idx_full(wp + 8, k)], 0, 0, 0, 0, 0, 0);
                        } else {
                            assert(spec_block_within(black0, big_black, wp + 8));
                        }
                        if rank_of(wp) == 1 {
                            assert(spec_block_within(black0, big_black, wp + 16));
                        }
                    }
                    assert forall|k: int| 0 <= k < 64 implies subset(#[trigger] black0[spec_idx_full(wp, k)], big_black[spec_idx_full(wp, k)]) by {
                        lemma_subset_steps(big_black[spec_idx_full(wp, k)], 0, 0, 0, 0, 0, 0);
                    }
                }
            }
            update_white(w_pawn, &mut white, &black, &invalid);
            let ghost mut bp = black@;
            let mut changed = update_black(w_pawn, &white, &mut black, &invalid);
            proof {
                assert forall|k: int| 0 <= k < 64 implies subset(#[trigger] bp[spec_idx_full(wp, k)], black@[spec_idx_full(wp, k)]) by {
                    lemma_subset_steps(black@[spec_idx_full(wp, k)], 0, 0, 0, 0, 0, 0);
                }
                assert forall|big_white: Seq<u64>, big_black: Seq<u64>| spec_kpk_solution(big_white, big_black) implies spec_block_within(
                    white@,
                    big_white,
                    wp,
                ) && spec_block_within(black@, big_black, wp) && spec_block_within(bp, big_black, wp) by {
                    lemma_round_below_solution(wp, bp, white@, black@, big_white, big_black, black0);
                }
            }
            while changed
                invariant
                    w_pawn.wf(),
                    w_pawn.idx == wp,
                    spec_kpk_pawn(wp),
                    w_pawn.spec_file() < 4,
                    w_pawn.spec_rank() < 7,
                    white@.len() == NUM_COMPLETE_BITBOARDS,
                    black@.len() == NUM_COMPLETE_BITBOARDS,
                    bp.len() == NUM_COMPLETE_BITBOARDS,
                    invalid@ == spec_invalid_table(),
                    forall|j: int|
                        0 <= j < NUM_COMPLETE_BITBOARDS && !(spec_idx_full(wp, 0) <= j < spec_idx_full(wp, 0) + 64)
                            ==> #[trigger] white@[j] == white0[j],
                    forall|j: int|
                        0 <= j < NUM_COMPLETE_BITBOARDS && !(spec_idx_full(wp, 0) <= j < spec_idx_full(wp, 0) + 64)
                            ==> #[trigger] black@[j] == black0[j],
                    forall|j: int|
                        0 <= j < NUM_COMPLETE_BITBOARDS && !(spec_idx_full(wp, 0) <= j < spec_idx_full(wp, 0) + 64)
                            ==> #[trigger] bp[j] == black0[j],
                    forall|k: int| 0 <= k < 64 ==> #[trigger] white@[spec_idx_full(wp, k)] == spec_white_wins(wp, k, bp, invalid@),
                    forall|k: int| 0 <= k < 64 ==> #[trigger] black@[spec_idx_full(wp, k)] == spec_black_loses(
                        wp,
                        white@[spec_idx_full(wp, k)],
                        invalid@[spec_idx_full(wp, k)],
                    ),
                    forall|k: int| 0 <= k < 64 ==> subset(#[trigger] bp[spec_idx_full(wp, k)], black@[spec_idx_full(wp, k)]),
                    !changed ==> bp == black@,
                    forall|big_white: Seq<u64>, big_black: Seq<u64>|
                        #[trigger] spec_kpk_solution(big_white, big_black) ==> spec_push_within(black0, big_black, wp)
                            && spec_block_within(white@, big_white, wp) && spec_block_within(black@, big_black, wp)
                            && spec_block_within(bp, big_black, wp),
                decreases (if changed { 4097int } else { 4096int }) - spec_block_count(black@, wp, 64),
            {
                let ghost old_black = black@;
                let ghost old_white = white@;
                proof {
                    lemma_block_count_bound(black@, wp, 64);
                }
                update_white(w_pawn, &mut white, &black, &invalid);
                changed = update_black(w_pawn, &white, &mut black, &invalid);
                proof {
                    lemma_round_grows(wp, bp, old_black, old_white, white@, black@, invalid@, black0);
                    assert forall|big_white: Seq<u64>, big_black: Seq<u64>| #[trigger] spec_kpk_solution(big_white, big_black) implies spec_push_within(
                        black0,
                        big_black,
                        wp,
                    ) && spec_block_within(white@, big_white, wp) && spec_block_within(black@, big_black, wp)
                        && spec_block_within(old_black, big_black, wp) by {
                        lemma_round_below_solution(wp, old_black, white@, black@, big_white, big_black, black0);
                    }
                    lemma_block_count_grows(old_black, black@, wp, 64);
                    lemma_block_count_bound(black@, wp, 64);
                    bp = old_black;
                }
            }
            proof {
                assert forall|q: int| spec_kpk_pawn(q) && q >= p implies #[trigger] spec_kpk_settled(white@, black@, invalid@, q) by {
                    if q != wp {
                        lemma_settled_frame(white0, black0, white@, black@, invalid@, wp, q);
                    }
                }
                assert forall|big_white: Seq<u64>, big_black: Seq<u64>, q: int|
                    #![trigger spec_kpk_solution(big_white, big_black), spec_block_within(white@, big_white, q)]
                    spec_kpk_solution(big_white, big_black) && spec_kpk_pawn(q) && q >= p implies spec_block_within(white@, big_white, q) by {
                    if q != wp {
                        assert(spec_block_within(white0, big_white, q));
                        lemma_within_frame(white0, white@, big_white, wp, q);
                    }
                }
                assert forall|big_white: Seq<u64>, big_black: Seq<u64>, q: int|
                    #![trigger spec_kpk_solution(big_white, big_black), spec_block_within(black@, big_black, q)]
                    spec_kpk_solution(big_white, big_black) && spec_kpk_pawn(q) && q >= p implies spec_block_within(black@, big_black, q) by {
                    if q != wp {
                        assert(spec_block_within(black0, big_black, q));
                        lemma_within_frame(black0, black@, big_black, wp, q);
                    }
                }
                assert forall|q: int, t: int|
                    spec_kpk_pawn(q) && q < p && 0 <= t < 64 implies #[trigger] black@[spec_idx_full(q, t)] == 0 by {
                    lemma_blocks_apart(q, wp, t);
                    assert(black@[spec_idx_full(q, t)] == black0[spec_idx_full(q, t)]);
                }
                assert forall|q: int, wk: int|
                    56 <= q < 60 && 0 <= wk < 64 implies #[trigger] black@[spec_idx_full(q, wk)]
                        == spec_promoted_black_loses(q, wk) by {
                    lemma_blocks_apart(q, wp, wk);
                    assert(black@[spec_idx_full(q, wk)] == black0[spec_idx_full(q, wk)]);
                }
            }
        }
    }
    (white, black)
}

/// The won placements of the king and pawn endgame for the pawn on the ranks 2 to 7 (see
/// [`CompactBitbase`]): the entries of [`calc_pawn_vs_king_impl`] from [`OFFSET`] on. They satisfy
/// the retrograde equations against the full table they stand for, and are contained in every
/// solution of those equations: only positions that are really won are marked.
pub fn calc_pawn_vs_king() -> (r: CompactBitbase)
    ensures
        r.wf(),
        forall|wp: int, wk: int|
            spec_kpk_pawn(wp) && 0 <= wk < 64 ==> #[trigger] r.white@[spec_idx_full(wp, wk) - OFFSET]
                == spec_white_wins(wp, wk, spec_kpk_full_black(r.black@), spec_invalid_table()),
        forall|wp: int, wk: int|
            spec_kpk_pawn(wp) && 0 <= wk < 64 ==> #[trigger] r.black@[spec_idx_full(wp, wk) - OFFSET]
                == spec_black_loses(wp, r.white@[spec_idx_full(wp, wk) - OFFSET], spec_invalid(wp, wk)),
        forall|big_white: Seq<u64>, big_black: Seq<u64>, wp: int, wk: int|
            #![trigger spec_kpk_solution(big_white, big_black), r.white@[spec_idx_full(wp, wk) - OFFSET]]
            spec_kpk_solution(big_white, big_black) && spec_kpk_pawn(wp) && 0 <= wk < 64 ==> subset(
                r.white@[spec_idx_full(wp, wk) - OFFSET],
                big_white[spec_idx_full(wp, wk)],
            ),
        forall|big_white: Seq<u64>, big_black: Seq<u64>, wp: int, wk: int|
            #![trigger spec_kpk_solution(big_white, big_black), r.black@[spec_idx_full(wp, wk) - OFFSET]]
            spec_kpk_solution(big_white, big_black) && spec_kpk_pawn(wp) && 0 <= wk < 64 ==> subset(
                r.black@[spec_idx_full(wp, wk) - OFFSET],
                big_black[spec_idx_full(wp, wk)],
            ),
{
    let (white, black) = calc_pawn_vs_king_impl();
    let mut w: Vec<u64> = Vec::new();
    let mut b: Vec<u64> = Vec::new();
    let mut i: usize = OFFSET;
    while i < OFFSET + NUM_RELEVANT_BITBOARDS
        invariant
            OFFSET <= i <= OFFSET + NUM_RELEVANT_BITBOARDS,
            w@.len() == i - OFFSET,
            b@.len() == i - OFFSET,
            white@.len() == NUM_COMPLETE_BITBOARDS,
            black@.len() == NUM_COMPLETE_BITBOARDS,
            forall|j: int| 0 <= j < i - OFFSET ==> #[trigger] w@[j] == white@[j + OFFSET],
            forall|j: int| 0 <= j < i - OFFSET ==> #[trigger] b@[j] == black@[j + OFFSET],
        decreases OFFSET + NUM_RELEVANT_BITBOARDS - i,
    {
        w.push(white[i]);
        b.push(black[i]);
        i = i + 1;
    }
    let r = CompactBitbase { white: w, black: b };
    proof {
        let fb = spec_kpk_full_black(r.black@);
        assert forall|wp: int, wk: int| spec_kpk_pawn(wp) && 0 <= wk < 64 implies #[trigger] r.white@[spec_idx_full(wp, wk) - OFFSET]
            == spec_white_wins(wp, wk, fb, spec_invalid_table()) && r.black@[spec_idx_full(wp, wk) - OFFSET]
            == spec_black_loses(wp, r.white@[spec_idx_full(wp, wk) - OFFSET], spec_invalid(wp, wk)) by {
            assert(spec_kpk_settled(white@, black@, spec_invalid_table(), wp));
            lemma_blocks_apart(wp, wp, wk);
            assert(white@[spec_idx_full(wp, wk)] == spec_white_wins(wp, wk, black@, spec_invalid_table()));
            assert forall|t: int| 0 <= t < 64 implies #[trigger] black@[spec_idx_full(wp, t)] == fb[spec_idx_full(wp, t)] by {
                lemma_blocks_apart(wp, wp, t);
            }
            lemma_blocks_apart(wp + 8, wp, wk);
            if rank_of(wp) == 6 {
                assert(black@[spec_idx_full(wp + 8, wk)] == spec_promoted_black_loses(wp + 8, wk));
            }
            assert(black@[spec_idx_full(wp + 8, wk)] == fb[spec_idx_full(wp + 8, wk)]);
            if rank_of(wp) == 1 {
                lemma_blocks_apart(wp + 16, wp, wk);
                assert(black@[spec_idx_full(wp + 16, wk)] == fb[spec_idx_full(wp + 16, wk)]);
            }
            lemma_white_wins_frame(wp, wk, black@, fb, spec_invalid_table());
            assert(spec_invalid_table()[spec_idx_full(wp, wk)] == spec_invalid(wp, wk));
        }
        assert forall|big_white: Seq<u64>, big_black: Seq<u64>, wp: int, wk: int|
            #![trigger spec_kpk_solution(big_white, big_black), r.white@[spec_idx_full(wp, wk) - OFFSET]]
            spec_kpk_solution(big_white, big_black) && spec_kpk_pawn(wp) && 0 <= wk < 64 implies subset(
                r.white@[spec_idx_full(wp, wk) - OFFSET],
                big_white[spec_idx_full(wp, wk)],
            ) && subset(r.black@[spec_idx_full(wp, wk) - OFFSET], big_black[spec_idx_full(wp, wk)]) by {
            lemma_blocks_apart(wp, wp, wk);
            assert(spec_block_within(white@, big_white, wp));
            assert(spec_block_within(black@, big_black, wp));
        }
        assert forall|big_white: Seq<u64>, big_black: Seq<u64>, wp: int, wk: int|
            #![trigger spec_kpk_solution(big_white, big_black), r.black@[spec_idx_full(wp, wk) - OFFSET]]
            spec_kpk_solution(big_white, big_black) && spec_kpk_pawn(wp) && 0 <= wk < 64 implies subset(
                r.black@[spec_idx_full(wp, wk) - OFFSET],
                big_black[spec_idx_full(wp, wk)],
            ) by {
            lemma_blocks_apart(wp, wp, wk);
            assert(spec_block_within(black@, big_black, wp));
        }
    }
    r
}

/// The full table of Black-to-move results that the compact table `black` stands for: its entries
/// for the pawn on the ranks 2 to 7, the promoted pawn's results on the last rank, and nothing
/// with the pawn on the first rank.
pub open spec fn spec_kpk_full_black(black: Seq<u64>) -> Seq<u64> {
    Seq::new(
        NUM_COMPLETE_BITBOARDS as nat,
        |i: int|
            if OFFSET <= i < OFFSET + NUM_RELEVANT_BITBOARDS {
                black[i - OFFSET]
            } else if i >= OFFSET + NUM_RELEVANT_BITBOARDS {
                spec_promoted_black_loses(crate::squares::sq_at((i / 64) % 4, (i / 64) / 4), i % 64)
            } else {
                0
            },
    )
}

/// Square `s` mirrored left to right.
pub open spec fn spec_flip_lr(s: int) -> int {
    crate::squares::sq_at(7 - crate::squares::file_of(s), crate::squares::rank_of(s))
}

/// Square `s` mirrored top to bottom.
pub open spec fn spec_flip_ud(s: int) -> int {
    crate::squares::sq_at(crate::squares::file_of(s), 7 - crate::squares::rank_of(s))
}

/// The entry of the table for a white pawn on `p`, the white king on `wk` and the black king on
/// `bk`, with Black to move if `is_black`: with the pawn mirrored onto the files a to d, a set bit
/// for the black king's square is a win for White, otherwise a draw.
pub open spec fn spec_kpk_lookup(table: CompactBitbase, p: int, wk: int, bk: int, is_black: bool) -> PlayerResult {
    let mirror = crate::squares::file_of(p) >= 4;
    let p2 = if mirror { spec_flip_lr(p) } else { p };
    let wk2 = if mirror { spec_flip_lr(wk) } else { wk };
    let bk2 = if mirror { spec_flip_lr(bk) } else { bk };
    let i = (crate::squares::rank_of(p2) * 4 + crate::squares::file_of(p2)) * 64 + wk2 - OFFSET;
    if is_black {
        if bit(table.black@[i], bk2 as u64) {
            PlayerResult::Lose
        } else {
            PlayerResult::Draw
        }
    } else {
        if bit(table.white@[i], bk2 as u64) {
            PlayerResult::Win
        } else {
            PlayerResult::Draw
        }
    }
}

/// The bitbase answer for a position with the two kings and one pawn: the position is mirrored
/// so that the pawn is white, and positions with the pawn on the first or last rank have none.
pub open spec fn spec_query_bitbase(b: Chessboard, table: CompactBitbase) -> Option<PlayerResult> {
    let pawn = vstd::std_specs::bits::u64_trailing_zeros(b.piece_bbs[0]) as int;
    let flip = b.spec_colored_piece_bb(ChessColor::White, ChessPieceType::Pawn) == 0;
    let wp = if flip { spec_flip_ud(pawn) } else { pawn };
    let wk = if flip {
        spec_flip_ud(b.spec_king_square(ChessColor::Black))
    } else {
        b.spec_king_square(ChessColor::White)
    };
    let bk = if flip {
        spec_flip_ud(b.spec_king_square(ChessColor::White))
    } else {
        b.spec_king_square(ChessColor::Black)
    };
    if crate::bits::pop_count(b.piece_bbs[0]) != 1 || crate::bits::pop_count(b.spec_occupied()) != 3 {
        None
    } else if crate::squares::rank_of(wp) == 0 || crate::squares::rank_of(wp) == 7 {
        None
    } else {
        Some(spec_kpk_lookup(table, wp, wk, bk, flip != (b.active_player == ChessColor::Black)))
    }
}

/// The result of the king and pawn endgame with a white pawn on `w_p`, the white king on `w_k` and
/// the black king on `b_k`, for the player to move (Black if `is_black`): a win for White or a draw.
pub fn query_pawn_v_king(
    table: &CompactBitbase,
    w_p: ChessSquare,
    w_k: ChessSquare,
    b_k: ChessSquare,
    is_black: bool,
) -> (r: PlayerResult)
    requires
        table.wf(),
        w_p.wf(),
        w_k.wf(),
        b_k.wf(),
        1 <= w_p.spec_rank() <= 6,
    ensures
        is_black ==> r == PlayerResult::Lose || r == PlayerResult::Draw,
        !is_black ==> r == PlayerResult::Win || r == PlayerResult::Draw,
        r == spec_kpk_lookup(*table, w_p.idx as int, w_k.idx as int, b_k.idx as int, is_black),
{
    let (mut p, mut wk, mut bk) = (w_p, w_k, b_k);
    if p.file() >= 4 {
        p = p.flip_left_right();
        wk = wk.flip_left_right();
        bk = bk.flip_left_right();
    }
    let i = idx_compact(p, wk);
    if is_black {
        if has_bit(table.black[i], bk.idx) {
            PlayerResult::Lose
        } else {
            PlayerResult::Draw
        }
    } else {
        if has_bit(table.white[i], bk.idx) {
            PlayerResult::Win
        } else {
            PlayerResult::Draw
        }
    }
}

impl Chessboard {
    /// The result for the player to move if only the two kings and one pawn are left; `None` for
    /// other positions.
    pub fn query_bitbase(&self, table: &CompactBitbase) -> (r: Option<PlayerResult>)
        requires
            table.wf(),
        ensures
            crate::bits::pop_count(self.spec_occupied()) != 3 ==> r.is_none(),
            crate::bits::pop_count(self.piece_bbs[0]) != 1 ==> r.is_none(),
            r == spec_query_bitbase(*self, *table),
    {
        if !crate::bits::is_single_piece(self.piece_bbs[0]) || crate::bits::num_ones(
            self.occupied_bb(),
        ) != 3 {
            return None;
        }
        let (pawn_idx, _) = pop_lsb(self.piece_bbs[0]);
        let pawn = ChessSquare::from_bb_idx(pawn_idx as usize);
        let flip = self.colored_piece_bb(ChessColor::White, ChessPieceType::Pawn) == 0;
        let (w_p, w_k, b_k) = if flip {
            (
                pawn.flip_up_down(),
                self.king_square(ChessColor::Black).flip_up_down(),
                self.king_square(ChessColor::White).flip_up_down(),
            )
        } else {
            (pawn, self.king_square(ChessColor::White), self.king_square(ChessColor::Black))
        };
        if w_p.rank() == 0 || w_p.rank() == 7 {
            return None;
        }
        Some(
            query_pawn_v_king(
                table,
                w_p,
                w_k,
                b_k,
                flip != (self.active_player == ChessColor::Black),
            ),
        )
    }
}

} // verus!
