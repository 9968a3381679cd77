//! Static exchange evaluation: the material balance of the sequence of captures on one square
//! that starts with a given move, each side always recapturing with its least valuable piece.
use vstd::prelude::*;
use crate::attacks::{ray_attacks_dir, spec_ray};
use crate::bits::{bit, group_bits, has_bit, pop_count, pop_lsb};
use crate::chessboard::{Board, Chessboard};
use crate::moves::{ChessMove, ChessMoveFlags};
use crate::pieces::{ChessColor, ChessPieceType};
use crate::squares::{file_of, rank_of, ChessSquare};

verus! {

broadcast use group_bits;

/// A material balance in centipawns.
#[derive(Debug, Ord, PartialOrd, Eq, PartialEq, Structural, Copy, Clone)]
pub struct SeeScore(pub i32);

/// The value of a piece for exchanges (the king's value is larger than any exchange).
pub open spec fn spec_piece_see_value(piece: ChessPieceType) -> int {
    match piece {
        ChessPieceType::Pawn => 100,
        ChessPieceType::Knight => 300,
        ChessPieceType::Bishop => 300,
        ChessPieceType::Rook => 500,
        ChessPieceType::Queen => 900,
        ChessPieceType::King => 99999,
        ChessPieceType::Empty => 0,
    }
}

/// The material a move gains when it captures `victim`: the victim's value, plus the gain of a
/// promotion; castling gains nothing.
pub open spec fn spec_move_see_value(mov: ChessMove, victim: ChessPieceType) -> int {
    if mov.spec_flags().spec_is_promo() {
        spec_piece_see_value(victim) + spec_piece_see_value(mov.spec_flags().spec_promo_piece())
            - 100
    } else if mov.spec_is_castle() {
        0
    } else {
        spec_piece_see_value(victim)
    }
}

/// The value of a piece for exchanges.
pub fn piece_see_value(piece: ChessPieceType) -> (r: SeeScore)
    ensures
        r.0 == spec_piece_see_value(piece),
{
    match piece {
        ChessPieceType::Pawn => SeeScore(100),
        ChessPieceType::Knight => SeeScore(300),
        ChessPieceType::Bishop => SeeScore(300),
        ChessPieceType::Rook => SeeScore(500),
        ChessPieceType::Queen => SeeScore(900),
        ChessPieceType::King => SeeScore(99999),
        ChessPieceType::Empty => SeeScore(0),
    }
}

/// The material `mov` gains when it captures `victim`.
pub fn move_see_value(mov: ChessMove, victim: ChessPieceType) -> (r: SeeScore)
    ensures
        r.0 == spec_move_see_value(mov, victim),
        0 <= r.0 <= 101000,
{
    let score = piece_see_value(victim);
    if mov.is_promotion() {
        SeeScore(score.0 + piece_see_value(mov.promo_piece()).0 - 100)
    } else if mov.is_castle() {
        SeeScore(0)
    } else {
        score
    }
}

/// The direction from `t` towards `s` along a rank, file or diagonal, if they share one.
pub open spec fn spec_line_dir(t: int, s: int) -> Option<(int, int)> {
    let df = file_of(s) - file_of(t);
    let dr = rank_of(s) - rank_of(t);
    let sf: int = if df > 0 {
        1
    } else if df < 0 {
        -1
    } else {
        0
    };
    let sr: int = if dr > 0 {
        1
    } else if dr < 0 {
        -1
    } else {
        0
    };
    if df == 0 && dr == 0 {
        None
    } else if df == 0 || dr == 0 || df == dr || df == -dr {
        Some((sf, sr))
    } else {
        None
    }
}

/// The rook, bishop or queen standing on a square of `blockers` that attacks square `t` from the
/// direction of `s`: the first square of `blockers` on the ray from `t` through `s`, if a slider
/// of the right kind stands there (a rook or queen along a rank or file, a bishop or queen along a
/// diagonal); nothing if `t` and `s` are equal or share no line.
pub open spec fn spec_line_attackers(b: Chessboard, t: int, s: int, blockers: u64) -> u64 {
    match spec_line_dir(t, s) {
        None => 0,
        Some((df, dr)) => {
            let sliders = if df == 0 || dr == 0 {
                b.piece_bbs[3] | b.piece_bbs[4]
            } else {
                b.piece_bbs[2] | b.piece_bbs[4]
            };
            spec_ray(file_of(t), rank_of(t), df, dr, blockers) & blockers & sliders
        },
    }
}

/// The part of a ray that lies in `occ` is empty or its last square alone.
proof fn lemma_ray_first_blocker(f: int, r: int, df: int, dr: int, occ: u64)
    ensures
        spec_ray(f, r, df, dr, occ) & occ == 0 || exists|s: u64|
            s < 64 && spec_ray(f, r, df, dr, occ) & occ == 1u64 << s,
    decreases crate::attacks::ray_measure(f, r, df, dr),
{
    broadcast use group_bits;

    if !(-1 <= df <= 1 && -1 <= dr <= 1) || (df == 0 && dr == 0) || !crate::squares::on_board(f, r)
        || !crate::squares::on_board(f + df, r + dr) {
        assert(0u64 & occ == 0) by (bit_vector);
    } else {
        let s = crate::squares::sq_at(f + df, r + dr) as u64;
        if bit(occ, s) {
            crate::bits::lemma_toggle_and(occ, occ, s);
            assert(spec_ray(f, r, df, dr, occ) == 1u64 << s);
            crate::bits::lemma_and_single(occ, 1u64 << s, s);
            assert forall|j: u64| j < 64 implies bit((1u64 << s) & occ, j) == bit(1u64 << s, j) by {}
            crate::bits::lemma_bits_ext((1u64 << s) & occ, 1u64 << s);
        } else {
            lemma_ray_first_blocker(f + df, r + dr, df, dr, occ);
            let rest = spec_ray(f + df, r + dr, df, dr, occ);
            assert forall|j: u64| j < 64 implies bit(((1u64 << s) | rest) & occ, j) == bit(rest & occ, j) by {}
            crate::bits::lemma_bits_ext(((1u64 << s) | rest) & occ, rest & occ);
        }
    }
}

/// A bitboard that is empty or a single square stays so when intersected.
proof fn lemma_at_most_one(x: u64, y: u64)
    requires
        x == 0 || exists|s: u64| s < 64 && x == 1u64 << s,
    ensures
        crate::bits::pop_count(x & y) <= 1,
{
    broadcast use group_bits;

    if x == 0 {
        assert(0u64 & y == 0) by (bit_vector);
        crate::bits::lemma_pop_count_zero(0);
    } else {
        let s = choose|s: u64| s < 64 && x == 1u64 << s;
        crate::bits::lemma_and_single(y, x, s);
        if bit(y, s) {
            assert forall|j: u64| j < 64 implies bit(x & y, j) == bit(x, j) by {}
            crate::bits::lemma_bits_ext(x & y, x);
            crate::bits::lemma_pop_count_single(s);
        } else {
            assert forall|j: u64| j < 64 implies !bit(x & y, j) by {}
            crate::bits::lemma_no_bits_zero(x & y);
            crate::bits::lemma_pop_count_zero(0);
        }
    }
}

impl Board {
    /// The rook, bishop or queen that attacks `target` through `ray_square`, given the blockers:
    /// the first blocker on the ray from `target` through `ray_square` if it is a slider moving
    /// along that line; nothing if the squares share no line. At most one square.
    pub fn ray_attacks(&self, target: ChessSquare, ray_square: ChessSquare, blockers: u64) -> (r: u64)
        requires
            target.wf(),
            ray_square.wf(),
        ensures
            r == spec_line_attackers(*self, target.idx as int, ray_square.idx as int, blockers),
            crate::bits::pop_count(r) <= 1,
    {
        let tf = target.file() as i8;
        let tr = target.rank() as i8;
        let rf = ray_square.file() as i8;
        let rr = ray_square.rank() as i8;
        let file_diff = rf - tf;
        let rank_diff = rr - tr;
        let df: i8 = if file_diff > 0 {
            1
        } else if file_diff < 0 {
            -1
        } else {
            0
        };
        let dr: i8 = if rank_diff > 0 {
            1
        } else if rank_diff < 0 {
            -1
        } else {
            0
        };
        if file_diff == 0 && rank_diff == 0 {
            proof {
                crate::bits::lemma_pop_count_zero(0);
            }
            return 0;
        }
        if !(file_diff == 0 || rank_diff == 0 || file_diff == rank_diff || file_diff == -rank_diff) {
            proof {
                crate::bits::lemma_pop_count_zero(0);
            }
            return 0;
        }
        let sliders = if df == 0 || dr == 0 {
            self.piece_bbs[3] | self.piece_bbs[4]
        } else {
            self.piece_bbs[2] | self.piece_bbs[4]
        };
        let ray = ray_attacks_dir(target, df, dr, blockers);
        proof {
            lemma_ray_first_blocker(target.spec_file(), target.spec_rank(), df as int, dr as int, blockers);
            lemma_at_most_one(ray & blockers, sliders);
        }
        ray & blockers & sliders
    }
}

/// `x` limited to the window from `lo` to `hi`.
pub open spec fn spec_clamp(x: int, lo: int, hi: int) -> int {
    if x < lo {
        lo
    } else if x > hi {
        hi
    } else {
        x
    }
}

/// The least valuable piece of `c` among `attackers`, looking at piece types from index `p` on
/// (pawn first, king last), together with the lowest square that such a piece stands on.
pub open spec fn spec_next_see_attacker(b: Chessboard, c: ChessColor, attackers: u64, p: int) -> Option<
    (ChessPieceType, int),
>
    decreases 6 - p,
{
    if p < 0 || p >= 6 {
        None
    } else {
        let piece = ChessPieceType::spec_from_idx(p);
        let current = b.spec_colored_piece_bb(c, piece) & attackers;
        if current != 0 {
            Some((piece, vstd::std_specs::bits::u64_trailing_zeros(current) as int))
        } else {
            spec_next_see_attacker(b, c, attackers, p + 1)
        }
    }
}

/// The attackers left after the piece on `attacker` has captured on `square`: that piece is gone,
/// and a slider that stood behind it on the same line joins in.
pub open spec fn spec_see_remaining(b: Chessboard, square: int, attacker: int, remaining: u64, removed: u64) -> u64 {
    let rem = remaining & !(1u64 << attacker as u64);
    let gone = removed | (1u64 << attacker as u64);
    let ray = spec_line_attackers(b, square, attacker, b.spec_occupied() ^ gone);
    rem | (ray & !(gone | rem))
}

/// Whether a pawn that captures on `square` promotes there.
pub open spec fn spec_promotes_on(piece: ChessPieceType, square: int) -> bool {
    piece == ChessPieceType::Pawn && (rank_of(square) == 0 || rank_of(square) == 7)
}

/// The value of the exchange on `square` for `c`, who is to move with material balance `e`, when
/// `victim` stands on `square`, `remaining` holds the attackers still able to capture and
/// `removed` the squares already emptied: `c` either stops, keeping `e`, or recaptures with its
/// least valuable attacker (a pawn reaching the back rank becoming a queen), whichever is better.
pub open spec fn spec_see_negamax(
    b: Chessboard,
    square: int,
    c: ChessColor,
    e: int,
    victim: ChessPieceType,
    remaining: u64,
    removed: u64,
) -> int
    decreases 64 - pop_count(removed),
{
    match spec_next_see_attacker(b, c, remaining, 0) {
        None => e,
        Some((piece, sq)) => {
            if sq < 0 || sq >= 64 || bit(removed, sq as u64) {
                e
            } else {
                let promotes = spec_promotes_on(piece, square);
                let gain = spec_piece_see_value(victim) + (if promotes {
                    800int
                } else {
                    0int
                });
                let next_piece = if promotes {
                    ChessPieceType::Queen
                } else {
                    piece
                };
                let gone = removed | (1u64 << sq as u64);
                proof {
                    crate::bits::lemma_pop_count_add_bit(removed, sq as u64);
                    crate::bits::lemma_pop_count_bound(gone);
                }
                let reply = spec_see_negamax(
                    b,
                    square,
                    c.spec_other(),
                    -(e + gain),
                    next_piece,
                    spec_see_remaining(b, square, sq, remaining, removed),
                    gone,
                );
                if e >= -reply {
                    e
                } else {
                    -reply
                }
            }
        },
    }
}

/// The square of the pawn that an en passant capture `mov` takes.
pub open spec fn spec_ep_taken(mov: ChessMove) -> int {
    crate::squares::sq_at(
        file_of(mov.spec_dest()),
        if rank_of(mov.spec_dest()) == 2 {
            3int
        } else {
            4int
        },
    )
}

/// The rooks and queens that attack the destination of an en passant capture along its file once
/// the captured pawn is gone.
pub open spec fn spec_ep_vertical(b: Chessboard, mov: ChessMove) -> u64 {
    let d = mov.spec_dest();
    let occ = b.spec_occupied() ^ (1u64 << spec_ep_taken(mov) as u64);
    (spec_ray(file_of(d), rank_of(d), 0, 1, occ) | spec_ray(file_of(d), rank_of(d), 0, -1, occ)) & (
    b.piece_bbs[3] | b.piece_bbs[4])
}

/// The squares emptied before the exchange on the destination of `mov` starts.
pub open spec fn spec_see_removed0(b: Chessboard, mov: ChessMove) -> u64 {
    if bit(b.spec_occupied(), mov.spec_dest() as u64) {
        1u64 << mov.spec_dest() as u64
    } else {
        0
    }
}

/// The attackers of the destination of `mov` before it is played, with the rooks and queens
/// behind a pawn taken en passant.
pub open spec fn spec_see_attackers0(b: Chessboard, mov: ChessMove) -> u64 {
    let removed = spec_see_removed0(b, mov);
    let attacking = crate::movegen::spec_all_attacking(b, mov.spec_dest(), b.spec_occupied()) & !removed;
    if !mov.spec_flags().spec_is_promo() && mov.spec_flags() == ChessMoveFlags::EnPassant {
        attacking | (spec_ep_vertical(b, mov) & !removed)
    } else {
        attacking
    }
}

/// The material that `mov` itself wins.
pub open spec fn spec_see_first_gain(b: Chessboard, mov: ChessMove) -> int {
    let victim = if !mov.spec_flags().spec_is_promo() && mov.spec_flags() == ChessMoveFlags::EnPassant {
        ChessPieceType::Pawn
    } else {
        crate::chessboard::spec_piece_type_at(b.piece_bbs, mov.spec_dest() as u64)
    };
    spec_move_see_value(mov, victim)
}

/// The piece that stands on the destination of `mov` after it is played.
pub open spec fn spec_see_first_piece(b: Chessboard, mov: ChessMove) -> ChessPieceType {
    if mov.spec_flags().spec_is_promo() {
        mov.spec_flags().spec_promo_piece()
    } else {
        crate::chessboard::spec_piece_type_at(b.piece_bbs, mov.spec_src() as u64)
    }
}

/// The exchange value of `mov` for the player to move: the material it wins, less the best that
/// the opponent can then achieve by recapturing, each side always recapturing with its least
/// valuable attacker (x-rays included) and free to stop at any time.
pub open spec fn spec_see_value(b: Chessboard, mov: ChessMove) -> int {
    let square = mov.spec_dest();
    let removed = spec_see_removed0(b, mov);
    let remaining = spec_see_attackers0(b, mov);
    -spec_see_negamax(
        b,
        square,
        b.active_player.spec_other(),
        -spec_see_first_gain(b, mov),
        spec_see_first_piece(b, mov),
        spec_see_remaining(b, square, mov.spec_src(), remaining, removed),
        removed | (1u64 << mov.spec_src() as u64),
    )
}

/// The shortcut taken before the exchange is played out: the captured piece is worth at least
/// `beta` more than the capturing one, and no enemy pawn can recapture with a promotion.
pub open spec fn spec_see_cutoff(b: Chessboard, mov: ChessMove, beta: int) -> bool {
    let square = mov.spec_dest();
    let us = b.active_player;
    let victim = crate::chessboard::spec_piece_type_at(b.piece_bbs, square as u64);
    let mover = crate::chessboard::spec_piece_type_at(b.piece_bbs, mov.spec_src() as u64);
    &&& spec_piece_see_value(victim) - spec_piece_see_value(mover) >= beta
    &&& !((rank_of(square) == 0 || rank_of(square) == 7) && (crate::attacks::spec_pawn_captures(
        us == ChessColor::White,
        square,
    ) & b.spec_colored_piece_bb(us.spec_other(), ChessPieceType::Pawn)) != 0)
}

/// The exchange value of `mov` within the window from `alpha` to `beta`.
pub open spec fn spec_see(b: Chessboard, mov: ChessMove, alpha: int, beta: int) -> int {
    if spec_see_cutoff(b, mov, beta) {
        beta
    } else {
        spec_clamp(spec_see_value(b, mov), alpha, beta)
    }
}

/// Standing pat is always possible: the exchange is worth at least the current balance.
proof fn lemma_negamax_at_least(
    b: Chessboard,
    square: int,
    c: ChessColor,
    e: int,
    victim: ChessPieceType,
    remaining: u64,
    removed: u64,
)
    ensures
        spec_see_negamax(b, square, c, e, victim, remaining, removed) >= e,
{
}

/// Looking at piece types from index `p` on with `p` at least 1, the least valuable attacker is
/// never a pawn.
proof fn lemma_next_attacker_not_pawn(b: Chessboard, c: ChessColor, attackers: u64, p: int)
    requires
        p >= 1,
    ensures
        spec_next_see_attacker(b, c, attackers, p) is Some ==> spec_next_see_attacker(b, c, attackers, p).unwrap().0
            != ChessPieceType::Pawn,
    decreases 6 - p,
{
    if 0 <= p < 6 {
        lemma_next_attacker_not_pawn(b, c, attackers, p + 1);
    }
}

/// When the least valuable attacker is a pawn, it stands on a square of both the pawns of `c` and
/// the attackers.
proof fn lemma_next_attacker_pawn(b: Chessboard, c: ChessColor, attackers: u64)
    requires
        spec_next_see_attacker(b, c, attackers, 0) is Some,
        spec_next_see_attacker(b, c, attackers, 0).unwrap().0 == ChessPieceType::Pawn,
    ensures
        0 <= spec_next_see_attacker(b, c, attackers, 0).unwrap().1 < 64,
        bit(
            b.spec_colored_piece_bb(c, ChessPieceType::Pawn) & attackers,
            spec_next_see_attacker(b, c, attackers, 0).unwrap().1 as u64,
        ),
{
    let current = b.spec_colored_piece_bb(c, ChessPieceType::Pawn) & attackers;
    lemma_next_attacker_not_pawn(b, c, attackers, 1);
    assert(current != 0);
    vstd::std_specs::bits::axiom_u64_trailing_zeros(current);
}

/// A pawn of the player not to move among the attackers of the destination of `mov` (after `mov`
/// left its square) attacks that square as a pawn.
proof fn lemma_pawn_attacker(b: Chessboard, mov: ChessMove, sq: u64)
    requires
        b.bitboards_consistent(),
        sq < 64,
        0 <= mov.spec_dest() < 64,
        0 <= mov.spec_src() < 64,
        bit(b.spec_colored_piece_bb(b.active_player.spec_other(), ChessPieceType::Pawn), sq),
        bit(
            spec_see_remaining(
                b,
                mov.spec_dest(),
                mov.spec_src(),
                spec_see_attackers0(b, mov),
                spec_see_removed0(b, mov),
            ),
            sq,
        ),
    ensures
        bit(
            crate::attacks::spec_pawn_captures(b.active_player == ChessColor::White, mov.spec_dest())
                & b.spec_colored_piece_bb(b.active_player.spec_other(), ChessPieceType::Pawn),
            sq,
        ),
{
    broadcast use group_bits;

    reveal(crate::movegen::spec_all_attacking);
    let them = b.active_player.spec_other();
    assert(bit(b.piece_bbs[0], sq) && bit(b.spec_colored_bb(them), sq));
    assert forall|i: int| 1 <= i < 6 implies !bit(#[trigger] b.piece_bbs[i], sq) by {
        assert(b.piece_bbs[0] & b.piece_bbs[i] == 0);
        crate::bits::lemma_bit_and(b.piece_bbs[0], b.piece_bbs[i], sq);
        crate::bits::lemma_bit_zero(sq);
    }
    assert(!bit(b.color_bbs[0] & b.color_bbs[1], sq)) by {
        crate::bits::lemma_bit_zero(sq);
    }
    assert(!bit(b.spec_colored_bb(b.active_player), sq));
}

/// For a pseudolegal move other than castling, the shortcut of [`Chessboard::see`] is sound: the
/// captured piece being worth `beta` more than the capturing one makes the exchange worth at least
/// `beta` when no pawn can recapture with a promotion.
pub proof fn lemma_see_cutoff_sound(b: Chessboard, mov: ChessMove, beta: int)
    requires
        b.wf(),
        crate::movegen::spec_is_pseudolegal(b, mov),
        !mov.spec_is_castle(),
        spec_see_cutoff(b, mov, beta),
    ensures
        spec_see_value(b, mov) >= beta,
{
    broadcast use group_bits;

    reveal(crate::movegen::spec_is_pseudolegal);
    crate::moves::lemma_move_bits(mov.0);
    let square = mov.spec_dest();
    let us = b.active_player;
    let them = us.spec_other();
    let removed = spec_see_removed0(b, mov);
    let remaining = spec_see_attackers0(b, mov);
    let r1 = spec_see_remaining(b, square, mov.spec_src(), remaining, removed);
    let d1 = removed | (1u64 << mov.spec_src() as u64);
    let g0 = spec_see_first_gain(b, mov);
    let fp = spec_see_first_piece(b, mov);
    let victim = crate::chessboard::spec_piece_type_at(b.piece_bbs, square as u64);
    let mover = crate::chessboard::spec_piece_type_at(b.piece_bbs, mov.spec_src() as u64);
    crate::movegen::lemma_piece_type_at(b, mov.spec_src() as u64);
    crate::movegen::lemma_piece_type_at(b, square as u64);
    // What the first capture wins, less what the capturing piece is worth, is at least the
    // difference of the two pieces' values.
    if mov.spec_flags() == ChessMoveFlags::EnPassant {
        assert(mover == ChessPieceType::Pawn);
        assert(!bit(b.spec_occupied(), square as u64));
        assert(victim == ChessPieceType::Empty);
    }
    if mov.spec_flags().spec_is_promo() {
        assert(mover == ChessPieceType::Pawn);
    }
    assert(g0 - spec_piece_see_value(fp) >= spec_piece_see_value(victim) - spec_piece_see_value(mover));
    match spec_next_see_attacker(b, them, r1, 0) {
        None => {},
        Some((piece, sq)) => {
            if 0 <= sq < 64 && !bit(d1, sq as u64) {
                if spec_promotes_on(piece, square) {
                    lemma_next_attacker_pawn(b, them, r1);
                    crate::bits::lemma_bit_and(b.spec_colored_piece_bb(them, ChessPieceType::Pawn), r1, sq as u64);
                    lemma_pawn_attacker(b, mov, sq as u64);
                    crate::bits::lemma_bit_zero(sq as u64);
                    assert(false);
                }
                let gain = spec_piece_see_value(fp);
                crate::bits::lemma_pop_count_add_bit(removed, mov.spec_src() as u64);
                lemma_negamax_at_least(
                    b,
                    square,
                    us,
                    -(-g0 + gain),
                    if spec_promotes_on(piece, square) { ChessPieceType::Queen } else { piece },
                    spec_see_remaining(b, square, sq, r1, d1),
                    d1 | (1u64 << sq as u64),
                );
            }
        },
    }
}

/// For a pseudolegal move other than castling, [`Chessboard::see`] is the exchange value clamped to
/// the window: the shortcut never changes the result.
pub proof fn law_see_is_clamped_value(b: Chessboard, mov: ChessMove, alpha: int, beta: int)
    requires
        b.wf(),
        crate::movegen::spec_is_pseudolegal(b, mov),
        !mov.spec_is_castle(),
        alpha < beta,
    ensures
        spec_see(b, mov, alpha, beta) == spec_clamp(spec_see_value(b, mov), alpha, beta),
{
    if spec_see_cutoff(b, mov, beta) {
        lemma_see_cutoff_sound(b, mov, beta);
    }
}

/// For a pseudolegal move other than castling, [`Chessboard::see_at_least`] with `beta` agrees with
/// comparing the result of [`Chessboard::see`] in any window that contains `beta` above its lower
/// end.
pub proof fn law_see_at_least_agrees(b: Chessboard, mov: ChessMove, beta: int, alpha2: int, beta2: int)
    requires
        b.wf(),
        crate::movegen::spec_is_pseudolegal(b, mov),
        !mov.spec_is_castle(),
        alpha2 < beta <= beta2,
    ensures
        (spec_see_cutoff(b, mov, beta) || spec_see_value(b, mov) >= beta) == (spec_see(
            b,
            mov,
            alpha2,
            beta2,
        ) >= beta),
{
    law_see_is_clamped_value(b, mov, alpha2, beta2);
    if spec_see_cutoff(b, mov, beta) {
        lemma_see_cutoff_sound(b, mov, beta);
    }
}

impl Chessboard {
    /// The least valuable piece of `color` among `attackers`, and its square.
    fn next_see_attacker(&self, color: ChessColor, attackers: u64) -> (r: Option<
        (ChessPieceType, ChessSquare),
    >)
        ensures
            r.is_some() == spec_next_see_attacker(*self, color, attackers, 0).is_some(),
            r.is_some() ==> r.unwrap().1.wf() && r.unwrap().0 == spec_next_see_attacker(*self, color, attackers, 0).unwrap().0
                && r.unwrap().1.idx as int == spec_next_see_attacker(*self, color, attackers, 0).unwrap().1
                && bit(attackers, r.unwrap().1.idx as u64),
    {
        let mut p: usize = 0;
        while p < 6
            invariant
                p <= 6,
                spec_next_see_attacker(*self, color, attackers, 0) == spec_next_see_attacker(*self, color, attackers, p as int),
            decreases 6 - p,
        {
            let piece = ChessPieceType::from_idx(p);
            let current = self.colored_piece_bb(color, piece) & attackers;
            if current != 0 {
                let (i, _) = pop_lsb(current);
                proof {
                    crate::bits::lemma_bit_and(self.spec_colored_piece_bb(color, piece), attackers, i as u64);
                }
                return Some((piece, ChessSquare::from_bb_idx(i as usize)));
            }
            p = p + 1;
        }
        None
    }

    /// Removes the attacker on `attacker` from the exchange and adds the slider behind it, if
    /// any; returns the move onto `square` and the piece that stands there afterwards (a pawn that
    /// reaches the back rank becomes a queen).
    fn see_attack(
        &self,
        square: ChessSquare,
        attacker: ChessSquare,
        piece: ChessPieceType,
        remaining: &mut u64,
        removed: &mut u64,
    ) -> (r: (ChessMove, ChessPieceType))
        requires
            square.wf(),
            attacker.wf(),
            *old(remaining) & *old(removed) == 0,
        ensures
            *final(remaining) & *final(removed) == 0,
            *final(removed) == *old(removed) | (1u64 << attacker.idx),
            *final(remaining) == spec_see_remaining(*self, square.idx as int, attacker.idx as int, *old(remaining), *old(removed)),
            r.1 == (if spec_promotes_on(piece, square.idx as int) {
                ChessPieceType::Queen
            } else {
                piece
            }),
            r.0.spec_flags() == (if spec_promotes_on(piece, square.idx as int) {
                ChessMoveFlags::PromoQueen
            } else {
                ChessMoveFlags::NormalMove
            }),
    {
        let attacker_bb = attacker.bb();
        proof {
            let (x, y, z) = (*remaining, *removed, attacker_bb);
            assert(x & y == 0 ==> (x & !z) & (y | z) == 0) by (bit_vector);
        }
        *remaining = *remaining & !attacker_bb;
        *removed = *removed | attacker_bb;
        let blockers_left = self.occupied_bb() ^ *removed;
        let ray = self.ray_attacks(square, attacker, blockers_left);
        let new_attack = ray & !(*removed | *remaining);
        proof {
            let (a, b, n) = (*remaining, *removed, new_attack);
            assert((a | n) & b == 0) by (bit_vector)
                requires
                    a & b == 0,
                    n == ray & !(b | a),
            ;
        }
        *remaining = *remaining | new_attack;
        if piece == ChessPieceType::Pawn && square.is_backrank() {
            (ChessMove::new(attacker, square, ChessMoveFlags::PromoQueen), ChessPieceType::Queen)
        } else {
            (ChessMove::new(attacker, square, ChessMoveFlags::NormalMove), piece)
        }
    }

    /// The exchange value of `mov` within the window from `alpha` to `beta`: the material the
    /// player to move gains when both sides keep recapturing on the destination square with their
    /// least valuable attacker and may stop at any time. Scores outside the window are clamped
    /// to it; when the captured piece alone is worth `beta` more than the capturing one (and no
    /// pawn can recapture with a promotion), `beta` comes back at once.
    #[verifier::rlimit(60)]
    pub fn see(&self, mov: ChessMove, alpha: SeeScore, beta: SeeScore) -> (r: SeeScore)
        requires
            i32::MIN < alpha.0 < beta.0,
        ensures
            r.0 == spec_see(*self, mov, alpha.0 as int, beta.0 as int),
            alpha.0 <= r.0 <= beta.0,
    {
        let square = mov.dest_square();
        let us = self.active_player;
        let mut color = us;
        let original_moving_piece = mov.piece_type(self);
        let mut our_victim = self.piece_type_on(square);
        let mut a: i32 = alpha.0;
        let mut b: i32 = beta.0;
        let them_pawns = self.colored_piece_bb(us.other(), ChessPieceType::Pawn);
        if piece_see_value(our_victim).0 - piece_see_value(original_moving_piece).0 >= b && !(
        square.is_backrank() && (Board::single_pawn_captures(us, square) & them_pawns) != 0) {
            return beta;
        }
        let mut removed: u64 = 0;
        if self.is_occupied(square) {
            removed = square.bb();
        }
        let attacking = self.all_attacking(square, self.slider_generator());
        let mut remaining = attacking & !removed;
        proof {
            let (x, y) = (attacking, removed);
            assert((x & !y) & y == 0) by (bit_vector);
        }
        let mut their_victim = original_moving_piece;
        if mov.is_promotion() {
            their_victim = mov.promo_piece();
        } else if mov.is_ep() {
            our_victim = ChessPieceType::Pawn;
            if let Some(taken) = mov.square_of_pawn_taken_by_ep() {
                proof {
                    assert(taken.idx == spec_ep_taken(mov));
                }
                let occ = self.occupied_bb() ^ taken.bb();
                let vertical = (ray_attacks_dir(square, 0, 1, occ) | ray_attacks_dir(
                    square,
                    0,
                    -1,
                    occ,
                )) & (self.piece_bbs[3] | self.piece_bbs[4]);
                let extra = vertical & !removed;
                proof {
                    let (x, y, z) = (remaining, removed, extra);
                    assert((x | z) & y == 0) by (bit_vector)
                        requires
                            x & y == 0,
                            z == vertical & !y,
                    ;
                }
                remaining = remaining | extra;
            }
        }
        assert(remaining == spec_see_attackers0(*self, mov));
        assert(removed == spec_see_removed0(*self, mov));
        let mut eval: i32 = move_see_value(mov, our_victim).0;
        assert(eval == spec_see_first_gain(*self, mov));
        assert(their_victim == spec_see_first_piece(*self, mov));
        let src = mov.src_square();
        let _ = self.see_attack(square, src, original_moving_piece, &mut remaining, &mut removed);
        proof {
            crate::bits::lemma_pop_count_bound(removed);
        }
        let ghost target = spec_clamp(spec_see_value(*self, mov), alpha.0 as int, beta.0 as int);
        assert(0 <= eval <= 101000);
        loop
            invariant
                square.wf(),
                square.idx == mov.spec_dest(),
                us == self.active_player,
                remaining & removed == 0,
                i32::MIN < alpha.0 < beta.0,
                a < b,
                color == us ==> alpha.0 <= a && b <= beta.0,
                color != us ==> -beta.0 <= a && b <= -alpha.0,
                -101000 * (pop_count(removed) + 1) <= eval <= 101000 * (pop_count(removed) + 1),
                pop_count(removed) <= 64,
                !spec_see_cutoff(*self, mov, beta.0 as int),
                target == spec_clamp(spec_see_value(*self, mov), alpha.0 as int, beta.0 as int),
                target == (if color == us {
                    spec_clamp(
                        -spec_see_negamax(*self, square.idx as int, color.spec_other(), -eval, their_victim, remaining, removed),
                        a as int,
                        b as int,
                    )
                } else {
                    -spec_clamp(
                        -spec_see_negamax(*self, square.idx as int, color.spec_other(), -eval, their_victim, remaining, removed),
                        a as int,
                        b as int,
                    )
                }),
            decreases 64 - pop_count(removed),
        {
            let ghost old_color = color;
            color = color.other();
            let old_a = a;
            a = -b;
            b = -old_a;
            eval = -eval;
            let tmp = our_victim;
            our_victim = their_victim;
            their_victim = tmp;
            let ghost w = spec_see_negamax(*self, square.idx as int, color, eval as int, our_victim, remaining, removed);
            proof {
                assert(old_color.spec_other() == color);
                assert(color == us <==> old_color != us);
                assert(target == (if color == us {
                    spec_clamp(w, a as int, b as int)
                } else {
                    -spec_clamp(w, a as int, b as int)
                }));
            }
            if eval >= b {
                return if color == us {
                    SeeScore(b)
                } else {
                    SeeScore(-b)
                };
            } else if eval > a {
                a = eval;
            }
            let next = self.next_see_attacker(color, remaining);
            match next {
                None => {
                    let best = if eval > a {
                        eval
                    } else {
                        a
                    };
                    return if color == us {
                        SeeScore(best)
                    } else {
                        SeeScore(-best)
                    };
                },
                Some((piece, attacker_sq)) => {
                    let ghost before = removed;
                    let ghost before_rem = remaining;
                    proof {
                        assert(!bit(removed, attacker_sq.idx as u64)) by {
                            crate::bits::lemma_bit_and(remaining, removed, attacker_sq.idx as u64);
                        }
                    }
                    let (m, new_piece) = self.see_attack(
                        square,
                        attacker_sq,
                        piece,
                        &mut remaining,
                        &mut removed,
                    );
                    proof {
                        crate::bits::lemma_pop_count_add_bit(before, attacker_sq.idx as u64);
                        crate::bits::lemma_pop_count_bound(removed);
                    }
                    let gain = move_see_value(m, our_victim).0;
                    proof {
                        let promotes = spec_promotes_on(piece, square.idx as int);
                        assert(gain == spec_piece_see_value(our_victim) + (if promotes { 800int } else { 0int }));
                        let reply = spec_see_negamax(
                            *self,
                            square.idx as int,
                            color.spec_other(),
                            -(eval + gain),
                            new_piece,
                            remaining,
                            removed,
                        );
                        assert(w == (if eval >= -reply { eval as int } else { -reply }));
                    }
                    eval = eval + gain;
                    their_victim = new_piece;
                },
            }
        }
    }

    /// Whether the exchange value of `mov` is at least `beta`.
    pub fn see_at_least(&self, mov: ChessMove, beta: SeeScore) -> (r: bool)
        requires
            i32::MIN + 1 < beta.0,
        ensures
            r == (spec_see_cutoff(*self, mov, beta.0 as int) || spec_see_value(*self, mov) >= beta.0),
    {
        self.see(mov, SeeScore(beta.0 - 1), beta).0 >= beta.0
    }
}

} // verus!
