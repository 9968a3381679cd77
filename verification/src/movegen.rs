//! Attacks on squares and the generation of pseudolegal chess moves.
use vstd::prelude::*;
use crate::attacks::{
    ChessSliderGenerator,
    bishop_attacks, ray_inclusive, rook_attacks, spec_bishop_attacks, spec_king_attacks, spec_knight_attacks,
    spec_offset, spec_pawn_captures, spec_rook_attacks,
};
use crate::bits::{bit, group_bits, pop_count, has_bit, lemma_and_single, pop_lsb};
use crate::castling::CastleRight;
use crate::chessboard::{spec_piece_type_at, Board, Chessboard};
use crate::moves::{lemma_move_eq, ChessMove, ChessMoveFlags};
use crate::pieces::{ChessColor, ChessPieceType};
use crate::squares::{file_of, on_board, rank_of, ChessSquare};

verus! {

/// All pieces of either color that attack square `s` when the squares in `occ` are occupied.
#[verifier::opaque]
pub open spec fn spec_all_attacking(b: Chessboard, s: int, occ: u64) -> u64 {
    let rook_sliders = b.piece_bbs[3] | b.piece_bbs[4];
    let bishop_sliders = b.piece_bbs[2] | b.piece_bbs[4];
    (rook_sliders & spec_rook_attacks(s, occ)) | (bishop_sliders & spec_bishop_attacks(s, occ)) | (
    spec_knight_attacks(s) & b.piece_bbs[1]) | (spec_king_attacks(s) & b.piece_bbs[5]) | (
    spec_pawn_captures(false, s) & (b.piece_bbs[0] & b.color_bbs[0])) | (spec_pawn_captures(true, s)
        & (b.piece_bbs[0] & b.color_bbs[1]))
}

/// The squares a pawn on `s` can move to: diagonally forward onto `capture_filter`, one square
/// forward onto `push_filter`, and from its starting rank two squares forward onto `push_filter`
/// when the first of them is in `push_filter` as well.
pub open spec fn spec_single_pawn_moves(white: bool, s: int, capture_filter: u64, push_filter: u64) -> u64 {
    let captures = spec_pawn_captures(white, s) & capture_filter;
    let rank = rank_of(s);
    let push = if white {
        s + 8
    } else {
        s - 8
    };
    let double = if white {
        s + 16
    } else {
        s - 16
    };
    let pushes = (1u64 << push as u64) & push_filter;
    if (white && rank == 7) || (!white && rank == 0) {
        captures
    } else if pushes != 0 && ((white && rank == 1) || (!white && rank == 6)) {
        captures | (pushes | ((1u64 << double as u64) & push_filter))
    } else {
        captures | pushes
    }
}

/// The attackers of a square depend on the pieces alone.
pub proof fn lemma_all_attacking_frame(a: Chessboard, b: Chessboard)
    requires
        a.piece_bbs == b.piece_bbs,
        a.color_bbs == b.color_bbs,
    ensures
        forall|s: int, occ: u64| #[trigger] spec_all_attacking(a, s, occ) == spec_all_attacking(b, s, occ),
{
    reveal(spec_all_attacking);
}

/// Whether a piece of `player` attacks square `s`.
pub open spec fn spec_attacked_by(b: Chessboard, player: ChessColor, s: int) -> bool {
    spec_all_attacking(b, s, b.spec_occupied()) & b.spec_colored_bb(player) != 0
}

/// Whether a king of color `us` on square `s` would be in check.
pub open spec fn spec_in_check_on(b: Chessboard, us: ChessColor, s: int) -> bool {
    spec_all_attacking(b, s, b.spec_occupied()) & b.spec_colored_bb(us.spec_other()) != 0
}

/// The squares a piece of type `piece` (not a pawn) on square `s` attacks when the squares in
/// `occ` are occupied; nothing for pawns and empty squares.
pub open spec fn spec_piece_attacks(piece: ChessPieceType, s: int, occ: u64) -> u64 {
    match piece {
        ChessPieceType::Knight => spec_knight_attacks(s),
        ChessPieceType::Bishop => spec_bishop_attacks(s, occ),
        ChessPieceType::Rook => spec_rook_attacks(s, occ),
        ChessPieceType::Queen => spec_rook_attacks(s, occ) | spec_bishop_attacks(s, occ),
        ChessPieceType::King => spec_king_attacks(s),
        _ => 0,
    }
}

/// Whether the player to move may castle on `side`, ignoring attacks on the king's path: the right
/// exists, the king is on its back rank, the castling rook is there, and apart from king and rook
/// nothing stands on the squares the king and the rook cross or land on.
pub open spec fn spec_castling_pseudolegal(b: Chessboard, side: CastleRight) -> bool {
    let color = b.active_player;
    let king = b.spec_king_square(color);
    let rank = 7 * color.spec_idx();
    let rook = b.spec_rook_start_square(color, side);
    let king_dest = 8 * rank + (if side == CastleRight::Queenside {
        2int
    } else {
        6int
    });
    let rook_dest = 8 * rank + (if side == CastleRight::Queenside {
        3int
    } else {
        5int
    });
    let occ = b.spec_occupied();
    &&& b.castling.right(color, side).is_some()
    &&& crate::squares::rank_of(king) == rank
    &&& bit(b.spec_colored_piece_bb(color, ChessPieceType::Rook), rook as u64)
    &&& (occ ^ (1u64 << rook as u64)) & (crate::attacks::spec_ray_inclusive(king, king_dest) & !(
    1u64 << king as u64)) == 0
    &&& (occ ^ (1u64 << king as u64)) & (crate::attacks::spec_ray_inclusive(rook, rook_dest) & !(
    1u64 << rook as u64)) == 0
}

/// Whether a pawn move from `src` to `dest` with the given flags follows the movement rules of a
/// pawn of the player to move: a capture of an opposing piece or en passant, a push onto an empty
/// square, a double push from the starting rank across an empty square, promoting exactly when it
/// reaches the last rank.
pub open spec fn spec_pawn_pseudolegal(b: Chessboard, src: int, dest: int, flags: ChessMoveFlags) -> bool {
    let us = b.active_player;
    let white = us == ChessColor::White;
    let rank = crate::squares::rank_of(src);
    let captures = spec_pawn_captures(white, src);
    let opp = b.spec_colored_bb(us.spec_other());
    let free = !b.spec_occupied();
    let push = if white {
        src + 8
    } else {
        src - 8
    };
    let is_capture = bit(captures & opp, dest as u64);
    let is_push = push == dest && bit(free, dest as u64);
    let dest_rank = crate::squares::rank_of(dest);
    let is_ep_dest = b.ep_square.is_some() && b.ep_square.unwrap().idx == dest;
    if (white && rank == 7) || (!white && rank == 0) {
        false
    } else if flags == ChessMoveFlags::EnPassant {
        is_ep_dest && bit(captures, dest as u64)
    } else if is_ep_dest && bit(captures, dest as u64) {
        false
    } else if dest_rank == 0 || dest_rank == 7 {
        flags.spec_is_promo() && (is_capture || is_push)
    } else if flags.spec_is_promo() {
        false
    } else if flags == ChessMoveFlags::DoublePawnPush {
        ((white && rank == 1) || (!white && rank == 6)) && bit(free, push as u64) && dest == (if white {
            push + 8
        } else {
            push - 8
        }) && bit(free, dest as u64)
    } else {
        flags == ChessMoveFlags::NormalMove && (is_capture || is_push)
    }
}

/// Whether `mov` is pseudolegal in `b`: it follows the movement rules of the moving piece of the
/// player to move, without regard to whether the own king is left in check (castling also ignores
/// attacks on the king's path).
#[verifier::opaque]
pub open spec fn spec_is_pseudolegal(b: Chessboard, mov: ChessMove) -> bool {
    let us = b.active_player;
    let own = b.spec_colored_bb(us);
    let src = mov.spec_src();
    let dest = mov.spec_dest();
    let flags = mov.spec_flags();
    let piece = spec_piece_type_at(b.piece_bbs, src as u64);
    &&& mov.0 / 4096 <= 8
    &&& bit(own, src as u64)
    &&& if mov.spec_is_castle() {
        let side = if flags == ChessMoveFlags::CastleQueenside {
            CastleRight::Queenside
        } else {
            CastleRight::Kingside
        };
        piece == ChessPieceType::King && spec_castling_pseudolegal(b, side)
            && b.spec_rook_start_square(us, side) == dest
    } else if bit(own, dest as u64) {
        false
    } else if piece == ChessPieceType::Pawn {
        spec_pawn_pseudolegal(b, src, dest, flags)
    } else {
        flags == ChessMoveFlags::NormalMove && bit(
            spec_piece_attacks(piece, src, b.spec_occupied()),
            dest as u64,
        )
    }
}

/// A normal move from `from` onto a square of `targets`.
pub open spec fn spec_target_move(m: ChessMove, from: int, targets: u64) -> bool {
    &&& m.0 / 4096 <= 8
    &&& m.spec_src() == from
    &&& m.spec_flags() == ChessMoveFlags::NormalMove
    &&& bit(targets, m.spec_dest() as u64)
}

/// A promotion from `from` to `to`; only to a queen or a knight if `only_tactical`.
pub open spec fn spec_promo_move(m: ChessMove, from: int, to: int, only_tactical: bool) -> bool {
    let f = m.spec_flags();
    &&& m.0 / 4096 <= 8
    &&& m.spec_src() == from
    &&& m.spec_dest() == to
    &&& f.spec_is_promo()
    &&& only_tactical ==> (f == ChessMoveFlags::PromoQueen || f == ChessMoveFlags::PromoKnight)
}

/// The move from `from` to `to` with the given flags.
pub open spec fn spec_move_is(m: ChessMove, from: int, to: int, flags: ChessMoveFlags) -> bool {
    &&& m.0 / 4096 <= 8
    &&& m.spec_src() == from
    &&& m.spec_dest() == to
    &&& m.spec_flags() == flags
}

/// The en passant square as a bitboard.
pub open spec fn spec_ep_bb(b: Chessboard) -> u64 {
    match b.ep_square {
        Some(sq) => if sq.idx < 64 {
            1u64 << sq.idx
        } else {
            0
        },
        None => 0,
    }
}

/// A capture by a pawn of the player to move on square `from`: onto the en passant square, or onto
/// an opposing piece, promoting on the last rank.
pub open spec fn spec_pawn_capture(b: Chessboard, m: ChessMove, from: int, only_tactical: bool) -> bool {
    let white = b.active_player == ChessColor::White;
    let dest = m.spec_dest();
    let ep = spec_ep_bb(b);
    let opp = b.spec_colored_bb(b.active_player.spec_other());
    &&& bit(spec_pawn_captures(white, from) & (opp | ep), dest as u64)
    &&& if bit(ep, dest as u64) {
        spec_move_is(m, from, dest, ChessMoveFlags::EnPassant)
    } else if rank_of(dest) == 0 || rank_of(dest) == 7 {
        spec_promo_move(m, from, dest, only_tactical)
    } else {
        spec_move_is(m, from, dest, ChessMoveFlags::NormalMove)
    }
}

/// A push of a pawn of the player to move on square `from` onto an empty square, promoting on the
/// last rank; a double push from the starting rank. Only promotions if `only_tactical`.
pub open spec fn spec_pawn_push(b: Chessboard, m: ChessMove, from: int, only_tactical: bool) -> bool {
    let white = b.active_player == ChessColor::White;
    let free = !b.spec_occupied();
    let push = if white {
        from + 8
    } else {
        from - 8
    };
    let double = if white {
        from + 16
    } else {
        from - 16
    };
    let start = if white {
        rank_of(from) == 1
    } else {
        rank_of(from) == 6
    };
    &&& bit(free, push as u64)
    &&& if rank_of(push) == 0 || rank_of(push) == 7 {
        spec_promo_move(m, from, push, only_tactical)
    } else {
        &&& !only_tactical
        &&& (spec_move_is(m, from, push, ChessMoveFlags::NormalMove) || (start && bit(
            free,
            double as u64,
        ) && spec_move_is(m, from, double, ChessMoveFlags::DoublePawnPush)))
    }
}

/// A move generated for a pawn of the player to move that is not on the last rank.
pub open spec fn spec_pawn_move(b: Chessboard, m: ChessMove, only_tactical: bool) -> bool {
    let from = m.spec_src();
    let white = b.active_player == ChessColor::White;
    &&& bit(b.spec_colored_piece_bb(b.active_player, ChessPieceType::Pawn), from as u64)
    &&& if white {
        rank_of(from) != 7
    } else {
        rank_of(from) != 0
    }
    &&& (spec_pawn_capture(b, m, from, only_tactical) || spec_pawn_push(b, m, from, only_tactical))
}

/// A normal move of the king of the player to move onto a square of `filter`.
pub open spec fn spec_king_move(b: Chessboard, m: ChessMove, filter: u64) -> bool {
    let k = b.spec_king_square(b.active_player);
    &&& b.spec_colored_piece_bb(b.active_player, ChessPieceType::King) != 0
    &&& spec_target_move(m, k, spec_king_attacks(k) & filter)
}

/// The castling move on `side` of the player to move, if it is pseudolegal.
pub open spec fn spec_castle_move(b: Chessboard, m: ChessMove, side: CastleRight) -> bool {
    let us = b.active_player;
    let flags = if side == CastleRight::Queenside {
        ChessMoveFlags::CastleQueenside
    } else {
        ChessMoveFlags::CastleKingside
    };
    &&& b.spec_colored_piece_bb(us, ChessPieceType::King) != 0
    &&& spec_castling_pseudolegal(b, side)
    &&& spec_move_is(m, b.spec_king_square(us), b.spec_rook_start_square(us, side), flags)
}

/// A normal move of a piece of type `piece` of the player to move onto a square of `filter`.
pub open spec fn spec_piece_move(b: Chessboard, m: ChessMove, filter: u64, piece: ChessPieceType) -> bool {
    let s = m.spec_src();
    &&& bit(b.spec_colored_piece_bb(b.active_player, piece), s as u64)
    &&& spec_target_move(m, s, spec_piece_attacks(piece, s, b.spec_occupied()) & filter)
}

/// A normal move of a knight, bishop, rook or queen of the player to move onto a square of
/// `filter`, counting only the piece types with index below `p`.
pub open spec fn spec_piece_moves_below(b: Chessboard, m: ChessMove, filter: u64, p: int) -> bool {
    ||| (p > 1 && spec_piece_move(b, m, filter, ChessPieceType::Knight))
    ||| (p > 2 && spec_piece_move(b, m, filter, ChessPieceType::Bishop))
    ||| (p > 3 && spec_piece_move(b, m, filter, ChessPieceType::Rook))
    ||| (p > 4 && spec_piece_move(b, m, filter, ChessPieceType::Queen))
}

/// The moves the generator produces, piece by piece.
#[verifier::opaque]
pub open spec fn spec_generated(b: Chessboard, m: ChessMove, only_tactical: bool) -> bool {
    let us = b.active_player;
    let filter = if only_tactical {
        b.spec_colored_bb(us.spec_other())
    } else {
        !b.spec_colored_bb(us)
    };
    ||| spec_king_move(b, m, filter)
    ||| (!only_tactical && (spec_castle_move(b, m, CastleRight::Queenside) || spec_castle_move(
        b,
        m,
        CastleRight::Kingside,
    )))
    ||| spec_piece_moves_below(b, m, filter, 5)
    ||| spec_pawn_move(b, m, only_tactical)
}

/// The piece type found on square `s` is in its bitboard, and no piece type before it holds `s`.
pub(crate) proof fn lemma_piece_type_at_bits(bbs: [u64; 6], s: u64)
    ensures
        spec_piece_type_at(bbs, s) != ChessPieceType::Empty ==> bit(bbs[spec_piece_type_at(bbs, s).spec_idx()], s),
        forall|q: int| 0 <= q < 6 && q < spec_piece_type_at(bbs, s).spec_idx() ==> !#[trigger] bit(bbs[q], s),
        spec_piece_type_at(bbs, s) == ChessPieceType::Empty <==> forall|q: int| 0 <= q < 6 ==> !#[trigger] bit(bbs[q], s),
{
}

/// With consistent bitboards, square `s` is in the bitboard of the piece type found there, and
/// occupied exactly when some piece type is found there.
pub(crate) proof fn lemma_piece_type_at(b: Chessboard, s: u64)
    requires
        b.bitboards_consistent(),
        s < 64,
    ensures
        forall|p: int|
            0 <= p < 6 ==> (bit(#[trigger] b.piece_bbs[p], s) <==> spec_piece_type_at(
                b.piece_bbs,
                s,
            ).spec_idx() == p),
        bit(b.spec_occupied(), s) <==> spec_piece_type_at(b.piece_bbs, s) != ChessPieceType::Empty,
        forall|c: ChessColor, p: ChessPieceType|
            p != ChessPieceType::Empty ==> (#[trigger] bit(b.spec_colored_piece_bb(c, p), s) <==> (bit(
                b.spec_colored_bb(c),
                s,
            ) && spec_piece_type_at(b.piece_bbs, s) == p)),
{
    broadcast use group_bits;

    assert forall|i: int, j: int| 0 <= i < j < 6 implies !(bit(b.piece_bbs[i], s) && bit(
        b.piece_bbs[j],
        s,
    )) by {
        assert(b.piece_bbs[i] & b.piece_bbs[j] == 0);
        assert(!bit(b.piece_bbs[i] & b.piece_bbs[j], s));
    }
    let u = b.piece_bbs[0] | b.piece_bbs[1] | b.piece_bbs[2] | b.piece_bbs[3] | b.piece_bbs[4]
        | b.piece_bbs[5];
    assert(bit(u, s) == bit(b.spec_occupied(), s));
    assert(!bit(b.color_bbs[0] & b.color_bbs[1], s));
}

/// Whether `mov` is a tactical move: a capture (en passant included) that is not a rook or bishop
/// promotion, or a queen or knight promotion.
pub open spec fn spec_is_tactical(b: Chessboard, mov: ChessMove) -> bool {
    let f = mov.spec_flags();
    if f.spec_is_promo() {
        f == ChessMoveFlags::PromoQueen || f == ChessMoveFlags::PromoKnight
    } else {
        f == ChessMoveFlags::EnPassant || bit(
            b.spec_colored_bb(b.active_player.spec_other()),
            mov.spec_dest() as u64,
        )
    }
}

/// In a valid position, the king of `c` stands on exactly one square: that of `spec_king_square`.
pub(crate) proof fn lemma_king_unique(b: Chessboard, c: ChessColor, s: u64)
    requires
        b.wf(),
        s < 64,
        bit(b.spec_colored_piece_bb(c, ChessPieceType::King), s),
    ensures
        s == b.spec_king_square(c),
        b.spec_colored_piece_bb(c, ChessPieceType::King) != 0,
{
    broadcast use group_bits;

    let kings = b.spec_colored_piece_bb(c, ChessPieceType::King);
    assert(pop_count(kings) == 1);
    crate::bits::lemma_pop_count_zero(kings);
    vstd::std_specs::bits::axiom_u64_trailing_zeros(kings);
    let k = vstd::std_specs::bits::u64_trailing_zeros(kings) as u64;
    assert(bit(kings, k));
    crate::bits::lemma_pop_count_remove_bit(kings, k);
    crate::bits::lemma_pop_count_zero(kings ^ (1u64 << k));
    assert(!bit(0u64, s));
    assert(bit(kings ^ (1u64 << k), s) == (bit(kings, s) != (k == s)));
}

/// A square a pawn on `s` attacks lies on a neighbouring file, one rank forward.
pub(crate) proof fn lemma_pawn_capture_square(white: bool, s: int, d: u64)
    requires
        0 <= s < 64,
        d < 64,
        bit(spec_pawn_captures(white, s), d),
    ensures
        file_of(d as int) != file_of(s),
        rank_of(d as int) == rank_of(s) + (if white {
            1int
        } else {
            -1int
        }),
{
    broadcast use group_bits;

    let dr: int = if white {
        1
    } else {
        -1
    };
    let f = file_of(s);
    let r = rank_of(s);
    if on_board(f - 1, r + dr) && bit(spec_offset(s, -1, dr), d) {
        assert(d as int == (r + dr) * 8 + f - 1);
    } else if on_board(f + 1, r + dr) && bit(spec_offset(s, 1, dr), d) {
        assert(d as int == (r + dr) * 8 + f + 1);
    } else {
        assert(!bit(spec_offset(s, -1, dr), d));
        assert(!bit(spec_offset(s, 1, dr), d));
    }
}

/// The king of `c`, if there is one, stands on `spec_king_square`.
proof fn lemma_king_square_bit(b: Chessboard, c: ChessColor)
    requires
        b.spec_colored_piece_bb(c, ChessPieceType::King) != 0,
    ensures
        0 <= b.spec_king_square(c) < 64,
        bit(b.spec_colored_piece_bb(c, ChessPieceType::King), b.spec_king_square(c) as u64),
{
    vstd::std_specs::bits::axiom_u64_trailing_zeros(b.spec_colored_piece_bb(c, ChessPieceType::King));
}

/// The moves generated for pawns are the pseudolegal pawn moves (the tactical ones for
/// `only_tactical`).
proof fn lemma_pawn_generated(b: Chessboard, m: ChessMove, only_tactical: bool)
    requires
        b.wf(),
        bit(b.spec_colored_piece_bb(b.active_player, ChessPieceType::Pawn), m.spec_src() as u64),
    ensures
        spec_pawn_move(b, m, only_tactical) <==> (spec_is_pseudolegal(b, m) && (only_tactical
            ==> spec_is_tactical(b, m))),
{
        reveal(spec_is_pseudolegal);
    broadcast use group_bits;

    let us = b.active_player;
    let white = us == ChessColor::White;
    let src = m.spec_src();
    let dest = m.spec_dest();
    let s = src as u64;
    let d = dest as u64;
    lemma_piece_type_at(b, s);
    lemma_piece_type_at(b, d);
    assert(!bit(b.color_bbs[0] & b.color_bbs[1], d));
    let own = b.spec_colored_bb(us);
    let opp = b.spec_colored_bb(us.spec_other());
    let captures = spec_pawn_captures(white, src);
    if bit(captures, d) {
        lemma_pawn_capture_square(white, src, d);
    }
    let ep = spec_ep_bb(b);
    if b.ep_square.is_some() {
        assert(bit(ep, d) == (b.ep_square.unwrap().idx == d));
    } else {
        assert(!bit(ep, d));
    }
}

/// In a valid position the generator produces exactly the pseudolegal moves, and with
/// `only_tactical` exactly the pseudolegal tactical moves.
pub proof fn lemma_generated_iff(b: Chessboard, m: ChessMove, only_tactical: bool)
    requires
        b.wf(),
    ensures
        spec_generated(b, m, only_tactical) <==> (spec_is_pseudolegal(b, m) && (only_tactical
            ==> spec_is_tactical(b, m))),
{
        reveal(spec_is_pseudolegal);
    reveal(spec_generated);
    broadcast use group_bits;

    let us = b.active_player;
    let src = m.spec_src();
    let dest = m.spec_dest();
    let s = src as u64;
    let d = dest as u64;
    lemma_piece_type_at(b, s);
    lemma_piece_type_at(b, d);
    assert(!bit(b.color_bbs[0] & b.color_bbs[1], d));
    assert(!bit(b.color_bbs[0] & b.color_bbs[1], s));
    let kings = b.spec_colored_piece_bb(us, ChessPieceType::King);
    if kings != 0 {
        lemma_king_square_bit(b, us);
    }
    if bit(kings, s) {
        lemma_king_unique(b, us, s);
    }
    if bit(b.spec_colored_piece_bb(us, ChessPieceType::Pawn), s) {
        lemma_pawn_generated(b, m, only_tactical);
    }
    if b.ep_square.is_some() {
        assert(bit(spec_ep_bb(b), d) == (b.ep_square.unwrap().idx == d));
    } else {
        assert(!bit(spec_ep_bb(b), d));
    }
}

proof fn lemma_bit_zero_all()
    ensures
        forall|d: u64| !#[trigger] bit(0u64, d),
{
    assert forall|d: u64| !#[trigger] bit(0u64, d) by {
        assert((0u64 >> d) & 1u64 == 0u64) by (bit_vector);
    }
}

impl Board {
    /// The generator of slider attacks for the occupied squares of the board.
    pub fn slider_generator(&self) -> (r: ChessSliderGenerator)
        ensures
            r.blockers == self.spec_occupied(),
    {
        ChessSliderGenerator::new(self.occupied_bb())
    }

    /// All pieces of either color that attack `square`, sliders being blocked by the occupied
    /// squares of `slider_gen`.
    pub fn all_attacking(&self, square: ChessSquare, slider_gen: ChessSliderGenerator) -> (r: u64)
        requires
            square.wf(),
        ensures
            r == spec_all_attacking(*self, square.idx as int, slider_gen.blockers),
    {
        reveal(spec_all_attacking);
        let rook_sliders = self.piece_bbs[3] | self.piece_bbs[4];
        let bishop_sliders = self.piece_bbs[2] | self.piece_bbs[4];
        (rook_sliders & slider_gen.rook_attacks(square)) | (bishop_sliders & slider_gen.bishop_attacks(square))
            | (Self::knight_attacks_from(square) & self.piece_bbs[1]) | (Self::normal_king_attacks_from(square)
            & self.piece_bbs[5]) | (Self::single_pawn_captures(ChessColor::Black, square) & (self.piece_bbs[0]
            & self.color_bbs[0])) | (Self::single_pawn_captures(ChessColor::White, square) & (self.piece_bbs[0]
            & self.color_bbs[1]))
    }

    /// Whether a king of color `us` on `square` would be in check.
    pub fn is_in_check_on_square(&self, us: ChessColor, square: ChessSquare) -> (r: bool)
        requires
            square.wf(),
        ensures
            r == spec_in_check_on(*self, us, square.idx as int),
    {
        self.all_attacking(square, self.slider_generator()) & self.colored_bb(us.other()) != 0
    }

    /// Whether the player to move is in check.
    pub fn is_in_check(&self) -> (r: bool)
        ensures
            r == spec_in_check_on(
                *self,
                self.active_player,
                self.spec_king_square(self.active_player),
            ),
    {
        let k = self.king_square(self.active_player);
        self.is_in_check_on_square(self.active_player, k)
    }

    /// The pieces of the player not to move that give check.
    pub fn checkers(&self) -> (r: u64)
        ensures
            r == spec_all_attacking(
                *self,
                self.spec_king_square(self.active_player),
                self.spec_occupied(),
            ) & self.spec_colored_bb(self.active_player.spec_other()),
    {
        let k = self.king_square(self.active_player);
        self.all_attacking(k, self.slider_generator()) & self.inactive_player_bb()
    }

    /// The squares attacked by `player`, i.e. those where a piece of the other player would be in
    /// check (so pawn pushes and castling don't count).
    pub fn calc_threats_of(&self, player: ChessColor) -> (r: u64)
        ensures
            forall|q: u64| q < 64 ==> #[trigger] bit(r, q) == spec_attacked_by(*self, player, q as int),
    {
        broadcast use group_bits;

        let mut res: u64 = 0;
        let mut i: u8 = 0;
        let them = self.colored_bb(player);
        while i < 64
            invariant
                i <= 64,
                them == self.spec_colored_bb(player),
                forall|q: u64|
                    q < 64 ==> #[trigger] bit(res, q) == (q < i && spec_attacked_by(*self, player, q as int)),
            decreases 64 - i,
        {
            let ghost old_res = res;
            let sq = ChessSquare::from_bb_idx(i as usize);
            let attacked = self.all_attacking(sq, self.slider_generator()) & them != 0;
            assert(attacked == spec_attacked_by(*self, player, i as int));
            let sq_bb = sq.bb();
            if attacked {
                res = res | sq_bb;
            }
            assert forall|q: u64| q < 64 implies #[trigger] bit(res, q) == (q < i + 1
                && spec_attacked_by(*self, player, q as int)) by {
                assert(bit(old_res, q) == (q < i && spec_attacked_by(*self, player, q as int)));
                assert(bit(sq_bb, q) == (q == i as u64));
                if attacked {
                    crate::bits::lemma_bit_or(old_res, sq_bb, q);
                }
            }
            i = i + 1;
        }
        res
    }

    /// The squares attacked by the player not to move.
    pub fn threats(&self) -> (r: u64)
        ensures
            forall|q: u64|
                q < 64 ==> #[trigger] bit(r, q) == spec_attacked_by(
                    *self,
                    self.active_player.spec_other(),
                    q as int,
                ),
    {
        self.calc_threats_of(self.active_player.other())
    }

    /// Whether castling on `side` is pseudolegal: the right exists and, apart from the king and the
    /// rook, no piece stands between the king and its destination or the rook and its destination.
    pub fn is_castling_pseudolegal(&self, side: CastleRight) -> (r: bool)
        requires
            self.castling.wf(),
        ensures
            r == spec_castling_pseudolegal(*self, side),
    {
        let color = self.active_player;
        if !self.castling.can_castle(color, side) {
            return false;
        }
        let king_sq = self.king_square(color);
        let rank = Chessboard::backrank(color);
        if king_sq.rank() != rank {
            return false;
        }
        let rook_sq = self.rook_start_square(color, side);
        let rooks = self.colored_piece_bb(color, ChessPieceType::Rook);
        proof {
            let i = rook_sq.idx as u64;
            assert(i < 64 ==> ((rooks & (1u64 << i)) == 0 <==> !((rooks >> i) & 1u64 == 1u64)))
                by (bit_vector);
        }
        if rooks & rook_sq.bb() == 0 {
            return false;
        }
        let king_dest = ChessSquare::from_rank_file(rank, side.king_dest_file());
        let rook_dest = ChessSquare::from_rank_file(rank, side.rook_dest_file());
        let king_path = ray_inclusive(king_sq, king_dest) & !king_sq.bb();
        let rook_path = ray_inclusive(rook_sq, rook_dest) & !rook_sq.bb();
        let occ = self.occupied_bb();
        ((occ ^ rook_sq.bb()) & king_path) == 0 && ((occ ^ king_sq.bb()) & rook_path) == 0
    }

    /// The squares a pawn of `color` on `square` can move to: captures onto `capture_filter`,
    /// pushes onto `push_filter` (double pushes only from the starting rank and not across a blocker).
    pub fn single_pawn_moves(
        color: ChessColor,
        square: ChessSquare,
        capture_filter: u64,
        push_filter: u64,
    ) -> (r: u64)
        requires
            square.wf(),
        ensures
            r == spec_single_pawn_moves(color == ChessColor::White, square.idx as int, capture_filter, push_filter),
    {
        let white = color == ChessColor::White;
        let captures = Self::single_pawn_captures(color, square) & capture_filter;
        let rank = square.rank();
        if (white && rank == 7) || (!white && rank == 0) {
            return captures;
        }
        let push_sq = square.pawn_advance_unchecked(white);
        let mut pushes = push_sq.bb() & push_filter;
        if pushes != 0 && ((white && rank == 1) || (!white && rank == 6)) {
            let double_sq = push_sq.pawn_advance_unchecked(white);
            pushes = pushes | (double_sq.bb() & push_filter);
        }
        captures | pushes
    }

    fn push_promos(moves: &mut Vec<ChessMove>, from: ChessSquare, to: ChessSquare, only_tactical: bool)
        requires
            from.wf(),
            to.wf(),
        ensures
            forall|m: ChessMove|
                #[trigger] final(moves)@.contains(m) <==> old(moves)@.contains(m) || spec_promo_move(
                    m,
                    from.idx as int,
                    to.idx as int,
                    only_tactical,
                ),
    {
        let ghost m0 = moves@;
        let q = ChessMove::new(from, to, ChessMoveFlags::PromoQueen);
        let n = ChessMove::new(from, to, ChessMoveFlags::PromoKnight);
        let r = ChessMove::new(from, to, ChessMoveFlags::PromoRook);
        let b = ChessMove::new(from, to, ChessMoveFlags::PromoBishop);
        moves.push(q);
        moves.push(n);
        let ghost m2 = moves@;
        if !only_tactical {
            moves.push(r);
            moves.push(b);
        }
        assert forall|m: ChessMove|
            #[trigger] moves@.contains(m) <==> m0.contains(m) || spec_promo_move(
                m,
                from.idx as int,
                to.idx as int,
                only_tactical,
            ) by {
            vstd::seq_lib::lemma_seq_contains_after_push(m0, q, m);
            vstd::seq_lib::lemma_seq_contains_after_push(m0.push(q), n, m);
            if !only_tactical {
                vstd::seq_lib::lemma_seq_contains_after_push(m2, r, m);
                vstd::seq_lib::lemma_seq_contains_after_push(m2.push(r), b, m);
            }
            if spec_promo_move(m, from.idx as int, to.idx as int, only_tactical) {
                let f = m.spec_flags();
                if f == ChessMoveFlags::PromoQueen {
                    lemma_move_eq(m, q);
                } else if f == ChessMoveFlags::PromoKnight {
                    lemma_move_eq(m, n);
                } else if f == ChessMoveFlags::PromoRook {
                    lemma_move_eq(m, r);
                } else {
                    lemma_move_eq(m, b);
                }
            }
        }
    }

    fn gen_pawn_moves(&self, moves: &mut Vec<ChessMove>, only_tactical: bool)
        ensures
            forall|m: ChessMove|
                #[trigger] final(moves)@.contains(m) <==> old(moves)@.contains(m) || spec_pawn_move(
                    *self,
                    m,
                    only_tactical,
                ),
    {
        broadcast use group_bits;

        let us = self.active_player;
        let white = us == ChessColor::White;
        let opponent = self.inactive_player_bb();
        let free = self.empty_bb();
        let all_pawns = self.colored_piece_bb(us, ChessPieceType::Pawn);
        let mut pawns = all_pawns;
        let ep_bb: u64 = match self.ep_square {
            Some(sq) => {
                if sq.idx < 64 {
                    sq.bb()
                } else {
                    0
                }
            },
            None => 0,
        };
        assert(ep_bb == spec_ep_bb(*self));
        while pawns != 0
            invariant
                white == (us == ChessColor::White),
                us == self.active_player,
                opponent == self.spec_colored_bb(us.spec_other()),
                free == !self.spec_occupied(),
                ep_bb == spec_ep_bb(*self),
                all_pawns == self.spec_colored_piece_bb(us, ChessPieceType::Pawn),
                forall|d: u64| d < 64 && #[trigger] bit(pawns, d) ==> bit(all_pawns, d),
                forall|m: ChessMove|
                    #[trigger] moves@.contains(m) <==> old(moves)@.contains(m) || (spec_pawn_move(
                        *self,
                        m,
                        only_tactical,
                    ) && !bit(pawns, m.spec_src() as u64)),
            decreases pawns,
        {
            let ghost old_pawns = pawns;
            let ghost m0 = moves@;
            let (i, rest) = pop_lsb(pawns);
            pawns = rest;
            assert(forall|d: u64| d < 64 ==> #[trigger] bit(pawns, d) == (bit(old_pawns, d) && d != i));
            let from = ChessSquare::from_bb_idx(i as usize);
            let rank = from.rank();
            if (white && rank == 7) || (!white && rank == 0) {
                assert forall|m: ChessMove|
                    #[trigger] moves@.contains(m) <==> old(moves)@.contains(m) || (spec_pawn_move(
                        *self,
                        m,
                        only_tactical,
                    ) && !bit(pawns, m.spec_src() as u64)) by {
                    let s = m.spec_src() as u64;
                    assert(bit(pawns, s) == (bit(old_pawns, s) && s != i));
                }
                continue ;
            }
            let all_caps = Self::single_pawn_captures(us, from) & (opponent | ep_bb);
            let mut captures = all_caps;
            while captures != 0
                invariant
                    from.wf(),
                    from.idx == i,
                    white == (us == ChessColor::White),
                    us == self.active_player,
                    opponent == self.spec_colored_bb(us.spec_other()),
                    ep_bb == spec_ep_bb(*self),
                    all_caps == spec_pawn_captures(white, i as int) & (opponent | ep_bb),
                    forall|d: u64| d < 64 && #[trigger] bit(captures, d) ==> bit(all_caps, d),
                    forall|m: ChessMove|
                        #[trigger] moves@.contains(m) <==> m0.contains(m) || (spec_pawn_capture(
                            *self,
                            m,
                            i as int,
                            only_tactical,
                        ) && !bit(captures, m.spec_dest() as u64)),
                decreases captures,
            {
                let ghost old_caps = captures;
                let ghost m1 = moves@;
                let (j, rest2) = pop_lsb(captures);
                captures = rest2;
                assert(forall|d: u64|
                    d < 64 ==> #[trigger] bit(captures, d) == (bit(old_caps, d) && d != j));
                let to = ChessSquare::from_bb_idx(j as usize);
                let to_bb = to.bb();
                proof {
                    lemma_and_single(ep_bb, to_bb, j as u64);
                }
                if ep_bb & to_bb != 0 {
                    let mv = ChessMove::new(from, to, ChessMoveFlags::EnPassant);
                    moves.push(mv);
                    assert forall|m: ChessMove|
                        #[trigger] moves@.contains(m) <==> m0.contains(m) || (spec_pawn_capture(
                            *self,
                            m,
                            i as int,
                            only_tactical,
                        ) && !bit(captures, m.spec_dest() as u64)) by {
                        vstd::seq_lib::lemma_seq_contains_after_push(m1, mv, m);
                        let d = m.spec_dest() as u64;
                        assert(bit(captures, d) == (bit(old_caps, d) && d != j));
                        if spec_pawn_capture(*self, m, i as int, only_tactical) && d == j {
                            lemma_move_eq(m, mv);
                        }
                    }
                } else if to.is_backrank() {
                    Self::push_promos(moves, from, to, only_tactical);
                    assert forall|m: ChessMove|
                        #[trigger] moves@.contains(m) <==> m0.contains(m) || (spec_pawn_capture(
                            *self,
                            m,
                            i as int,
                            only_tactical,
                        ) && !bit(captures, m.spec_dest() as u64)) by {
                        let d = m.spec_dest() as u64;
                        assert(bit(captures, d) == (bit(old_caps, d) && d != j));
                    }
                } else {
                    let mv = ChessMove::new(from, to, ChessMoveFlags::NormalMove);
                    moves.push(mv);
                    assert forall|m: ChessMove|
                        #[trigger] moves@.contains(m) <==> m0.contains(m) || (spec_pawn_capture(
                            *self,
                            m,
                            i as int,
                            only_tactical,
                        ) && !bit(captures, m.spec_dest() as u64)) by {
                        vstd::seq_lib::lemma_seq_contains_after_push(m1, mv, m);
                        let d = m.spec_dest() as u64;
                        assert(bit(captures, d) == (bit(old_caps, d) && d != j));
                        if spec_pawn_capture(*self, m, i as int, only_tactical) && d == j {
                            lemma_move_eq(m, mv);
                        }
                    }
                }
            }
            let ghost m2 = moves@;
            proof {
                lemma_bit_zero_all();
            }
            let push = from.pawn_advance_unchecked(white);
            let push_bb = push.bb();
            proof {
                lemma_and_single(free, push_bb, push.idx as u64);
            }
            if free & push_bb != 0 {
                if push.is_backrank() {
                    Self::push_promos(moves, from, push, only_tactical);
                } else if !only_tactical {
                    let mv = ChessMove::new(from, push, ChessMoveFlags::NormalMove);
                    moves.push(mv);
                    let ghost m3 = moves@;
                    if (white && rank == 1) || (!white && rank == 6) {
                        let double = push.pawn_advance_unchecked(white);
                        let double_bb = double.bb();
                        proof {
                            lemma_and_single(free, double_bb, double.idx as u64);
                        }
                        if free & double_bb != 0 {
                            let mv2 = ChessMove::new(from, double, ChessMoveFlags::DoublePawnPush);
                            moves.push(mv2);
                            assert forall|m: ChessMove|
                                #[trigger] moves@.contains(m) <==> m2.contains(m) || spec_pawn_push(
                                    *self,
                                    m,
                                    i as int,
                                    only_tactical,
                                ) by {
                                vstd::seq_lib::lemma_seq_contains_after_push(m2, mv, m);
                                vstd::seq_lib::lemma_seq_contains_after_push(m3, mv2, m);
                                if spec_pawn_push(*self, m, i as int, only_tactical) {
                                    if m.spec_flags() == ChessMoveFlags::NormalMove {
                                        lemma_move_eq(m, mv);
                                    } else {
                                        lemma_move_eq(m, mv2);
                                    }
                                }
                            }
                        } else {
                            assert(!bit(free, double.idx as u64));
                            assert forall|m: ChessMove|
                                #[trigger] moves@.contains(m) <==> m2.contains(m) || spec_pawn_push(
                                    *self,
                                    m,
                                    i as int,
                                    only_tactical,
                                ) by {
                                vstd::seq_lib::lemma_seq_contains_after_push(m2, mv, m);
                                if spec_pawn_push(*self, m, i as int, only_tactical) {
                                    lemma_move_eq(m, mv);
                                }
                            }
                        }
                    } else {
                        assert forall|m: ChessMove|
                            #[trigger] moves@.contains(m) <==> m2.contains(m) || spec_pawn_push(
                                *self,
                                m,
                                i as int,
                                only_tactical,
                            ) by {
                            vstd::seq_lib::lemma_seq_contains_after_push(m2, mv, m);
                            if spec_pawn_push(*self, m, i as int, only_tactical) {
                                lemma_move_eq(m, mv);
                            }
                        }
                    }
                }
            } else {
                assert(!bit(free, push.idx as u64));
            }
            assert(forall|m: ChessMove|
                #[trigger] moves@.contains(m) <==> m2.contains(m) || spec_pawn_push(
                    *self,
                    m,
                    i as int,
                    only_tactical,
                ));
            assert forall|m: ChessMove|
                #[trigger] moves@.contains(m) <==> old(moves)@.contains(m) || (spec_pawn_move(
                    *self,
                    m,
                    only_tactical,
                ) && !bit(pawns, m.spec_src() as u64)) by {
                let s = m.spec_src() as u64;
                assert(bit(pawns, s) == (bit(old_pawns, s) && s != i));
                assert(m2.contains(m) <==> m0.contains(m) || spec_pawn_capture(*self, m, i as int, only_tactical));
            }
        }
        proof {
            lemma_bit_zero_all();
        }
    }

    fn push_targets(moves: &mut Vec<ChessMove>, from: ChessSquare, targets: u64)
        requires
            from.wf(),
        ensures
            forall|m: ChessMove|
                #[trigger] final(moves)@.contains(m) <==> old(moves)@.contains(m) || spec_target_move(
                    m,
                    from.idx as int,
                    targets,
                ),
    {
        broadcast use group_bits;

        let mut t = targets;
        while t != 0
            invariant
                from.wf(),
                forall|d: u64| d < 64 && #[trigger] bit(t, d) ==> bit(targets, d),
                forall|m: ChessMove|
                    #[trigger] moves@.contains(m) <==> old(moves)@.contains(m) || (spec_target_move(
                        m,
                        from.idx as int,
                        targets,
                    ) && !bit(t, m.spec_dest() as u64)),
            decreases t,
        {
            let (j, rest) = pop_lsb(t);
            let ghost prev = moves@;
            let ghost old_t = t;
            t = rest;
            assert(forall|d: u64| d < 64 ==> #[trigger] bit(t, d) == (bit(old_t, d) && d != j));
            let mv = ChessMove::new(from, ChessSquare::from_bb_idx(j as usize), ChessMoveFlags::NormalMove);
            moves.push(mv);
            assert forall|m: ChessMove|
                #[trigger] moves@.contains(m) <==> old(moves)@.contains(m) || (spec_target_move(
                    m,
                    from.idx as int,
                    targets,
                ) && !bit(t, m.spec_dest() as u64)) by {
                assert(moves@ == prev.push(mv));
                let d = m.spec_dest() as u64;
                assert(d < 64);
                assert(bit(t, d) == (bit(old_t, d) && d != j));
                if spec_target_move(m, from.idx as int, targets) && m.spec_dest() == j as int {
                    lemma_move_eq(m, mv);
                }
                assert(bit(old_t, j as u64));
                assert(bit(targets, j as u64));
                if m == mv {
                    assert(spec_target_move(m, from.idx as int, targets));
                }
                vstd::seq_lib::lemma_seq_contains_after_push(prev, mv, m);
            }
        }
        proof {
            lemma_bit_zero_all();
        }
    }

    /// Appends the pseudolegal moves of the player to move: all moves that follow the movement
    /// rules of the pieces, without checking whether the own king ends up in check.
    /// With `only_tactical`, only captures and queen or knight promotions.
    pub fn gen_pseudolegal_moves(&self, moves: &mut Vec<ChessMove>, only_tactical: bool)
        requires
            self.castling.wf(),
        ensures
            forall|m: ChessMove|
                #[trigger] final(moves)@.contains(m) <==> old(moves)@.contains(m) || spec_generated(
                    *self,
                    m,
                    only_tactical,
                ),
    {
        reveal(spec_generated);
        broadcast use group_bits;

        let us = self.active_player;
        let own = self.active_player_bb();
        let filter = if only_tactical {
            self.inactive_player_bb()
        } else {
            !own
        };
        let occ = self.occupied_bb();
        let king_sq = self.king_square(us);
        let ghost m0 = moves@;
        let ghost k = king_sq.idx as int;
        let ghost kingbb = self.spec_colored_piece_bb(us, ChessPieceType::King);
        if self.colored_piece_bb(us, ChessPieceType::King) != 0 {
            Self::push_targets(moves, king_sq, Self::normal_king_attacks_from(king_sq) & filter);
            let ghost m1 = moves@;
            if !only_tactical {
                if self.is_castling_pseudolegal(CastleRight::Queenside) {
                    let rook = self.rook_start_square(us, CastleRight::Queenside);
                    let mv = ChessMove::new(king_sq, rook, ChessMoveFlags::CastleQueenside);
                    moves.push(mv);
                    assert forall|m: ChessMove| #[trigger] moves@.contains(m) <==> m1.contains(m)
                        || spec_castle_move(*self, m, CastleRight::Queenside) by {
                        vstd::seq_lib::lemma_seq_contains_after_push(m1, mv, m);
                        if spec_castle_move(*self, m, CastleRight::Queenside) {
                            lemma_move_eq(m, mv);
                        }
                    }
                }
                let ghost m2 = moves@;
                if self.is_castling_pseudolegal(CastleRight::Kingside) {
                    let rook = self.rook_start_square(us, CastleRight::Kingside);
                    let mv = ChessMove::new(king_sq, rook, ChessMoveFlags::CastleKingside);
                    moves.push(mv);
                    assert forall|m: ChessMove| #[trigger] moves@.contains(m) <==> m2.contains(m)
                        || spec_castle_move(*self, m, CastleRight::Kingside) by {
                        vstd::seq_lib::lemma_seq_contains_after_push(m2, mv, m);
                        if spec_castle_move(*self, m, CastleRight::Kingside) {
                            lemma_move_eq(m, mv);
                        }
                    }
                }
            }
        }
        let ghost m3 = moves@;
        assert(forall|m: ChessMove| #[trigger] m3.contains(m) <==> m0.contains(m) || spec_king_move(
            *self,
            m,
            filter,
        ) || (!only_tactical && (spec_castle_move(*self, m, CastleRight::Queenside)
            || spec_castle_move(*self, m, CastleRight::Kingside))));
        let mut p: usize = 1;
        while p < 5
            invariant
                1 <= p <= 5,
                self.castling.wf(),
                us == self.active_player,
                own == self.spec_colored_bb(us),
                occ == self.spec_occupied(),
                forall|m: ChessMove|
                    #[trigger] moves@.contains(m) <==> m3.contains(m) || spec_piece_moves_below(
                        *self,
                        m,
                        filter,
                        p as int,
                    ),
            decreases 5 - p,
        {
            let piece = ChessPieceType::from_idx(p);
            let all_pieces = self.colored_piece_bb(us, piece);
            let mut pieces = all_pieces;
            let ghost m4 = moves@;
            while pieces != 0
                invariant
                    1 <= p < 5,
                    piece.spec_idx() == p,
                    piece == ChessPieceType::spec_from_idx(p as int),
                    us == self.active_player,
                    own == self.spec_colored_bb(us),
                    occ == self.spec_occupied(),
                    all_pieces == self.spec_colored_piece_bb(us, piece),
                    forall|d: u64| d < 64 && #[trigger] bit(pieces, d) ==> bit(all_pieces, d),
                    forall|m: ChessMove|
                        #[trigger] moves@.contains(m) <==> m4.contains(m) || (bit(
                            all_pieces,
                            m.spec_src() as u64,
                        ) && !bit(pieces, m.spec_src() as u64) && spec_target_move(
                            m,
                            m.spec_src(),
                            spec_piece_attacks(piece, m.spec_src(), occ) & filter,
                        )),
                decreases pieces,
            {
                let ghost old_pieces = pieces;
                let ghost m5 = moves@;
                let (i, rest) = pop_lsb(pieces);
                pieces = rest;
                assert(forall|d: u64|
                    d < 64 ==> #[trigger] bit(pieces, d) == (bit(old_pieces, d) && d != i));
                let from = ChessSquare::from_bb_idx(i as usize);
                let attacks = if p == 1 {
                    Self::knight_attacks_from(from)
                } else if p == 2 {
                    bishop_attacks(from, occ)
                } else if p == 3 {
                    rook_attacks(from, occ)
                } else {
                    rook_attacks(from, occ) | bishop_attacks(from, occ)
                };
                assert(attacks == spec_piece_attacks(piece, i as int, occ));
                Self::push_targets(moves, from, attacks & filter);
                assert forall|m: ChessMove|
                    #[trigger] moves@.contains(m) <==> m4.contains(m) || (bit(
                        all_pieces,
                        m.spec_src() as u64,
                    ) && !bit(pieces, m.spec_src() as u64) && spec_target_move(
                        m,
                        m.spec_src(),
                        spec_piece_attacks(piece, m.spec_src(), occ) & filter,
                    )) by {
                    let s = m.spec_src() as u64;
                    assert(bit(pieces, s) == (bit(old_pieces, s) && s != i));
                }
            }
            assert forall|m: ChessMove|
                #[trigger] moves@.contains(m) <==> m3.contains(m) || spec_piece_moves_below(
                    *self,
                    m,
                    filter,
                    p as int + 1,
                ) by {
                let s = m.spec_src() as u64;
                crate::bits::lemma_bit_zero(s);
            }
            p = p + 1;
        }
        let ghost m6 = moves@;
        self.gen_pawn_moves(moves, only_tactical);
    }

    /// The pseudolegal moves of the player to move; in a valid position exactly the moves for which
    /// [`Self::is_move_pseudolegal`] holds.
    pub fn pseudolegal_moves(&self) -> (r: Vec<ChessMove>)
        requires
            self.castling.wf(),
        ensures
            forall|m: ChessMove| #[trigger] r@.contains(m) <==> spec_generated(*self, m, false),
            self.wf() ==> forall|m: ChessMove| #[trigger]
                r@.contains(m) <==> spec_is_pseudolegal(*self, m),
    {
        let mut moves: Vec<ChessMove> = Vec::new();
        self.gen_pseudolegal_moves(&mut moves, false);
        proof {
            if self.wf() {
                assert forall|m: ChessMove| #[trigger]
                    moves@.contains(m) <==> spec_is_pseudolegal(*self, m) by {
                    lemma_generated_iff(*self, m, false);
                }
            }
        }
        moves
    }

    /// The pseudolegal captures and queen or knight promotions of the player to move; in a valid
    /// position exactly the pseudolegal moves that are tactical.
    pub fn tactical_pseudolegal(&self) -> (r: Vec<ChessMove>)
        requires
            self.castling.wf(),
        ensures
            forall|m: ChessMove| #[trigger] r@.contains(m) <==> spec_generated(*self, m, true),
            self.wf() ==> forall|m: ChessMove| #[trigger]
                r@.contains(m) <==> (spec_is_pseudolegal(*self, m) && spec_is_tactical(*self, m)),
    {
        let mut moves: Vec<ChessMove> = Vec::new();
        self.gen_pseudolegal_moves(&mut moves, true);
        proof {
            if self.wf() {
                assert forall|m: ChessMove| #[trigger]
                    moves@.contains(m) <==> (spec_is_pseudolegal(*self, m) && spec_is_tactical(*self, m)) by {
                    lemma_generated_iff(*self, m, true);
                }
            }
        }
        moves
    }

    /// Whether `mov` is pseudolegal: exactly the moves [`Self::pseudolegal_moves`] generates.
    pub fn is_move_pseudolegal(&self, mov: ChessMove) -> (r: bool)
        requires
            self.castling.wf(),
        ensures
            r == spec_is_pseudolegal(*self, mov),
    {
        reveal(spec_is_pseudolegal);
        let src = mov.src_square();
        let dest = mov.dest_square();
        let us = self.active_player;
        let white = us == ChessColor::White;
        if mov.untrusted_flags().is_err() {
            return false;
        }
        if !has_bit(self.active_player_bb(), src.idx) {
            return false;
        }
        let flags = mov.flags();
        let piece = self.piece_type_on(src);
        if mov.is_castle() {
            if piece != ChessPieceType::King {
                return false;
            }
            let side = mov.castle_side();
            return self.is_castling_pseudolegal(side) && self.rook_start_square(us, side) == dest;
        }
        let own = self.active_player_bb();
        if has_bit(own, dest.idx) {
            return false;
        }
        if piece == ChessPieceType::Pawn {
            let rank = src.rank();
            if (white && rank == 7) || (!white && rank == 0) {
                return false;
            }
            let opponent = self.inactive_player_bb();
            let free = self.empty_bb();
            let captures = Self::single_pawn_captures(us, src);
            if flags == ChessMoveFlags::EnPassant {
                return match self.ep_square {
                    Some(ep) => ep == dest && has_bit(captures, dest.idx),
                    None => false,
                };
            }
            let is_ep_dest = match self.ep_square {
                Some(ep) => ep == dest,
                None => false,
            };
            if is_ep_dest && has_bit(captures, dest.idx) {
                return false;
            }
            let push = src.pawn_advance_unchecked(white);
            let is_capture = has_bit(captures & opponent, dest.idx);
            let is_push = push == dest && has_bit(free, dest.idx);
            if dest.is_backrank() {
                if !mov.is_promotion() {
                    return false;
                }
                return is_capture || is_push;
            }
            if mov.is_promotion() {
                return false;
            }
            if flags == ChessMoveFlags::DoublePawnPush {
                if !((white && rank == 1) || (!white && rank == 6)) || !has_bit(free, push.idx) {
                    return false;
                }
                let double = push.pawn_advance_unchecked(white);
                return double == dest && has_bit(free, dest.idx);
            }
            return flags == ChessMoveFlags::NormalMove && (is_capture || is_push);
        }
        if flags != ChessMoveFlags::NormalMove {
            return false;
        }
        let occ = self.occupied_bb();
        let attacks = if piece == ChessPieceType::Knight {
            Self::knight_attacks_from(src)
        } else if piece == ChessPieceType::Bishop {
            bishop_attacks(src, occ)
        } else if piece == ChessPieceType::Rook {
            rook_attacks(src, occ)
        } else if piece == ChessPieceType::Queen {
            rook_attacks(src, occ) | bishop_attacks(src, occ)
        } else if piece == ChessPieceType::King {
            Self::normal_king_attacks_from(src)
        } else {
            0
        };
        has_bit(attacks, dest.idx)
    }
}

} // verus!
