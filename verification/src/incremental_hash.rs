//! The zobrist hash that moves keep up to date equals the hash computed from scratch.
use vstd::prelude::*;
use crate::bits::{bit, group_bits};
use crate::chessboard::{spec_colored_piece_bb_at, spec_keys_of, spec_pieces_hash, Chessboard};
use crate::pieces::{ChessColor, ChessPieceType};
use crate::moves::{ChessMove, ChessMoveFlags};
use crate::movegen::spec_is_pseudolegal;
use crate::zobrist::spec_piece_key;
use crate::squares::sq_at;
use crate::castling::CastleRight;

verus! {

/// The lowest set bit of `x` is `t` when `t` is set and no lower bit is.
proof fn lemma_tz_is(x: u64, t: u64)
    requires
        t < 64,
        bit(x, t),
        forall|j: u64| j < t ==> !#[trigger] bit(x, j),
    ensures
        vstd::std_specs::bits::u64_trailing_zeros(x) == t,
{
    vstd::std_specs::bits::axiom_u64_trailing_zeros(x);
    let tz = vstd::std_specs::bits::u64_trailing_zeros(x) as u64;
    if tz < t {
        assert((x >> tz) & 1u64 == 1u64);
        assert(bit(x, tz));
    }
    if tz > t {
        assert((x >> t) & 1u64 == 0u64);
    }
}

/// Toggling square `sq` in `bb` toggles its key in the xor of the keys.
pub proof fn lemma_keys_of_toggle(bb: u64, sq: u64, piece: ChessPieceType, color: ChessColor)
    requires
        sq < 64,
    ensures
        spec_keys_of(bb ^ (1u64 << sq), piece, color) == spec_keys_of(bb, piece, color) ^ spec_piece_key(
            piece,
            color,
            sq as int,
        ),
    decreases bb,
{
    broadcast use group_bits;

    let y = bb ^ (1u64 << sq);
    let k = spec_piece_key(piece, color, sq as int);
    if bb == 0 {
        crate::bits::lemma_toggle_single(bb, sq, sq);
        assert(bit(y, sq));
        lemma_tz_is(y, sq);
        crate::bits::lemma_xor_shapes(k, 0, 0, 0, 0, 0);
    } else {
        vstd::std_specs::bits::axiom_u64_trailing_zeros(bb);
        let s = vstd::std_specs::bits::u64_trailing_zeros(bb) as u64;
        assert((bb >> s) & 1u64 == 1u64);
        assert forall|j: u64| j < s implies !#[trigger] bit(bb, j) by {
            assert((bb >> j) & 1u64 == 0u64);
        }
        let rest = bb ^ (1u64 << s);
        let ks = spec_piece_key(piece, color, s as int);
        crate::bits::lemma_toggle_single(bb, sq, s);
        assert(bit(bb, s));
        assert(spec_keys_of(bb, piece, color) == ks ^ spec_keys_of(rest, piece, color));
        if sq == s {
            assert(y == rest);
            let kr = spec_keys_of(rest, piece, color);
            crate::bits::lemma_xor_shapes(ks, kr, 0, 0, 0, 0);
        } else if sq < s {
            assert(bit(y, sq));
            assert forall|j: u64| j < sq implies !#[trigger] bit(y, j) by {}
            lemma_tz_is(y, sq);
            let kb = spec_keys_of(bb, piece, color);
            crate::bits::lemma_xor_shapes(kb, k, 0, 0, 0, 0);
        } else {
            assert(bit(y, s));
            assert forall|j: u64| j < s implies !#[trigger] bit(y, j) by {}
            lemma_tz_is(y, s);
            let ry = y ^ (1u64 << s);
            lemma_keys_of_toggle(rest, sq, piece, color);
            let kr = spec_keys_of(rest, piece, color);
            crate::bits::lemma_xor_shapes(ks, k, 0, kr, 0, 0);
        }
    }
}

/// Square `sq` holds either nothing or a `piece` of `color` and no other piece: toggling that piece
/// there keeps the bitboards describing one piece per square.
pub open spec fn spec_toggle_ok(b: Chessboard, sq: u64, piece: ChessPieceType, color: ChessColor) -> bool {
    &&& bit(b.color_bbs[color.spec_idx()], sq) == bit(b.piece_bbs[piece.spec_idx()], sq)
    &&& !bit(b.color_bbs[color.spec_other().spec_idx()], sq)
    &&& forall|q: int| 0 <= q < 6 && q != piece.spec_idx() ==> !#[trigger] bit(b.piece_bbs[q], sq)
}

proof fn lemma_toggle_fields(b: Chessboard, sq: u64, piece: ChessPieceType, color: ChessColor)
    requires
        piece != ChessPieceType::Empty,
    ensures
        forall|q: int| 0 <= q < 6 ==> #[trigger] crate::make_move::spec_toggle(b, sq as int, piece, color).piece_bbs[q] == if q == piece.spec_idx() {
            b.piece_bbs[q] ^ (1u64 << sq)
        } else {
            b.piece_bbs[q]
        },
        forall|q: int| 0 <= q < 2 ==> #[trigger] crate::make_move::spec_toggle(b, sq as int, piece, color).color_bbs[q] == if q == color.spec_idx() {
            b.color_bbs[q] ^ (1u64 << sq)
        } else {
            b.color_bbs[q]
        },
{
    let t = crate::make_move::spec_toggle(b, sq as int, piece, color);
    vstd::array::axiom_spec_array_update(b.piece_bbs, piece.spec_idx(), b.piece_bbs[piece.spec_idx()] ^ (1u64 << sq));
    vstd::array::axiom_spec_array_update(b.color_bbs, color.spec_idx(), b.color_bbs[color.spec_idx()] ^ (1u64 << sq));
}

/// Toggling a piece on a square that holds nothing else toggles its key in the xor of the keys of
/// the first `i` combinations of color and piece type, if its own combination is among them.
pub proof fn lemma_pieces_hash_toggle(b: Chessboard, sq: u64, piece: ChessPieceType, color: ChessColor, i: nat)
    requires
        sq < 64,
        piece != ChessPieceType::Empty,
        i <= 12,
        spec_toggle_ok(b, sq, piece, color),
    ensures
        spec_pieces_hash(crate::make_move::spec_toggle(b, sq as int, piece, color), i) == spec_pieces_hash(b, i) ^ (
        if 6 * color.spec_idx() + piece.spec_idx() < i {
            spec_piece_key(piece, color, sq as int)
        } else {
            0u64
        }),
    decreases i,
{
    let t = crate::make_move::spec_toggle(b, sq as int, piece, color);
    let target = 6 * color.spec_idx() + piece.spec_idx();
    let k = spec_piece_key(piece, color, sq as int);
    if i == 0 {
        crate::bits::lemma_xor_shapes(0, 0, 0, 0, 0, 0);
    } else {
        let j = (i - 1) as nat;
        lemma_pieces_hash_toggle(b, sq, piece, color, j);
        lemma_toggle_fields(b, sq, piece, color);
        let cj = (j / 6) as int;
        let pj = (j % 6) as int;
        let x = b.color_bbs[cj];
        let y = b.piece_bbs[pj];
        let pc = ChessPieceType::spec_from_idx(pj);
        let cc = ChessColor::spec_from_idx(cj);
        let hj = spec_pieces_hash(b, j);
        let kj = spec_keys_of(spec_colored_piece_bb_at(b, j), pc, cc);
        if j == target {
            assert(cj == color.spec_idx() && pj == piece.spec_idx());
            assert(pc == piece && cc == color);
            assert(bit(x, sq) == bit(y, sq));
            crate::bits::lemma_toggle_and(x, y, sq);
            assert(spec_colored_piece_bb_at(t, j) == spec_colored_piece_bb_at(b, j) ^ (1u64 << sq));
            lemma_keys_of_toggle(spec_colored_piece_bb_at(b, j), sq, piece, color);
            crate::bits::lemma_xor_shapes(hj, k, 0, kj, 0, 0);
        } else {
            if cj == color.spec_idx() {
                assert(pj != piece.spec_idx());
                assert(!bit(y, sq));
                crate::bits::lemma_toggle_and(x, y, sq);
            } else if pj == piece.spec_idx() {
                assert(cj == color.spec_other().spec_idx());
                assert(!bit(x, sq));
                crate::bits::lemma_toggle_and(x, y, sq);
            }
            assert(spec_colored_piece_bb_at(t, j) == spec_colored_piece_bb_at(b, j));
            crate::bits::lemma_xor_shapes(hj, k, 0, kj, 0, 0);
        }
    }
}

/// Nothing stands on square `x`: no piece bitboard and no color bitboard holds it.
pub open spec fn spec_empty_at(b: Chessboard, x: u64) -> bool {
    &&& forall|q: int| 0 <= q < 6 ==> !#[trigger] bit(b.piece_bbs[q], x)
    &&& forall|c: int| 0 <= c < 2 ==> !#[trigger] bit(b.color_bbs[c], x)
}

/// The bitboards of `a` and `b` agree on square `x`.
pub open spec fn spec_same_at(a: Chessboard, b: Chessboard, x: u64) -> bool {
    &&& forall|q: int| 0 <= q < 6 ==> #[trigger] bit(a.piece_bbs[q], x) == bit(b.piece_bbs[q], x)
    &&& forall|c: int| 0 <= c < 2 ==> #[trigger] bit(a.color_bbs[c], x) == bit(b.color_bbs[c], x)
}

/// Toggling on one square leaves the others alone; toggling a piece that is there empties the
/// square, and toggling onto an empty square is allowed.
proof fn lemma_toggle_bits(b: Chessboard, sq: u64, piece: ChessPieceType, color: ChessColor)
    requires
        sq < 64,
        piece != ChessPieceType::Empty,
    ensures
        forall|x: u64| x < 64 && x != sq ==> #[trigger] spec_same_at(
            crate::make_move::spec_toggle(b, sq as int, piece, color),
            b,
            x,
        ),
        spec_empty_at(b, sq) ==> spec_toggle_ok(b, sq, piece, color),
        spec_toggle_ok(b, sq, piece, color) && bit(b.color_bbs[color.spec_idx()], sq) ==> spec_empty_at(
            crate::make_move::spec_toggle(b, sq as int, piece, color),
            sq,
        ),
        spec_toggle_ok(b, sq, piece, color) && !bit(b.color_bbs[color.spec_idx()], sq) ==> spec_toggle_ok(
            crate::make_move::spec_toggle(b, sq as int, piece, color),
            sq,
            piece,
            color,
        ) && bit(crate::make_move::spec_toggle(b, sq as int, piece, color).color_bbs[color.spec_idx()], sq),
{
    broadcast use group_bits;

    lemma_toggle_fields(b, sq, piece, color);
    let t = crate::make_move::spec_toggle(b, sq as int, piece, color);
    assert forall|x: u64| x < 64 && x != sq implies #[trigger] spec_same_at(t, b, x) by {
        assert forall|q: int| 0 <= q < 6 implies #[trigger] bit(t.piece_bbs[q], x) == bit(b.piece_bbs[q], x) by {
            if q == piece.spec_idx() {
                assert(bit(b.piece_bbs[q] ^ (1u64 << sq), x) == (bit(b.piece_bbs[q], x) != bit(1u64 << sq, x)));
            }
        }
        assert forall|c: int| 0 <= c < 2 implies #[trigger] bit(t.color_bbs[c], x) == bit(b.color_bbs[c], x) by {
            if c == color.spec_idx() {
                assert(bit(b.color_bbs[c] ^ (1u64 << sq), x) == (bit(b.color_bbs[c], x) != bit(1u64 << sq, x)));
            }
        }
    }
    if spec_toggle_ok(b, sq, piece, color) {
        assert forall|q: int| 0 <= q < 6 implies #[trigger] bit(t.piece_bbs[q], sq) == (q == piece.spec_idx()
            && !bit(b.piece_bbs[q], sq)) by {
            if q == piece.spec_idx() {
                assert(bit(b.piece_bbs[q] ^ (1u64 << sq), sq) == (bit(b.piece_bbs[q], sq) != bit(1u64 << sq, sq)));
            }
        }
        assert forall|c: int| 0 <= c < 2 implies #[trigger] bit(t.color_bbs[c], sq) == (c == color.spec_idx()
            && !bit(b.color_bbs[c], sq)) by {
            if c == color.spec_idx() {
                assert(bit(b.color_bbs[c] ^ (1u64 << sq), sq) == (bit(b.color_bbs[c], sq) != bit(1u64 << sq, sq)));
            } else {
                assert(c == color.spec_other().spec_idx());
            }
        }
    }
}

/// The zobrist hash of the pieces and en passant square of `b`, with the castling rights given by
/// `allowed` and black to move if `black`.
pub open spec fn spec_hash_parts(b: Chessboard, allowed: int, black: bool) -> u64 {
    let pieces = spec_pieces_hash(b, 12);
    let with_ep = match b.ep_square {
        Some(sq) => pieces ^ crate::zobrist::EP_FILE_KEYS[crate::squares::file_of(sq.idx as int)],
        None => pieces,
    };
    let with_castling = with_ep ^ crate::zobrist::CASTLE_KEYS[allowed];
    if black {
        with_castling ^ crate::zobrist::SIDE_TO_MOVE_KEY
    } else {
        with_castling
    }
}

/// The hash of `b` is up to date, except that castling rights `allowed` and black to move if
/// `black` are hashed in place of its own.
pub open spec fn spec_hash_ok_with(b: Chessboard, allowed: int, black: bool) -> bool {
    b.hash.0 == spec_hash_parts(b, allowed, black)
}

proof fn lemma_hash_parts_zobrist(b: Chessboard)
    ensures
        crate::chessboard::spec_zobrist(b).0 == spec_hash_parts(
            b,
            b.castling.spec_allowed(),
            b.active_player == ChessColor::Black,
        ),
{
}

/// Toggling a piece on a square that holds nothing else keeps the hash up to date.
proof fn lemma_toggle_keeps_hash(
    b: Chessboard,
    sq: u64,
    piece: ChessPieceType,
    color: ChessColor,
    allowed: int,
    black: bool,
)
    requires
        sq < 64,
        piece != ChessPieceType::Empty,
        spec_toggle_ok(b, sq, piece, color),
        spec_hash_ok_with(b, allowed, black),
    ensures
        spec_hash_ok_with(crate::make_move::spec_toggle(b, sq as int, piece, color), allowed, black),
{
    let t = crate::make_move::spec_toggle(b, sq as int, piece, color);
    lemma_pieces_hash_toggle(b, sq, piece, color, 12);
    let k = spec_piece_key(piece, color, sq as int);
    let p = spec_pieces_hash(b, 12);
    let e: u64 = match b.ep_square {
        Some(s) => crate::zobrist::EP_FILE_KEYS[crate::squares::file_of(s.idx as int)],
        None => 0,
    };
    let c = crate::zobrist::CASTLE_KEYS[allowed];
    let st = crate::zobrist::SIDE_TO_MOVE_KEY;
    crate::bits::lemma_xor_shapes(p, k, e, c, st, 0);
}

/// The hash depends on the pieces and the en passant square only, once castling rights and the
/// side to move are fixed.
proof fn lemma_hash_parts_frame(a: Chessboard, b: Chessboard, allowed: int, black: bool)
    requires
        a.piece_bbs == b.piece_bbs,
        a.color_bbs == b.color_bbs,
        a.ep_square == b.ep_square,
    ensures
        spec_hash_parts(a, allowed, black) == spec_hash_parts(b, allowed, black),
{
    crate::chessboard::lemma_pieces_hash_frame(a, b, 12);
}

/// Clearing the en passant square at the start of a move keeps the hash up to date.
proof fn lemma_prelude_keeps_hash(b: Chessboard, allowed: int, black: bool)
    requires
        spec_hash_ok_with(b, allowed, black),
        b.ep_square.is_some() ==> b.ep_square.unwrap().wf(),
    ensures
        spec_hash_ok_with(crate::make_move::spec_mm_prelude(b), allowed, black),
{
    let b1 = crate::make_move::spec_mm_prelude(b);
    crate::chessboard::lemma_pieces_hash_frame(b1, b, 12);
    let p = spec_pieces_hash(b, 12);
    let c = crate::zobrist::CASTLE_KEYS[allowed];
    let st = crate::zobrist::SIDE_TO_MOVE_KEY;
    if let Some(sq) = b.ep_square {
        let e = crate::zobrist::EP_FILE_KEYS[crate::squares::file_of(sq.idx as int)];
        crate::bits::lemma_xor_shapes(p, 0, e, c, st, 0);
    }
}

/// Updating the castling part and the side to move at the end of a move brings the hash up to date.
proof fn lemma_finish_keeps_hash(b: Chessboard, allowed: int)
    requires
        spec_hash_ok_with(b, allowed, b.active_player == ChessColor::Black),
        0 <= allowed < 16,
    ensures
        crate::make_move::spec_mm_finish(b, allowed).hash == crate::chessboard::spec_zobrist(
            crate::make_move::spec_mm_finish(b, allowed),
        ),
{
    let b3 = crate::make_move::spec_mm_finish(b, allowed);
    crate::chessboard::lemma_pieces_hash_frame(b3, b, 12);
    let p = spec_pieces_hash(b, 12);
    let e: u64 = match b.ep_square {
        Some(sq) => crate::zobrist::EP_FILE_KEYS[crate::squares::file_of(sq.idx as int)],
        None => 0,
    };
    let c = crate::zobrist::CASTLE_KEYS[allowed];
    let n = crate::zobrist::CASTLE_KEYS[b.castling.spec_allowed()];
    let st = crate::zobrist::SIDE_TO_MOVE_KEY;
    crate::bits::lemma_xor_shapes(p, 0, e, c, st, n);
}

/// Setting the en passant square after a double pawn push keeps the hash up to date.
proof fn lemma_ep_keeps_hash(b: Chessboard, piece: ChessPieceType, from: int, to: int)
    requires
        b.hash == crate::chessboard::spec_zobrist(b),
        b.ep_square.is_none(),
    ensures
        crate::make_move::spec_mm_ep(b, piece, from, to).hash == crate::chessboard::spec_zobrist(
            crate::make_move::spec_mm_ep(b, piece, from, to),
        ),
{
    let b4 = crate::make_move::spec_mm_ep(b, piece, from, to);
    crate::chessboard::lemma_pieces_hash_frame(b4, b, 12);
    let p = spec_pieces_hash(b, 12);
    let c = crate::zobrist::CASTLE_KEYS[b.castling.spec_allowed()];
    let st = crate::zobrist::SIDE_TO_MOVE_KEY;
    if let Some(sq) = b4.ep_square {
        let e = crate::zobrist::EP_FILE_KEYS[crate::squares::file_of(sq.idx as int)];
        crate::bits::lemma_xor_shapes(p, 0, e, c, st, 0);
    }
}

/// The color of the piece on square `x`.
pub open spec fn spec_color_at(b: Chessboard, x: u64) -> ChessColor {
    if bit(b.color_bbs[0], x) {
        ChessColor::White
    } else {
        ChessColor::Black
    }
}

/// With consistent bitboards, an occupied square holds exactly the piece found there, and an empty
/// square nothing at all.
proof fn lemma_consistent_square(b: Chessboard, x: u64)
    requires
        b.bitboards_consistent(),
        x < 64,
    ensures
        bit(b.spec_occupied(), x) ==> spec_toggle_ok(
            b,
            x,
            crate::chessboard::spec_piece_type_at(b.piece_bbs, x),
            spec_color_at(b, x),
        ) && bit(b.color_bbs[spec_color_at(b, x).spec_idx()], x),
        !bit(b.spec_occupied(), x) ==> spec_empty_at(b, x),
{
    broadcast use group_bits;

    crate::movegen::lemma_piece_type_at(b, x);
    assert(!bit(b.color_bbs[0] & b.color_bbs[1], x));
}

proof fn lemma_same_at_transfer(a: Chessboard, b: Chessboard, x: u64, piece: ChessPieceType, color: ChessColor)
    requires
        spec_same_at(a, b, x),
        piece != ChessPieceType::Empty,
    ensures
        spec_toggle_ok(a, x, piece, color) == spec_toggle_ok(b, x, piece, color),
        spec_empty_at(a, x) == spec_empty_at(b, x),
        bit(a.color_bbs[color.spec_idx()], x) == bit(b.color_bbs[color.spec_idx()], x),
{
    assert(bit(a.color_bbs[color.spec_idx()], x) == bit(b.color_bbs[color.spec_idx()], x));
    assert(bit(a.color_bbs[color.spec_other().spec_idx()], x) == bit(b.color_bbs[color.spec_other().spec_idx()], x));
    assert(bit(a.piece_bbs[piece.spec_idx()], x) == bit(b.piece_bbs[piece.spec_idx()], x));
    if spec_toggle_ok(a, x, piece, color) {
        assert forall|q: int| 0 <= q < 6 && q != piece.spec_idx() implies !#[trigger] bit(b.piece_bbs[q], x) by {
            assert(bit(a.piece_bbs[q], x) == bit(b.piece_bbs[q], x));
        }
    }
    if spec_toggle_ok(b, x, piece, color) {
        assert forall|q: int| 0 <= q < 6 && q != piece.spec_idx() implies !#[trigger] bit(a.piece_bbs[q], x) by {
            assert(bit(a.piece_bbs[q], x) == bit(b.piece_bbs[q], x));
        }
    }
}

/// Playing a pseudolegal move that does not castle keeps the hash up to date (before the castling
/// part and the side to move are updated).
#[verifier::rlimit(40)]
proof fn lemma_normal_keeps_hash(b: Chessboard, m: ChessMove, allowed: int, black: bool)
    requires
        b.wf(),
        spec_is_pseudolegal(b, m),
        !m.spec_is_castle(),
        spec_hash_ok_with(crate::make_move::spec_mm_prelude(b), allowed, black),
    ensures
        spec_hash_ok_with(
            crate::make_move::spec_mm_normal(
                crate::make_move::spec_mm_prelude(b),
                m,
                crate::chessboard::spec_piece_type_at(b.piece_bbs, m.spec_src() as u64),
            ),
            allowed,
            black,
        ),
        spec_all_squares_ok(
            crate::make_move::spec_mm_normal(
                crate::make_move::spec_mm_prelude(b),
                m,
                crate::chessboard::spec_piece_type_at(b.piece_bbs, m.spec_src() as u64),
            ),
        ),
        !bit(b.piece_bbs[5], m.spec_dest() as u64) ==> forall|c: ChessColor| #[trigger] crate::bits::pop_count(
            spec_kings(
                crate::make_move::spec_mm_normal(
                    crate::make_move::spec_mm_prelude(b),
                    m,
                    crate::chessboard::spec_piece_type_at(b.piece_bbs, m.spec_src() as u64),
                ),
                c,
            ),
        ) == 1,
{
    broadcast use group_bits;

    reveal(spec_is_pseudolegal);
    let b1 = crate::make_move::spec_mm_prelude(b);
    let from = m.spec_src() as u64;
    let d = m.spec_dest() as u64;
    let us = b.active_player;
    let them = us.spec_other();
    let piece = crate::chessboard::spec_piece_type_at(b.piece_bbs, from);
    lemma_consistent_square(b, from);
    lemma_consistent_square(b, d);
    assert(!bit(b.color_bbs[0] & b.color_bbs[1], from));
    assert(!bit(b.color_bbs[0] & b.color_bbs[1], d));
    assert(bit(b.spec_occupied(), from));
    assert(spec_color_at(b, from) == us);
    assert(piece != ChessPieceType::Empty);
    assert(from != d);
    lemma_consistent_all_squares(b);
    lemma_squares_frame(b1, b);
    // the captures
    let bc = crate::make_move::spec_mm_capture(b1, m, piece);
    if m.spec_flags() == ChessMoveFlags::EnPassant && piece == ChessPieceType::Pawn {
        let white = us == ChessColor::White;
        crate::movegen::lemma_pawn_capture_square(white, m.spec_src(), d);
        let v = crate::squares::sq_at(crate::squares::file_of(d as int), crate::squares::rank_of(from as int));
        assert(b.ep_square.is_some() && b.ep_square.unwrap().idx == d);
        assert(v == b.spec_ep_victim());
        let vv = v as u64;
        assert(bit(b.spec_colored_piece_bb(them, ChessPieceType::Pawn), vv));
        lemma_consistent_square(b, vv);
        crate::movegen::lemma_piece_type_at(b, vv);
        assert(spec_color_at(b, vv) == them);
        assert(vv != from && vv != d);
        assert(crate::chessboard::spec_piece_type_at(b1.piece_bbs, vv) == ChessPieceType::Pawn);
        lemma_same_at_transfer(b1, b, vv, ChessPieceType::Pawn, them);
        lemma_toggle_step(b1, vv, ChessPieceType::Pawn, them, allowed, black);
        lemma_toggle_bits(b1, vv, ChessPieceType::Pawn, them);
        lemma_hash_parts_frame(bc, crate::make_move::spec_toggle(b1, v, ChessPieceType::Pawn, them), allowed, black);
        lemma_squares_frame(bc, crate::make_move::spec_toggle(b1, v, ChessPieceType::Pawn, them));
        assert(spec_same_at(bc, b1, from));
        assert(spec_same_at(bc, b1, d));
        assert(!bit(b.spec_occupied(), d));
    } else if bit(b1.spec_colored_bb(them), d) {
        let captured = crate::chessboard::spec_piece_type_at(b1.piece_bbs, d);
        assert(spec_color_at(b, d) == them);
        lemma_same_at_transfer(b1, b, d, captured, them);
        lemma_toggle_step(b1, d, captured, them, allowed, black);
        lemma_toggle_bits(b1, d, captured, them);
        lemma_hash_parts_frame(bc, crate::make_move::spec_toggle(b1, d as int, captured, them), allowed, black);
        lemma_squares_frame(bc, crate::make_move::spec_toggle(b1, d as int, captured, them));
        assert(spec_same_at(bc, b1, from));
        assert(spec_empty_at(bc, d));
    } else {
        assert(!bit(b.spec_occupied(), d));
        assert(spec_same_at(bc, b1, from));
        assert(spec_same_at(bc, b1, d));
        lemma_hash_parts_frame(bc, b1, allowed, black);
        lemma_squares_frame(bc, b1);
    }
    // the castling rights
    let bc2 = Chessboard { castling: crate::make_move::spec_mm_rights(bc, from as int, d as int, piece), ..bc };
    lemma_hash_parts_frame(bc2, bc, allowed, black);
    lemma_squares_frame(bc2, bc);
    assert(spec_same_at(bc2, bc, from));
    assert(spec_same_at(bc2, bc, d));
    // the piece leaves its square
    lemma_same_at_transfer(bc2, b, from, piece, us);
    lemma_toggle_step(bc2, from, piece, us, allowed, black);
    lemma_toggle_bits(bc2, from, piece, us);
    let t1 = crate::make_move::spec_toggle(bc2, from as int, piece, us);
    assert(spec_same_at(t1, bc2, d));
    assert(spec_empty_at(t1, d));
    // and arrives on the destination
    let moved = if m.spec_flags().spec_is_promo() && piece == ChessPieceType::Pawn {
        m.spec_flags().spec_promo_piece()
    } else {
        piece
    };
    assert(moved != ChessPieceType::Empty);
    lemma_toggle_bits(t1, d, moved, us);
    lemma_toggle_step(t1, d, moved, us, allowed, black);
    let t2 = crate::make_move::spec_toggle(t1, d as int, moved, us);
    if !bit(b.piece_bbs[5], d) {
        assert(piece == ChessPieceType::King ==> moved == ChessPieceType::King);
        assert(piece != ChessPieceType::King ==> moved != ChessPieceType::King);
        assert(spec_kings(bc2, us) == spec_kings(b, us));
        assert(spec_kings(bc2, them) == spec_kings(b, them));
        assert(crate::bits::pop_count(spec_kings(b, us)) == 1);
        assert(crate::bits::pop_count(spec_kings(b, them)) == 1);
        if piece == ChessPieceType::King {
            let k0 = spec_kings(b, us);
            assert(bit(k0, from));
            crate::bits::lemma_pop_count_remove_bit(k0, from);
            let k1 = k0 ^ (1u64 << from);
            assert(spec_kings(t1, us) == k1);
            assert(!bit(t1.color_bbs[us.spec_idx()], d));
            assert(!bit(k1, d));
            crate::bits::lemma_pop_count_add_bit(k1, d);
            crate::bits::lemma_toggle_and(k1, k1, d);
        }
        assert forall|c: ChessColor| #[trigger] crate::bits::pop_count(spec_kings(t2, c)) == 1 by {
            if c != us {
                assert(c == them);
            }
        }
    }
}

/// Along a rank, the ray from file `f` towards file `fb` reaches `fb` when only that square is
/// occupied.
proof fn lemma_ray_reaches(f: int, r: int, d: int, fb: int)
    requires
        0 <= f < 8,
        0 <= r < 8,
        0 <= fb < 8,
        (d == 1 && fb > f) || (d == -1 && fb < f),
    ensures
        bit(
            crate::attacks::spec_ray(f, r, d, 0, 1u64 << (sq_at(fb, r) as u64)),
            sq_at(fb, r) as u64,
        ),
    decreases if fb > f {
        fb - f
    } else {
        f - fb
    },
{
    broadcast use group_bits;

    let occ = 1u64 << (sq_at(fb, r) as u64);
    let s = sq_at(f + d, r) as u64;
    assert(crate::squares::on_board(f + d, r));
    if f + d == fb {
        assert(bit(occ, s));
    } else {
        assert(!bit(occ, s));
        lemma_ray_reaches(f + d, r, d, fb);
    }
}

/// The squares from `a` to `b` on one rank include `b`.
proof fn lemma_ray_inclusive_end(a: int, b: int)
    requires
        0 <= a < 64,
        0 <= b < 64,
        crate::squares::rank_of(a) == crate::squares::rank_of(b),
    ensures
        bit(crate::attacks::spec_ray_inclusive(a, b), b as u64),
{
    broadcast use group_bits;

    if a != b {
        let fa = crate::squares::file_of(a);
        let fb = crate::squares::file_of(b);
        let r = crate::squares::rank_of(a);
        assert(b == sq_at(fb, r));
        assert(a == sq_at(fa, r));
        if fb > fa {
            lemma_ray_reaches(fa, r, 1, fb);
        } else {
            lemma_ray_reaches(fa, r, -1, fb);
        }
    }
}

/// The side on which `m` castles.
pub open spec fn spec_castle_side(m: ChessMove) -> CastleRight {
    if m.spec_flags() == ChessMoveFlags::CastleQueenside {
        CastleRight::Queenside
    } else {
        CastleRight::Kingside
    }
}

/// Castling pseudolegally keeps the hash up to date (before the castling part and the side to
/// move are updated).
#[verifier::rlimit(40)]
proof fn lemma_castle_keeps_hash(b: Chessboard, m: ChessMove, allowed: int, black: bool)
    requires
        b.wf(),
        spec_is_pseudolegal(b, m),
        m.spec_is_castle(),
        spec_hash_ok_with(crate::make_move::spec_mm_prelude(b), allowed, black),
    ensures
        spec_hash_ok_with(
            crate::make_move::spec_mm_castle(
                crate::make_move::spec_mm_prelude(b),
                m.spec_src(),
                m.spec_dest(),
                spec_castle_side(m),
            ),
            allowed,
            black,
        ),
        spec_all_squares_ok(crate::make_move::spec_mm_castle(
                crate::make_move::spec_mm_prelude(b),
                m.spec_src(),
                m.spec_dest(),
                spec_castle_side(m),
            )),
        forall|c: ChessColor| #[trigger] crate::bits::pop_count(spec_kings(crate::make_move::spec_mm_castle(
                crate::make_move::spec_mm_prelude(b),
                m.spec_src(),
                m.spec_dest(),
                spec_castle_side(m),
            ), c)) == 1,
{
    broadcast use group_bits;

    reveal(spec_is_pseudolegal);
    let b1 = crate::make_move::spec_mm_prelude(b);
    let side = if m.spec_flags() == ChessMoveFlags::CastleQueenside {
        CastleRight::Queenside
    } else {
        CastleRight::Kingside
    };
    let us = b.active_player;
    let from = m.spec_src() as u64;
    let rook = m.spec_dest() as u64;
    let rank = crate::squares::rank_of(from as int);
    let kd = sq_at(if side == CastleRight::Queenside { 2int } else { 6int }, rank) as u64;
    let rd = sq_at(if side == CastleRight::Queenside { 3int } else { 5int }, rank) as u64;
    let occ = b.spec_occupied();
    // the king and the rook
    lemma_consistent_square(b, from);
    lemma_consistent_square(b, rook);
    crate::movegen::lemma_piece_type_at(b, from);
    crate::movegen::lemma_piece_type_at(b, rook);
    assert(bit(b.spec_colored_piece_bb(us, ChessPieceType::King), from));
    crate::movegen::lemma_king_unique(b, us, from);
    assert(from as int == b.spec_king_square(us));
    assert(bit(b.spec_colored_piece_bb(us, ChessPieceType::Rook), rook));
    assert(from != rook);
    assert(!bit(b.color_bbs[0] & b.color_bbs[1], from));
    assert(!bit(b.color_bbs[0] & b.color_bbs[1], rook));
    assert(spec_color_at(b, from) == us);
    assert(spec_color_at(b, rook) == us);
    assert(crate::squares::rank_of(rook as int) == rank);
    assert(kd < 64 && rd < 64 && kd != rd);
    // the destination squares are free apart from the king and the rook
    assert(crate::movegen::spec_castling_pseudolegal(b, side));
    let kpath = crate::attacks::spec_ray_inclusive(from as int, kd as int) & !(1u64 << from);
    let rpath = crate::attacks::spec_ray_inclusive(rook as int, rd as int) & !(1u64 << rook);
    assert((occ ^ (1u64 << rook)) & kpath == 0);
    assert((occ ^ (1u64 << from)) & rpath == 0);
    assert(!bit(0u64, kd));
    assert(!bit(0u64, rd));
    if kd != from {
        lemma_ray_inclusive_end(from as int, kd as int);
        assert(bit(crate::attacks::spec_ray_inclusive(from as int, kd as int) & !(1u64 << from), kd));
        assert(!bit(occ ^ (1u64 << rook), kd));
        if kd != rook {
            assert(!bit(occ, kd));
            lemma_consistent_square(b, kd);
        }
    }
    if rd != rook {
        lemma_ray_inclusive_end(rook as int, rd as int);
        assert(bit(crate::attacks::spec_ray_inclusive(rook as int, rd as int) & !(1u64 << rook), rd));
        assert(!bit(occ ^ (1u64 << from), rd));
        if rd != from {
            assert(!bit(occ, rd));
            lemma_consistent_square(b, rd);
        }
    }
    lemma_consistent_all_squares(b);
    lemma_squares_frame(b1, b);
    // the king leaves
    lemma_same_at_transfer(b1, b, from, ChessPieceType::King, us);
    lemma_toggle_step(b1, from, ChessPieceType::King, us, allowed, black);
    lemma_toggle_bits(b1, from, ChessPieceType::King, us);
    let t1 = crate::make_move::spec_toggle(b1, from as int, ChessPieceType::King, us);
    // the rook leaves
    assert(spec_same_at(t1, b1, rook));
    lemma_same_at_transfer(t1, b, rook, ChessPieceType::Rook, us);
    lemma_toggle_step(t1, rook, ChessPieceType::Rook, us, allowed, black);
    lemma_toggle_bits(t1, rook, ChessPieceType::Rook, us);
    let t2 = crate::make_move::spec_toggle(t1, rook as int, ChessPieceType::Rook, us);
    assert(spec_same_at(t2, t1, from));
    assert(spec_empty_at(t1, from));
    lemma_same_at_transfer(t2, t1, from, ChessPieceType::King, us);
    // the king arrives
    if kd != from && kd != rook {
        assert(spec_same_at(t1, b1, kd));
        assert(spec_same_at(t2, t1, kd));
        lemma_same_at_transfer(t1, b, kd, ChessPieceType::King, us);
        lemma_same_at_transfer(t2, t1, kd, ChessPieceType::King, us);
    }
    assert(spec_empty_at(t2, kd));
    lemma_toggle_step(t2, kd, ChessPieceType::King, us, allowed, black);
    lemma_toggle_bits(t2, kd, ChessPieceType::King, us);
    let t3 = crate::make_move::spec_toggle(t2, kd as int, ChessPieceType::King, us);
    // the rook arrives
    assert(spec_same_at(t3, t2, rd));
    if rd != from && rd != rook {
        assert(spec_same_at(t1, b1, rd));
        assert(spec_same_at(t2, t1, rd));
        lemma_same_at_transfer(t1, b, rd, ChessPieceType::Rook, us);
        lemma_same_at_transfer(t2, t1, rd, ChessPieceType::Rook, us);
    } else if rd == rook {
        lemma_same_at_transfer(t2, t2, rd, ChessPieceType::Rook, us);
    }
    lemma_same_at_transfer(t3, t2, rd, ChessPieceType::Rook, us);
    assert(spec_empty_at(t3, rd));
    lemma_toggle_step(t3, rd, ChessPieceType::Rook, us, allowed, black);
    let t4 = crate::make_move::spec_toggle(t3, rd as int, ChessPieceType::Rook, us);
    lemma_hash_parts_frame(Chessboard { castling: t4.castling.spec_clear(us), ..t4 }, t4, allowed, black);
    lemma_squares_frame(Chessboard { castling: t4.castling.spec_clear(us), ..t4 }, t4);
    let them = us.spec_other();
    let k0 = spec_kings(b, us);
    assert(crate::bits::pop_count(k0) == 1);
    assert(crate::bits::pop_count(spec_kings(b, them)) == 1);
    assert(bit(k0, from));
    crate::bits::lemma_pop_count_remove_bit(k0, from);
    let k1 = k0 ^ (1u64 << from);
    assert(spec_kings(t2, us) == k1);
    assert(!bit(t2.color_bbs[us.spec_idx()], kd));
    assert(!bit(k1, kd));
    crate::bits::lemma_pop_count_add_bit(k1, kd);
    crate::bits::lemma_toggle_and(k1, k1, kd);
    assert(spec_kings(t4, us) == k1 ^ (1u64 << kd));
    assert(spec_kings(t4, them) == spec_kings(b, them));
    assert forall|c: ChessColor| #[trigger] crate::bits::pop_count(spec_kings(t4, c)) == 1 by {
        if c != us {
            assert(c == them);
        }
    }
}

/// In a valid position whose hash is up to date, playing a pseudolegal move updates the hash to
/// exactly the zobrist hash of the new position, as if computed from scratch.
pub proof fn law_make_move_keeps_hash(b: Chessboard, m: ChessMove)
    requires
        b.wf(),
        spec_is_pseudolegal(b, m),
        b.hash == crate::chessboard::spec_zobrist(b),
    ensures
        crate::make_move::spec_make_move_impl(b, m).hash == crate::chessboard::spec_zobrist(
            crate::make_move::spec_make_move_impl(b, m),
        ),
        crate::make_move::spec_make_move(b, m) is Some ==> crate::make_move::spec_make_move(
            b,
            m,
        ).unwrap().hash == crate::chessboard::spec_zobrist(
            crate::make_move::spec_make_move(b, m).unwrap(),
        ),
{
    lemma_impl_keeps_hash(b, m);
    reveal(crate::make_move::spec_make_move);
}

#[verifier::rlimit(40)]
proof fn lemma_impl_keeps_hash(b: Chessboard, m: ChessMove)
    requires
        b.wf(),
        spec_is_pseudolegal(b, m),
        b.hash == crate::chessboard::spec_zobrist(b),
    ensures
        crate::make_move::spec_make_move_impl(b, m).hash == crate::chessboard::spec_zobrist(
            crate::make_move::spec_make_move_impl(b, m),
        ),
{
    reveal(crate::make_move::spec_make_move_impl);
    reveal(spec_is_pseudolegal);
    let from = m.spec_src() as u64;
    let piece = crate::chessboard::spec_piece_type_at(b.piece_bbs, from);
    crate::movegen::lemma_piece_type_at(b, from);
    crate::bits::lemma_bit_or(b.color_bbs[0], b.color_bbs[1], from);
    assert(bit(b.spec_occupied(), from));
    assert(piece != ChessPieceType::Empty);
    let allowed = b.castling.spec_allowed();
    let black = b.active_player == ChessColor::Black;
    lemma_hash_parts_zobrist(b);
    lemma_prelude_keeps_hash(b, allowed, black);
    let b1 = crate::make_move::spec_mm_prelude(b);
    let side = if m.spec_flags() == ChessMoveFlags::CastleQueenside {
        CastleRight::Queenside
    } else {
        CastleRight::Kingside
    };
    let b2 = if m.spec_is_castle() && piece == ChessPieceType::King {
        lemma_castle_keeps_hash(b, m, allowed, black);
        crate::make_move::spec_mm_castle(b1, m.spec_src(), m.spec_dest(), side)
    } else {
        lemma_normal_keeps_hash(b, m, allowed, black);
        crate::make_move::spec_mm_normal(b1, m, piece)
    };
    assert(b2.active_player == b.active_player);
    assert(b2.ep_square.is_none());
    lemma_finish_keeps_hash(b2, allowed);
    let to = if m.spec_is_castle() && piece == ChessPieceType::King {
        sq_at(if side == CastleRight::Queenside { 2int } else { 6int }, crate::squares::rank_of(m.spec_src()))
    } else {
        m.spec_dest()
    };
    lemma_ep_keeps_hash(crate::make_move::spec_mm_finish(b2, allowed), piece, m.spec_src(), to);
}

/// Square `x` is empty or holds exactly one piece of one color.
pub open spec fn spec_square_ok(b: Chessboard, x: u64) -> bool {
    ||| spec_empty_at(b, x)
    ||| {
        let p = crate::chessboard::spec_piece_type_at(b.piece_bbs, x);
        let c = spec_color_at(b, x);
        &&& p != ChessPieceType::Empty
        &&& spec_toggle_ok(b, x, p, c)
        &&& bit(b.color_bbs[c.spec_idx()], x)
    }
}

/// Every square is empty or holds exactly one piece of one color.
pub open spec fn spec_all_squares_ok(b: Chessboard) -> bool {
    forall|x: u64| x < 64 ==> #[trigger] spec_square_ok(b, x)
}

proof fn lemma_consistent_all_squares(b: Chessboard)
    requires
        b.bitboards_consistent(),
    ensures
        spec_all_squares_ok(b),
{
    broadcast use group_bits;

    assert forall|x: u64| x < 64 implies #[trigger] spec_square_ok(b, x) by {
        lemma_consistent_square(b, x);
        crate::movegen::lemma_piece_type_at(b, x);
    }
}

proof fn lemma_all_squares_consistent(b: Chessboard)
    requires
        spec_all_squares_ok(b),
    ensures
        b.bitboards_consistent(),
{
    broadcast use group_bits;

    assert forall|x: u64| x < 64 implies !#[trigger] bit(b.color_bbs[0] & b.color_bbs[1], x) by {
        assert(spec_square_ok(b, x));
    }
    crate::bits::lemma_no_bits_zero(b.color_bbs[0] & b.color_bbs[1]);
    assert forall|i: int, j: int| 0 <= i < j < 6 implies #[trigger] b.piece_bbs[i] & #[trigger] b.piece_bbs[j] == 0 by {
        assert forall|x: u64| x < 64 implies !#[trigger] bit(b.piece_bbs[i] & b.piece_bbs[j], x) by {
            assert(spec_square_ok(b, x));
            crate::movegen::lemma_piece_type_at_bits(b.piece_bbs, x);
        }
        crate::bits::lemma_no_bits_zero(b.piece_bbs[i] & b.piece_bbs[j]);
    }
    let u = b.piece_bbs[0] | b.piece_bbs[1] | b.piece_bbs[2] | b.piece_bbs[3] | b.piece_bbs[4] | b.piece_bbs[5];
    let o = b.color_bbs[0] | b.color_bbs[1];
    assert forall|x: u64| x < 64 implies bit(u, x) == bit(o, x) by {
        assert(spec_square_ok(b, x));
        crate::movegen::lemma_piece_type_at_bits(b.piece_bbs, x);
    }
    crate::bits::lemma_bits_ext(u, o);
}

/// Toggling a piece on a square that holds nothing else keeps every square empty or holding one
/// piece.
proof fn lemma_toggle_keeps_squares(b: Chessboard, sq: u64, piece: ChessPieceType, color: ChessColor)
    requires
        sq < 64,
        piece != ChessPieceType::Empty,
        spec_toggle_ok(b, sq, piece, color),
        spec_all_squares_ok(b),
    ensures
        spec_all_squares_ok(crate::make_move::spec_toggle(b, sq as int, piece, color)),
{
    broadcast use group_bits;

    let t = crate::make_move::spec_toggle(b, sq as int, piece, color);
    lemma_toggle_bits(b, sq, piece, color);
    assert forall|x: u64| x < 64 implies #[trigger] spec_square_ok(t, x) by {
        assert(spec_square_ok(b, x));
        crate::movegen::lemma_piece_type_at_bits(b.piece_bbs, x);
        crate::movegen::lemma_piece_type_at_bits(t.piece_bbs, x);
        if x != sq {
            assert(spec_same_at(t, b, x));
            assert(crate::chessboard::spec_piece_type_at(t.piece_bbs, x) == crate::chessboard::spec_piece_type_at(b.piece_bbs, x));
            assert(spec_color_at(t, x) == spec_color_at(b, x));
            lemma_same_at_transfer(t, b, x, piece, color);
            if !spec_empty_at(b, x) {
                lemma_same_at_transfer(t, b, x, crate::chessboard::spec_piece_type_at(b.piece_bbs, x), spec_color_at(b, x));
            }
        } else if !bit(b.color_bbs[color.spec_idx()], sq) {
            assert(spec_toggle_ok(t, sq, piece, color));
            assert(bit(t.piece_bbs[piece.spec_idx()], sq));
            assert(crate::chessboard::spec_piece_type_at(t.piece_bbs, sq) == piece);
            assert(spec_color_at(t, sq) == color);
        }
    }
}

/// The kings of `c`.
pub open spec fn spec_kings(b: Chessboard, c: ChessColor) -> u64 {
    b.color_bbs[c.spec_idx()] & b.piece_bbs[5]
}

/// Toggling a piece other than a king leaves the kings alone; toggling a king toggles it in the
/// kings of its color.
proof fn lemma_toggle_kings(b: Chessboard, sq: u64, piece: ChessPieceType, color: ChessColor)
    requires
        sq < 64,
        piece != ChessPieceType::Empty,
        spec_toggle_ok(b, sq, piece, color),
    ensures
        spec_kings(crate::make_move::spec_toggle(b, sq as int, piece, color), color.spec_other()) == spec_kings(b, color.spec_other()),
        piece != ChessPieceType::King ==> spec_kings(crate::make_move::spec_toggle(b, sq as int, piece, color), color) == spec_kings(b, color),
        piece == ChessPieceType::King ==> spec_kings(crate::make_move::spec_toggle(b, sq as int, piece, color), color) == spec_kings(b, color) ^ (1u64 << sq),
{
    let t = crate::make_move::spec_toggle(b, sq as int, piece, color);
    lemma_toggle_fields(b, sq, piece, color);
    let x = b.color_bbs[color.spec_idx()];
    let o = b.color_bbs[color.spec_other().spec_idx()];
    let k = b.piece_bbs[5];
    if piece == ChessPieceType::King {
        assert(bit(x, sq) == bit(k, sq));
        crate::bits::lemma_toggle_and(x, k, sq);
        assert(!bit(o, sq));
        crate::bits::lemma_toggle_and(o, k, sq);
    } else {
        assert(!bit(k, sq));
        crate::bits::lemma_toggle_and(x, k, sq);
    }
}

/// The squares and the kings depend on the bitboards alone.
proof fn lemma_squares_frame(a: Chessboard, b: Chessboard)
    requires
        a.piece_bbs == b.piece_bbs,
        a.color_bbs == b.color_bbs,
    ensures
        spec_all_squares_ok(a) == spec_all_squares_ok(b),
        forall|c: ChessColor| #[trigger] spec_kings(a, c) == spec_kings(b, c),
{
    assert forall|x: u64| x < 64 implies (#[trigger] spec_square_ok(a, x)) == spec_square_ok(b, x) by {
        lemma_square_ok_frame(a, b, x);
    }
    assert forall|x: u64| x < 64 implies (#[trigger] spec_square_ok(b, x)) == spec_square_ok(a, x) by {
        lemma_square_ok_frame(a, b, x);
    }
}

proof fn lemma_square_ok_frame(a: Chessboard, b: Chessboard, x: u64)
    requires
        a.piece_bbs == b.piece_bbs,
        a.color_bbs == b.color_bbs,
    ensures
        spec_square_ok(a, x) == spec_square_ok(b, x),
{
    assert(spec_same_at(a, b, x));
    lemma_same_at_transfer(a, b, x, ChessPieceType::Pawn, ChessColor::White);
    assert(crate::chessboard::spec_piece_type_at(a.piece_bbs, x) == crate::chessboard::spec_piece_type_at(b.piece_bbs, x));
    assert(spec_color_at(a, x) == spec_color_at(b, x));
    if crate::chessboard::spec_piece_type_at(a.piece_bbs, x) != ChessPieceType::Empty {
        lemma_same_at_transfer(a, b, x, crate::chessboard::spec_piece_type_at(a.piece_bbs, x), spec_color_at(a, x));
    }
}

/// One toggle of a move: the hash stays up to date, every square keeps holding at most one piece,
/// and the kings change only when a king is toggled.
proof fn lemma_toggle_step(
    b: Chessboard,
    sq: u64,
    piece: ChessPieceType,
    color: ChessColor,
    allowed: int,
    black: bool,
)
    requires
        sq < 64,
        piece != ChessPieceType::Empty,
        spec_toggle_ok(b, sq, piece, color),
        spec_hash_ok_with(b, allowed, black),
        spec_all_squares_ok(b),
    ensures
        spec_hash_ok_with(crate::make_move::spec_toggle(b, sq as int, piece, color), allowed, black),
        spec_all_squares_ok(crate::make_move::spec_toggle(b, sq as int, piece, color)),
        spec_kings(crate::make_move::spec_toggle(b, sq as int, piece, color), color.spec_other()) == spec_kings(b, color.spec_other()),
        piece != ChessPieceType::King ==> spec_kings(crate::make_move::spec_toggle(b, sq as int, piece, color), color) == spec_kings(b, color),
        piece == ChessPieceType::King ==> spec_kings(crate::make_move::spec_toggle(b, sq as int, piece, color), color) == spec_kings(b, color) ^ (1u64 << sq),
{
    lemma_toggle_keeps_hash(b, sq, piece, color, allowed, black);
    lemma_toggle_keeps_squares(b, sq, piece, color);
    lemma_toggle_kings(b, sq, piece, color);
}

/// In a valid position whose hash is up to date, playing a pseudolegal move that does not capture a
/// king gives a valid position whose hash is up to date: every square holds at most one piece,
/// each player has one king, the castling rights and the en passant square are valid.
pub proof fn law_make_move_keeps_valid(b: Chessboard, m: ChessMove)
    requires
        b.wf(),
        b.hash == crate::chessboard::spec_zobrist(b),
        spec_is_pseudolegal(b, m),
        !bit(b.piece_bbs[5], m.spec_dest() as u64),
    ensures
        crate::make_move::spec_make_move_impl(b, m).wf(),
        crate::make_move::spec_make_move_impl(b, m).hash == crate::chessboard::spec_zobrist(
            crate::make_move::spec_make_move_impl(b, m),
        ),
        crate::make_move::spec_make_move(b, m) is Some ==> crate::make_move::spec_make_move(
            b,
            m,
        ).unwrap().wf(),
{
    law_make_move_keeps_hash(b, m);
    lemma_impl_keeps_valid(b, m);
    reveal(crate::make_move::spec_make_move);
}

#[verifier::rlimit(60)]
proof fn lemma_impl_keeps_valid(b: Chessboard, m: ChessMove)
    requires
        b.wf(),
        b.hash == crate::chessboard::spec_zobrist(b),
        spec_is_pseudolegal(b, m),
        !bit(b.piece_bbs[5], m.spec_dest() as u64),
    ensures
        crate::make_move::spec_make_move_impl(b, m).wf(),
{
    broadcast use group_bits;

    reveal(crate::make_move::spec_make_move_impl);
    reveal(spec_is_pseudolegal);
    let from = m.spec_src() as u64;
    let d = m.spec_dest() as u64;
    let us = b.active_player;
    let piece = crate::chessboard::spec_piece_type_at(b.piece_bbs, from);
    crate::movegen::lemma_piece_type_at(b, from);
    crate::bits::lemma_bit_or(b.color_bbs[0], b.color_bbs[1], from);
    assert(piece != ChessPieceType::Empty);
    let allowed = b.castling.spec_allowed();
    let black = us == ChessColor::Black;
    lemma_hash_parts_zobrist(b);
    lemma_prelude_keeps_hash(b, allowed, black);
    let b1 = crate::make_move::spec_mm_prelude(b);
    let side = spec_castle_side(m);
    let castles = m.spec_is_castle() && piece == ChessPieceType::King;
    let b2 = if castles {
        lemma_castle_keeps_hash(b, m, allowed, black);
        b.castling.lemma_unset_wf(us, side);
        crate::make_move::spec_mm_castle(b1, m.spec_src(), m.spec_dest(), side)
    } else {
        lemma_normal_keeps_hash(b, m, allowed, black);
        let bc = crate::make_move::spec_mm_capture(b1, m, piece);
        assert(bc.castling == b.castling);
        b.castling.lemma_unset_wf(us, CastleRight::Queenside);
        b.castling.lemma_unset_wf(us, CastleRight::Kingside);
        b.castling.spec_unset(us, CastleRight::Queenside).lemma_unset_wf(us.spec_other(), CastleRight::Queenside);
        b.castling.spec_unset(us, CastleRight::Queenside).lemma_unset_wf(us.spec_other(), CastleRight::Kingside);
        b.castling.spec_unset(us, CastleRight::Kingside).lemma_unset_wf(us.spec_other(), CastleRight::Queenside);
        b.castling.spec_unset(us, CastleRight::Kingside).lemma_unset_wf(us.spec_other(), CastleRight::Kingside);
        b.castling.spec_clear(us).lemma_unset_wf(us.spec_other(), CastleRight::Queenside);
        b.castling.spec_clear(us).lemma_unset_wf(us.spec_other(), CastleRight::Kingside);
        b.castling.lemma_unset_wf(us.spec_other(), CastleRight::Queenside);
        b.castling.lemma_unset_wf(us.spec_other(), CastleRight::Kingside);
        crate::make_move::spec_mm_normal(b1, m, piece)
    };
    assert(b2.castling.wf());
    assert(b2.ep_square.is_none());
    assert(spec_all_squares_ok(b2));
    let b3 = crate::make_move::spec_mm_finish(b2, allowed);
    lemma_squares_frame(b3, b2);
    let to = if castles {
        sq_at(if side == CastleRight::Queenside { 2int } else { 6int }, crate::squares::rank_of(m.spec_src()))
    } else {
        m.spec_dest()
    };
    let b4 = crate::make_move::spec_mm_ep(b3, piece, m.spec_src(), to);
    lemma_squares_frame(b4, b3);
    lemma_all_squares_consistent(b4);
    assert(spec_kings(b4, ChessColor::White) == b4.color_bbs[0] & b4.piece_bbs[5]);
    assert(spec_kings(b4, ChessColor::Black) == b4.color_bbs[1] & b4.piece_bbs[5]);
    assert(crate::bits::pop_count(spec_kings(b2, ChessColor::White)) == 1);
    assert(crate::bits::pop_count(spec_kings(b2, ChessColor::Black)) == 1);
    if b4.ep_square.is_some() {
        lemma_double_push_ep(b, m);
    }
}

/// After a double pawn push, the en passant square that may be set is the square the pawn passed,
/// which is empty, and the pawn stands behind it from the point of view of the player to move.
#[verifier::rlimit(40)]
proof fn lemma_double_push_ep(b: Chessboard, m: ChessMove)
    requires
        b.wf(),
        b.hash == crate::chessboard::spec_zobrist(b),
        spec_is_pseudolegal(b, m),
        !bit(b.piece_bbs[5], m.spec_dest() as u64),
        crate::make_move::spec_make_move_impl(b, m).ep_square.is_some(),
    ensures
        ({
            let n = crate::make_move::spec_make_move_impl(b, m);
            &&& n.ep_square.unwrap().wf()
            &&& !bit(n.spec_occupied(), n.ep_square.unwrap().idx as u64)
            &&& bit(
                n.spec_colored_piece_bb(n.active_player.spec_other(), ChessPieceType::Pawn),
                n.spec_ep_victim() as u64,
            )
        }),
{
    broadcast use group_bits;

    reveal(crate::make_move::spec_make_move_impl);
    reveal(spec_is_pseudolegal);
    reveal(crate::make_move::spec_calc_ep_sq);
    let from = m.spec_src() as u64;
    let d = m.spec_dest() as u64;
    let us = b.active_player;
    let white = us == ChessColor::White;
    let piece = crate::chessboard::spec_piece_type_at(b.piece_bbs, from);
    crate::movegen::lemma_piece_type_at(b, from);
    crate::bits::lemma_bit_or(b.color_bbs[0], b.color_bbs[1], from);
    let allowed = b.castling.spec_allowed();
    let black = us == ChessColor::Black;
    lemma_hash_parts_zobrist(b);
    lemma_prelude_keeps_hash(b, allowed, black);
    let b1 = crate::make_move::spec_mm_prelude(b);
    // only a double pawn push sets the en passant square
    assert(piece == ChessPieceType::Pawn);
    assert(!m.spec_is_castle());
    let rf = crate::squares::rank_of(from as int);
    let rd = crate::squares::rank_of(d as int);
    assert((rf == 1 && rd == 3) || (rf == 6 && rd == 4));
    assert(crate::squares::file_of(from as int) == crate::squares::file_of(d as int));
    if bit(spec_pawn_captures_of(b, from), d) {
        crate::movegen::lemma_pawn_capture_square(white, from as int, d);
    }
    assert(m.spec_flags() == ChessMoveFlags::DoublePawnPush);
    let push = if white { from + 8 } else { from - 8 };
    let free = !b.spec_occupied();
    assert(bit(free, push as u64));
    assert(bit(free, d));
    assert(!bit(b.spec_occupied(), push as u64));
    assert(!bit(b.spec_occupied(), d));
    assert(!bit(b.spec_colored_bb(us.spec_other()), d));
    lemma_normal_keeps_hash(b, m, allowed, black);
    let bc = crate::make_move::spec_mm_capture(b1, m, piece);
    assert(bc.piece_bbs == b.piece_bbs && bc.color_bbs == b.color_bbs);
    let bc2 = Chessboard { castling: crate::make_move::spec_mm_rights(bc, from as int, d as int, piece), ..bc };
    lemma_toggle_bits(bc2, from, piece, us);
    let t1 = crate::make_move::spec_toggle(bc2, from as int, piece, us);
    lemma_consistent_square(b, d);
    assert(spec_same_at(t1, bc2, d));
    lemma_same_at_transfer(t1, b, d, ChessPieceType::Pawn, us);
    lemma_toggle_bits(t1, d, ChessPieceType::Pawn, us);
    let t2 = crate::make_move::spec_toggle(t1, d as int, ChessPieceType::Pawn, us);
    assert(crate::make_move::spec_mm_normal(b1, m, piece) == t2);
    lemma_consistent_square(b, push as u64);
    assert(spec_same_at(t1, bc2, push as u64));
    assert(spec_same_at(t2, t1, push as u64));
    lemma_toggle_fields(t1, d, ChessPieceType::Pawn, us);
    let b3 = crate::make_move::spec_mm_finish(t2, allowed);
    let ep = crate::make_move::spec_pawn_passed_square(d as int, b3.active_player);
    assert(ep == push);
    assert(!bit(t2.color_bbs[0], push as u64));
    assert(!bit(t2.color_bbs[1], push as u64));
    assert(bit(t2.color_bbs[us.spec_idx()], d));
    assert(bit(t2.piece_bbs[0], d));
}

/// The squares a pawn of the player to move on `s` attacks.
spec fn spec_pawn_captures_of(b: Chessboard, s: u64) -> u64 {
    crate::attacks::spec_pawn_captures(b.active_player == ChessColor::White, s as int)
}


/// A normal pawn move goes one rank forward, so it is never mistaken for a double push.
proof fn lemma_pawn_step_one_rank(b: Chessboard, m: ChessMove)
    requires
        crate::movegen::spec_pawn_pseudolegal(b, m.spec_src(), m.spec_dest(), ChessMoveFlags::NormalMove),
        0 <= m.spec_src() < 64,
        0 <= m.spec_dest() < 64,
    ensures
        crate::squares::rank_of(m.spec_dest()) - crate::squares::rank_of(m.spec_src()) == 1
            || crate::squares::rank_of(m.spec_src()) - crate::squares::rank_of(m.spec_dest()) == 1,
{
    broadcast use group_bits;

    let src = m.spec_src();
    let dest = m.spec_dest();
    let white = b.active_player == ChessColor::White;
    let caps = crate::attacks::spec_pawn_captures(white, src);
    if bit(caps, dest as u64) {
        let dr: int = if white { 1 } else { -1 };
        let l = crate::attacks::spec_offset(src, -1, dr);
        let r = crate::attacks::spec_offset(src, 1, dr);
        assert(caps == l | r);
        if bit(l, dest as u64) {
            if !crate::squares::on_board(crate::squares::file_of(src) - 1, crate::squares::rank_of(src) + dr) {
                assert(l == 0);
            }
        } else {
            assert(bit(r, dest as u64));
            if !crate::squares::on_board(crate::squares::file_of(src) + 1, crate::squares::rank_of(src) + dr) {
                assert(r == 0);
            }
        }
    }
}

/// Playing a quiet move (a normal move that is not en passant, a promotion, castling or a double
/// pawn push) in a valid position without an en passant square, when it changes no castling
/// right, gives exactly the hash that [`Chessboard::approx_hash_after`] predicts.
pub proof fn law_approx_hash_of_quiet_move(b: Chessboard, m: ChessMove)
    requires
        b.wf(),
        spec_is_pseudolegal(b, m),
        crate::make_move::spec_make_move(b, m) is Some,
        m.spec_flags() == ChessMoveFlags::NormalMove,
        b.ep_square.is_none(),
        crate::make_move::spec_make_move(b, m).unwrap().castling == b.castling,
    ensures
        crate::zobrist::spec_approx_hash_after(b, m) == crate::make_move::spec_make_move(b, m).unwrap().hash,
{
    broadcast use group_bits;

    reveal(crate::make_move::spec_make_move);
    reveal(crate::make_move::spec_make_move_impl);
    reveal(spec_is_pseudolegal);
    let us = b.active_player;
    let them = us.spec_other();
    let from = m.spec_src();
    let to = m.spec_dest();
    crate::moves::lemma_move_bits(m.0);
    crate::movegen::lemma_piece_type_at(b, from as u64);
    crate::movegen::lemma_piece_type_at(b, to as u64);
    let piece = crate::chessboard::spec_piece_type_at(b.piece_bbs, from as u64);
    let captured = crate::chessboard::spec_piece_type_at(b.piece_bbs, to as u64);
    assert(piece != ChessPieceType::Empty);
    assert(!m.spec_is_castle());
    let b1 = crate::make_move::spec_mm_prelude(b);
    assert(b1.hash == b.hash);
    let bc = crate::make_move::spec_mm_capture(b1, m, piece);
    let h = b.hash.0;
    let kc = spec_piece_key(captured, them, to);
    let kf = spec_piece_key(piece, us, from);
    let kt = spec_piece_key(piece, us, to);
    let side = crate::zobrist::SIDE_TO_MOVE_KEY;
    assert(!bit(b.spec_colored_bb(us), to as u64));
    if captured != ChessPieceType::Empty {
        assert(bit(b.spec_colored_bb(them), to as u64));
        assert(bc.hash.0 == h ^ kc);
    } else {
        assert(!bit(b.spec_colored_bb(them), to as u64));
        assert(bc.hash.0 == h);
    }
    let b2 = crate::make_move::spec_mm_normal(b1, m, piece);
    let hc = bc.hash.0;
    assert(b2.hash.0 == hc ^ kf ^ kt);
    let b3 = crate::make_move::spec_mm_finish(b2, b.castling.spec_allowed());
    if piece == ChessPieceType::Pawn {
        lemma_pawn_step_one_rank(b, m);
    }
    let n = crate::make_move::spec_make_move_impl(b, m);
    assert(n == crate::make_move::spec_mm_ep(b3, piece, from, to));
    assert(n == b3);
    assert(n.castling == b.castling);
    let ck = crate::zobrist::CASTLE_KEYS[b.castling.spec_allowed()];
    assert(n.hash.0 == hc ^ kf ^ kt ^ ck ^ ck ^ side);
    crate::bits::lemma_and_or_comm(hc ^ kf ^ kt, ck, 0);
    // Both hashes are `h ^ kt ^ kf ^ side`, with `kc` xored in after a capture.
    crate::bits::lemma_and_or_comm(hc, kf, kt);
    crate::bits::lemma_and_or_comm(kf, kt, 0);
    if captured != ChessPieceType::Empty {
        crate::bits::lemma_and_or_comm(h, kc, kf ^ kt);
        crate::bits::lemma_and_or_comm(kc, kf ^ kt, 0);
        crate::bits::lemma_and_or_comm(h, kf ^ kt, kc);
        crate::bits::lemma_and_or_comm(h ^ (kf ^ kt), kc, side);
        crate::bits::lemma_and_or_comm(kc, side, 0);
        crate::bits::lemma_and_or_comm(h ^ (kf ^ kt), side, kc);
        crate::bits::lemma_and_or_comm(h, kt, kf);
        crate::bits::lemma_and_or_comm(h, kf, kt);
    } else {
        crate::bits::lemma_and_or_comm(h, kt, kf);
        crate::bits::lemma_and_or_comm(h, kf, kt);
    }
}


/// Playing a move that neither captures, promotes nor pushes a pawn by two squares, in a valid
/// position without an en passant square and without changing a castling right, gives exactly
/// the hash that [`Chessboard::approximate_zobrist_after_move`] computes from the moving piece.
pub proof fn law_approximate_zobrist_after_move(b: Chessboard, m: ChessMove)
    requires
        b.wf(),
        spec_is_pseudolegal(b, m),
        crate::make_move::spec_make_move(b, m) is Some,
        m.spec_flags() != ChessMoveFlags::DoublePawnPush,
        !m.spec_flags().spec_is_promo(),
        m.spec_flags() != ChessMoveFlags::EnPassant,
        !bit(b.spec_colored_bb(b.active_player.spec_other()), m.spec_dest() as u64),
        b.ep_square.is_none(),
        crate::make_move::spec_make_move(b, m).unwrap().castling == b.castling,
    ensures
        b.hash.0 ^ spec_piece_key(
            crate::chessboard::spec_piece_type_at(b.piece_bbs, m.spec_src() as u64),
            b.active_player,
            m.spec_dest(),
        ) ^ spec_piece_key(
            crate::chessboard::spec_piece_type_at(b.piece_bbs, m.spec_src() as u64),
            b.active_player,
            m.spec_src(),
        ) ^ crate::zobrist::SIDE_TO_MOVE_KEY == crate::make_move::spec_make_move(b, m).unwrap().hash.0,
{
    broadcast use group_bits;

    let us = b.active_player;
    crate::moves::lemma_move_bits(m.0);
    if m.spec_is_castle() {
        reveal(crate::make_move::spec_make_move);
        reveal(crate::make_move::spec_make_move_impl);
        reveal(spec_is_pseudolegal);
        let side = if m.spec_flags() == ChessMoveFlags::CastleQueenside {
            CastleRight::Queenside
        } else {
            CastleRight::Kingside
        };
        assert(b.castling.right(us, side).is_some());
        assert(false);
    }
    assert(m.spec_flags() == ChessMoveFlags::NormalMove);
    law_approx_hash_of_quiet_move(b, m);
    crate::movegen::lemma_piece_type_at(b, m.spec_dest() as u64);
    reveal(spec_is_pseudolegal);
    assert(!bit(b.spec_colored_bb(us), m.spec_dest() as u64));
    assert(crate::chessboard::spec_piece_type_at(b.piece_bbs, m.spec_dest() as u64) == ChessPieceType::Empty);
}

} // verus!
