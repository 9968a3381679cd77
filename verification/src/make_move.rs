//! Playing chess moves: updating the bitboards, castling rights, en passant square,
//! counters and the zobrist hash.
use vstd::prelude::*;
use vstd::array::spec_array_update;
use crate::attacks::{
    bishop_attacks, rook_attacks, spec_bishop_attacks, spec_king_attacks, spec_knight_attacks,
    spec_pawn_captures, spec_rook_attacks,
};
use crate::bits::bit;
use crate::movegen::{spec_generated, spec_in_check_on, spec_is_pseudolegal};
use crate::bits::{has_bit, pop_lsb};
use crate::castling::CastleRight;
use crate::chessboard::{Board, Chessboard};
use crate::games::PosHash;
use crate::moves::{ChessMove, ChessMoveFlags};
use rand::rngs::StdRng;
use crate::pieces::{ChessColor, ChessPieceType};
use crate::squares::ChessSquare;
use crate::zobrist::{castle_key, ep_file_key, piece_key, CASTLE_KEYS, EP_FILE_KEYS, SIDE_TO_MOVE_KEY};
use crate::chessboard::spec_piece_type_at;
use crate::squares::{file_of, rank_of, sq_at};
use crate::castling::CastlingFlags;

verus! {

/// `b` with `piece` of `color` toggled on square `sq`, in the bitboards and in the hash.
pub open spec fn spec_toggle(b: Chessboard, sq: int, piece: ChessPieceType, color: ChessColor) -> Chessboard {
    let bb = 1u64 << (sq as u64);
    Chessboard {
        piece_bbs: spec_array_update(b.piece_bbs, piece.spec_idx(), b.piece_bbs[piece.spec_idx()] ^ bb),
        color_bbs: spec_array_update(b.color_bbs, color.spec_idx(), b.color_bbs[color.spec_idx()] ^ bb),
        hash: PosHash(b.hash.0 ^ crate::zobrist::spec_piece_key(piece, color, sq)),
        ..b
    }
}

/// Whether, in `b`, the player to move can capture en passant with the pawn on `pawn` onto `ep`,
/// taking the pawn on `victim`, without leaving the own king attacked.
#[verifier::opaque]
pub open spec fn spec_ep_capture_is_legal(b: Chessboard, pawn: int, ep: int, victim: int) -> bool {
    let them = b.active_player;
    let us = them.spec_other();
    let king = b.spec_king_square(them);
    let occ = (b.spec_occupied() ^ (1u64 << pawn as u64) ^ (1u64 << victim as u64)) | (1u64
        << ep as u64);
    let attackers = b.spec_colored_bb(us) & !(1u64 << victim as u64);
    let rook_sliders = (b.piece_bbs[3] | b.piece_bbs[4]) & attackers;
    let bishop_sliders = (b.piece_bbs[2] | b.piece_bbs[4]) & attackers;
    let attacked = (rook_sliders & spec_rook_attacks(king, occ)) | (bishop_sliders
        & spec_bishop_attacks(king, occ)) | (spec_knight_attacks(king) & b.piece_bbs[1] & attackers)
        | (spec_king_attacks(king) & b.piece_bbs[5] & attackers) | (spec_pawn_captures(
        them == ChessColor::White,
        king,
    ) & b.piece_bbs[0] & attackers);
    attacked == 0
}

/// The square a pawn of the player who is not `mover`'s opponent passed over: one rank behind `to`
/// from the point of view of the pawn's owner, where `mover` is the player to move after the push.
pub open spec fn spec_pawn_passed_square(to: int, mover: ChessColor) -> int {
    if mover == ChessColor::White {
        to + 8
    } else {
        to - 8
    }
}

/// The pawns of the player to move in `b` that attack the square passed over by the double pawn
/// push to `to` that was just played.
pub open spec fn spec_ep_candidates(b: Chessboard, to: int) -> u64 {
    let them = b.active_player;
    spec_pawn_captures(them.spec_other() == ChessColor::White, spec_pawn_passed_square(to, them))
        & b.spec_colored_piece_bb(them, ChessPieceType::Pawn)
}

/// After a double pawn push to `to`, the en passant square, set only if the player to move has a
/// legal en passant capture.
#[verifier::opaque]
pub open spec fn spec_calc_ep_sq(b: Chessboard, to: int) -> Option<ChessSquare> {
    let ep = spec_pawn_passed_square(to, b.active_player);
    if exists|d: u64|
        d < 64 && #[trigger] bit(spec_ep_candidates(b, to), d) && spec_ep_capture_is_legal(
            b,
            d as int,
            ep,
            to,
        ) {
        Some(ChessSquare { idx: ep as u8 })
    } else {
        None
    }
}

/// The first step of every move: the halfmove clock advances and the en passant square is cleared.
pub open spec fn spec_mm_prelude(b: Chessboard) -> Chessboard {
    Chessboard {
        ply_100_ctr: vstd::wrapping::usize_specs::wrapping_add(b.ply_100_ctr, 1),
        ep_square: None,
        hash: match b.ep_square {
            Some(ep) => PosHash(b.hash.0 ^ EP_FILE_KEYS[file_of(ep.idx as int)]),
            None => b.hash,
        },
        ..b
    }
}

/// The king of `us` castles from `from` with the rook on `rook` on `side`: both are taken off the
/// board, then put onto their destination squares, and `us` loses both castling rights.
pub open spec fn spec_mm_castle(b: Chessboard, from: int, rook: int, side: CastleRight) -> Chessboard {
    let us = b.active_player;
    let rank = rank_of(from);
    let king_dest = sq_at(if side == CastleRight::Queenside { 2int } else { 6int }, rank);
    let rook_dest = sq_at(if side == CastleRight::Queenside { 3int } else { 5int }, rank);
    let t = spec_toggle(
        spec_toggle(
            spec_toggle(spec_toggle(b, from, ChessPieceType::King, us), rook, ChessPieceType::Rook, us),
            king_dest,
            ChessPieceType::King,
            us,
        ),
        rook_dest,
        ChessPieceType::Rook,
        us,
    );
    Chessboard { castling: t.castling.spec_clear(us), ..t }
}

/// Removes what `mov` captures (the pawn passed by an en passant capture, or the opposing piece on
/// the destination square), and resets the halfmove clock on captures and pawn moves.
pub open spec fn spec_mm_capture(b: Chessboard, mov: ChessMove, piece: ChessPieceType) -> Chessboard {
    let from = mov.spec_src();
    let to = mov.spec_dest();
    let them = b.active_player.spec_other();
    if mov.spec_flags() == ChessMoveFlags::EnPassant && piece == ChessPieceType::Pawn {
        let victim = sq_at(file_of(to), rank_of(from));
        let t = if spec_piece_type_at(b.piece_bbs, victim as u64) == ChessPieceType::Pawn {
            spec_toggle(b, victim, ChessPieceType::Pawn, them)
        } else {
            b
        };
        Chessboard { ply_100_ctr: 0, ..t }
    } else if bit(b.spec_colored_bb(them), to as u64) {
        let captured = spec_piece_type_at(b.piece_bbs, to as u64);
        let t = if captured != ChessPieceType::Empty {
            spec_toggle(b, to, captured, them)
        } else {
            b
        };
        Chessboard { ply_100_ctr: 0, ..t }
    } else if piece == ChessPieceType::Pawn {
        Chessboard { ply_100_ctr: 0, ..b }
    } else {
        b
    }
}

/// The castling rights after a non-castling move of `piece` from `from` to `to`: a king move loses
/// both rights of the mover, a move from a castling rook's square or onto one loses that right.
pub open spec fn spec_mm_rights(b: Chessboard, from: int, to: int, piece: ChessPieceType) -> CastlingFlags {
    let us = b.active_player;
    let them = us.spec_other();
    let c1 = if piece == ChessPieceType::King {
        b.castling.spec_clear(us)
    } else if from == b.spec_rook_start_square(us, CastleRight::Queenside) {
        b.castling.spec_unset(us, CastleRight::Queenside)
    } else if from == b.spec_rook_start_square(us, CastleRight::Kingside) {
        b.castling.spec_unset(us, CastleRight::Kingside)
    } else {
        b.castling
    };
    let b1 = Chessboard { castling: c1, ..b };
    if to == b1.spec_rook_start_square(them, CastleRight::Queenside) {
        c1.spec_unset(them, CastleRight::Queenside)
    } else if to == b1.spec_rook_start_square(them, CastleRight::Kingside) {
        c1.spec_unset(them, CastleRight::Kingside)
    } else {
        c1
    }
}

/// A move that does not castle: captures, castling rights, then the piece leaves `from` and
/// arrives on the destination square, promoted if the move is a pawn's promotion.
pub open spec fn spec_mm_normal(b: Chessboard, mov: ChessMove, piece: ChessPieceType) -> Chessboard {
    let from = mov.spec_src();
    let to = mov.spec_dest();
    let us = b.active_player;
    let bc = spec_mm_capture(b, mov, piece);
    let bc2 = Chessboard { castling: spec_mm_rights(bc, from, to, piece), ..bc };
    let moved = if mov.spec_flags().spec_is_promo() && piece == ChessPieceType::Pawn {
        mov.spec_flags().spec_promo_piece()
    } else {
        piece
    };
    spec_toggle(spec_toggle(bc2, from, piece, us), to, moved, us)
}

/// The end of every move: the castling part of the hash is updated, the ply advances and the other
/// player is to move.
pub open spec fn spec_mm_finish(b: Chessboard, old_allowed: int) -> Chessboard {
    Chessboard {
        hash: PosHash(
            b.hash.0 ^ CASTLE_KEYS[old_allowed] ^ CASTLE_KEYS[b.castling.spec_allowed()]
                ^ SIDE_TO_MOVE_KEY,
        ),
        ply: vstd::wrapping::usize_specs::wrapping_add(b.ply, 1),
        active_player: b.active_player.spec_other(),
        ..b
    }
}

/// After a double pawn push from `from` to `to` (on the same file), the en passant square is set if
/// the player now to move can capture en passant legally.
pub open spec fn spec_mm_ep(b: Chessboard, piece: ChessPieceType, from: int, to: int) -> Chessboard {
    if piece == ChessPieceType::Pawn && ((rank_of(from) == 1 && rank_of(to) == 3) || (rank_of(from)
        == 6 && rank_of(to) == 4)) && file_of(from) == file_of(to) {
        match spec_calc_ep_sq(b, to) {
            Some(sq) => Chessboard {
                hash: PosHash(b.hash.0 ^ EP_FILE_KEYS[file_of(sq.idx as int)]),
                ep_square: Some(sq),
                ..b
            },
            None => b,
        }
    } else {
        b
    }
}

/// The position after playing `mov` in `b` without checking legality; `b` itself if the source
/// square of `mov` is empty.
#[verifier::opaque]
pub open spec fn spec_make_move_impl(b: Chessboard, mov: ChessMove) -> Chessboard {
    let from = mov.spec_src();
    let piece = spec_piece_type_at(b.piece_bbs, from as u64);
    if piece == ChessPieceType::Empty {
        b
    } else {
        let b1 = spec_mm_prelude(b);
        let castles = mov.spec_is_castle() && piece == ChessPieceType::King;
        let side = if mov.spec_flags() == ChessMoveFlags::CastleQueenside {
            CastleRight::Queenside
        } else {
            CastleRight::Kingside
        };
        let b2 = if castles {
            spec_mm_castle(b1, from, mov.spec_dest(), side)
        } else {
            spec_mm_normal(b1, mov, piece)
        };
        let to = if castles {
            sq_at(if side == CastleRight::Queenside { 2int } else { 6int }, rank_of(from))
        } else {
            mov.spec_dest()
        };
        spec_mm_ep(spec_mm_finish(b2, b.castling.spec_allowed()), piece, from, to)
    }
}

/// The squares the king crosses when castling with `mov`, both ends included.
pub open spec fn spec_castle_path(mov: ChessMove) -> u64 {
    let from = mov.spec_src();
    let king_dest = sq_at(
        if mov.spec_flags() == ChessMoveFlags::CastleQueenside {
            2int
        } else {
            6int
        },
        rank_of(from),
    );
    crate::attacks::spec_ray_inclusive(from, king_dest)
}

/// A castling move must not start on, pass or end on a square where the king would be in check;
/// other moves are not restricted.
#[verifier::opaque]
pub open spec fn spec_castling_path_safe(b: Chessboard, mov: ChessMove) -> bool {
    mov.spec_is_castle() ==> forall|d: u64|
        d < 64 && #[trigger] bit(spec_castle_path(mov), d) ==> !spec_in_check_on(
            b,
            b.active_player,
            d as int,
        )
}

/// Playing `mov` in `b`: `None` if it castles out of, through or into check or leaves the own
/// king in check, else the position after the move.
#[verifier::opaque]
pub open spec fn spec_make_move(b: Chessboard, mov: ChessMove) -> Option<Chessboard> {
    let us = b.active_player;
    let n = spec_make_move_impl(b, mov);
    if !spec_castling_path_safe(b, mov) {
        None
    } else if spec_in_check_on(n, us, n.spec_king_square(us)) {
        None
    } else {
        Some(n)
    }
}

/// Whether the player to move in `b` has a legal move.
pub open spec fn spec_has_legal_move(b: Chessboard) -> bool {
    exists|m: ChessMove| #[trigger] spec_generated(b, m, false) && spec_make_move(b, m).is_some()
}

impl Chessboard {
    /// Toggles `piece` of `color` on `square` in the bitboards and the hash.
    fn toggle_piece(&mut self, square: ChessSquare, piece: ChessPieceType, color: ChessColor)
        requires
            square.wf(),
            piece != ChessPieceType::Empty,
        ensures
            *final(self) == spec_toggle(*old(self), square.idx as int, piece, color),
    {
        let bb = square.bb();
        let pi = piece.idx();
        let ci = color.idx();
        let ghost b0 = *self;
        self.piece_bbs[pi] = self.piece_bbs[pi] ^ bb;
        self.color_bbs[ci] = self.color_bbs[ci] ^ bb;
        self.hash = PosHash(self.hash.0 ^ piece_key(piece, color, square).0);
        proof {
            let t = spec_toggle(b0, square.idx as int, piece, color);
            vstd::array::axiom_spec_array_update(b0.piece_bbs, piece.spec_idx(), b0.piece_bbs[piece.spec_idx()] ^ bb);
            vstd::array::axiom_spec_array_update(b0.color_bbs, color.spec_idx(), b0.color_bbs[color.spec_idx()] ^ bb);
            vstd::array::axiom_array_ext_equal(self.piece_bbs, t.piece_bbs);
            vstd::array::axiom_array_ext_equal(self.color_bbs, t.color_bbs);
            assert(self.piece_bbs =~= t.piece_bbs);
            assert(self.color_bbs =~= t.color_bbs);
        }
    }

    /// Whether the player `them` (to move in `self`) can capture en passant with the pawn on `pawn`
    /// onto `ep` (capturing the pawn on `victim`) without leaving their king in check.
    pub fn ep_capture_is_legal(
        &self,
        pawn: ChessSquare,
        ep: ChessSquare,
        victim: ChessSquare,
    ) -> (r: bool)
        requires
            pawn.wf(),
            ep.wf(),
            victim.wf(),
        ensures
            r == spec_ep_capture_is_legal(*self, pawn.idx as int, ep.idx as int, victim.idx as int),
    {
        reveal(spec_ep_capture_is_legal);
        let them = self.active_player;
        let us = them.other();
        let king = self.king_square(them);
        let occ = (self.occupied_bb() ^ pawn.bb() ^ victim.bb()) | ep.bb();
        let attackers = self.colored_bb(us) & !victim.bb();
        let rook_sliders = (self.piece_bbs[3] | self.piece_bbs[4]) & attackers;
        let bishop_sliders = (self.piece_bbs[2] | self.piece_bbs[4]) & attackers;
        let attacked = (rook_sliders & rook_attacks(king, occ)) | (bishop_sliders & bishop_attacks(
            king,
            occ,
        )) | (Board::knight_attacks_from(king) & self.piece_bbs[1] & attackers) | (
        Board::normal_king_attacks_from(king) & self.piece_bbs[5] & attackers) | (Board::single_pawn_captures(
            them,
            king,
        ) & self.piece_bbs[0] & attackers);
        attacked == 0
    }

    /// After a double pawn push to `to` by the player who just moved, the en passant square if the
    /// player to move has a legal en passant capture.
    #[verifier::rlimit(40)]
    fn calc_ep_sq(&self, to: ChessSquare) -> (r: Option<ChessSquare>)
        requires
            to.wf(),
            to.spec_rank() == 3 || to.spec_rank() == 4,
        ensures
            r == spec_calc_ep_sq(*self, to.idx as int),
            r.is_some() ==> r.unwrap().wf(),
    {
        reveal(spec_calc_ep_sq);
        let them = self.active_player;
        let white_them = them == ChessColor::White;
        let ep_sq = to.pawn_advance_unchecked(white_them);
        let all = Board::single_pawn_captures(them.other(), ep_sq) & self.colored_piece_bb(
            them,
            ChessPieceType::Pawn,
        );
        let mut candidates = all;
        while candidates != 0
            invariant
                to.wf(),
                ep_sq.wf(),
                ep_sq.idx == spec_pawn_passed_square(to.idx as int, them),
                them == self.active_player,
                all == spec_ep_candidates(*self, to.idx as int),
                forall|d: u64| d < 64 && #[trigger] bit(candidates, d) ==> bit(all, d),
                forall|d: u64|
                    d < 64 && #[trigger] bit(all, d) && !bit(candidates, d) ==> !spec_ep_capture_is_legal(
                        *self,
                        d as int,
                        ep_sq.idx as int,
                        to.idx as int,
                    ),
            decreases candidates,
        {
            let ghost old_c = candidates;
            let (i, rest) = pop_lsb(candidates);
            candidates = rest;
            assert(forall|d: u64| d < 64 ==> #[trigger] bit(candidates, d) == (bit(old_c, d) && d != i));
            let pawn_sq = ChessSquare::from_bb_idx(i as usize);
            if self.ep_capture_is_legal(pawn_sq, ep_sq, to) {
                assert(bit(all, i as u64));
                let ghost d = i as u64;
                assert(bit(spec_ep_candidates(*self, to.idx as int), d));
                assert(spec_ep_capture_is_legal(*self, d as int, ep_sq.idx as int, to.idx as int));
                let ghost ep = spec_pawn_passed_square(to.idx as int, self.active_player);
                assert(exists|d: u64|
                    d < 64 && #[trigger] bit(spec_ep_candidates(*self, to.idx as int), d)
                        && spec_ep_capture_is_legal(*self, d as int, ep, to.idx as int));
                assert(ep_sq == ChessSquare { idx: ep as u8 });
                assert(spec_calc_ep_sq(*self, to.idx as int) == Some(ChessSquare { idx: ep as u8 })) by {
                    reveal(spec_calc_ep_sq);
                }
                return Some(ep_sq);
            }
        }
        proof {
            assert forall|d: u64| d < 64 && #[trigger] bit(all, d) implies !spec_ep_capture_is_legal(
                *self,
                d as int,
                ep_sq.idx as int,
                to.idx as int,
            ) by {
                crate::bits::lemma_bit_zero(d);
            }
        }
        None
    }

    /// Advances the halfmove clock and clears the en passant square.
    fn mm_prelude(&mut self)
        requires
            old(self).ep_square.is_some() ==> old(self).ep_square.unwrap().wf(),
        ensures
            *final(self) == spec_mm_prelude(*old(self)),
    {
        self.ply_100_ctr = self.ply_100_ctr.wrapping_add(1);
        if let Some(ep) = self.ep_square {
            self.hash = PosHash(self.hash.0 ^ ep_file_key(ep.file()));
            self.ep_square = None;
        }
    }

    /// Castles the king on `from` with the rook on `rook`.
    fn mm_castle(&mut self, from: ChessSquare, rook: ChessSquare, side: CastleRight)
        requires
            from.wf(),
            rook.wf(),
            old(self).castling.wf(),
        ensures
            *final(self) == spec_mm_castle(*old(self), from.idx as int, rook.idx as int, side),
            final(self).castling.wf(),
    {
        let us = self.active_player;
        let rank = from.rank();
        let king_dest = ChessSquare::from_rank_file(rank, side.king_dest_file());
        let rook_dest = ChessSquare::from_rank_file(rank, side.rook_dest_file());
        self.toggle_piece(from, ChessPieceType::King, us);
        self.toggle_piece(rook, ChessPieceType::Rook, us);
        self.toggle_piece(king_dest, ChessPieceType::King, us);
        self.toggle_piece(rook_dest, ChessPieceType::Rook, us);
        self.castling.clear_castle_rights(us);
    }

    /// Removes what `mov` captures and resets the halfmove clock where due.
    fn mm_capture(&mut self, mov: ChessMove, piece: ChessPieceType)
        ensures
            *final(self) == spec_mm_capture(*old(self), mov, piece),
    {
        let from = mov.src_square();
        let to = mov.dest_square();
        let them = self.active_player.other();
        if mov.is_ep() && piece == ChessPieceType::Pawn {
            let rank = from.rank();
            let victim = ChessSquare::from_rank_file(rank, to.file());
            if self.piece_type_on(victim) == ChessPieceType::Pawn {
                self.toggle_piece(victim, ChessPieceType::Pawn, them);
            }
            self.ply_100_ctr = 0;
        } else if has_bit(self.colored_bb(them), to.idx) {
            let captured = self.piece_type_on(to);
            if captured != ChessPieceType::Empty {
                self.toggle_piece(to, captured, them);
            }
            self.ply_100_ctr = 0;
        } else if piece == ChessPieceType::Pawn {
            self.ply_100_ctr = 0;
        }
    }

    /// Updates the castling rights for a non-castling move of `piece` from `from` to `to`.
    fn mm_rights(&mut self, from: ChessSquare, to: ChessSquare, piece: ChessPieceType)
        requires
            old(self).castling.wf(),
        ensures
            *final(self) == (Chessboard {
                castling: spec_mm_rights(*old(self), from.idx as int, to.idx as int, piece),
                ..*old(self)
            }),
            final(self).castling.wf(),
    {
        let us = self.active_player;
        let them = us.other();
        if piece == ChessPieceType::King {
            self.castling.clear_castle_rights(us);
        } else if from == self.rook_start_square(us, CastleRight::Queenside) {
            self.castling.unset_castle_right(us, CastleRight::Queenside);
        } else if from == self.rook_start_square(us, CastleRight::Kingside) {
            self.castling.unset_castle_right(us, CastleRight::Kingside);
        }
        if to == self.rook_start_square(them, CastleRight::Queenside) {
            self.castling.unset_castle_right(them, CastleRight::Queenside);
        } else if to == self.rook_start_square(them, CastleRight::Kingside) {
            self.castling.unset_castle_right(them, CastleRight::Kingside);
        }
    }

    /// Plays a move that does not castle.
    fn mm_normal(&mut self, mov: ChessMove, piece: ChessPieceType)
        requires
            old(self).castling.wf(),
            piece != ChessPieceType::Empty,
        ensures
            *final(self) == spec_mm_normal(*old(self), mov, piece),
            final(self).castling.wf(),
    {
        let from = mov.src_square();
        let to = mov.dest_square();
        let us = self.active_player;
        self.mm_capture(mov, piece);
        self.mm_rights(from, to, piece);
        self.toggle_piece(from, piece, us);
        let mut moved_piece = piece;
        if mov.is_promotion() && piece == ChessPieceType::Pawn {
            moved_piece = mov.promo_piece();
        }
        self.toggle_piece(to, moved_piece, us);
    }

    /// Updates the hash for the castling rights and the side to move, advances the ply and passes
    /// the turn.
    fn mm_finish(&mut self, old_allowed: usize)
        requires
            old_allowed < 16,
        ensures
            *final(self) == spec_mm_finish(*old(self), old_allowed as int),
    {
        let new_castling = self.castling.allowed_castling_directions();
        self.hash = PosHash(self.hash.0 ^ castle_key(old_allowed) ^ castle_key(new_castling));
        self.ply = self.ply.wrapping_add(1);
        self.active_player = self.active_player.other();
        self.hash = PosHash(self.hash.0 ^ SIDE_TO_MOVE_KEY);
    }

    /// Sets the en passant square after a double pawn push.
    fn mm_ep(&mut self, piece: ChessPieceType, from: ChessSquare, to: ChessSquare)
        requires
            from.wf(),
            to.wf(),
            old(self).ep_square.is_some() ==> old(self).ep_square.unwrap().wf(),
        ensures
            *final(self) == spec_mm_ep(*old(self), piece, from.idx as int, to.idx as int),
            final(self).ep_square.is_some() ==> final(self).ep_square.unwrap().wf(),
    {
        let from_rank = from.rank();
        let to_rank = to.rank();
        if piece == ChessPieceType::Pawn && ((from_rank == 1 && to_rank == 3) || (from_rank == 6
            && to_rank == 4)) && from.file() == to.file() {
            let ep = self.calc_ep_sq(to);
            if let Some(sq) = ep {
                self.hash = PosHash(self.hash.0 ^ ep_file_key(sq.file()));
                self.ep_square = ep;
            }
        }
    }

    /// Plays `mov`, which should be pseudolegal, without checking whether it leaves the own king
    /// in check. A move from an empty square changes nothing.
    pub fn make_move_impl(self, mov: ChessMove) -> (r: Chessboard)
        requires
            self.castling.wf(),
            self.ep_square.is_some() ==> self.ep_square.unwrap().wf(),
        ensures
            r == spec_make_move_impl(self, mov),
            r.castling.wf(),
            r.ep_square.is_some() ==> r.ep_square.unwrap().wf(),
    {
        reveal(spec_make_move_impl);
        let from = mov.src_square();
        let mut to = mov.dest_square();
        let piece = self.piece_type_on(from);
        if piece == ChessPieceType::Empty {
            return self;
        }
        let mut b = self;
        let old_castling = b.castling.allowed_castling_directions();
        b.mm_prelude();
        if mov.is_castle() && piece == ChessPieceType::King {
            let side = mov.castle_side();
            b.mm_castle(from, to, side);
            to = ChessSquare::from_rank_file(from.rank(), side.king_dest_file());
        } else {
            b.mm_normal(mov, piece);
        }
        b.mm_finish(old_castling);
        b.mm_ep(piece, from, to);
        b
    }

    /// Whether the king of a castling move neither starts on, passes nor ends on an attacked square;
    /// `true` for every other move.
    fn castling_path_safe(&self, mov: ChessMove) -> (r: bool)
        ensures
            r == spec_castling_path_safe(*self, mov),
    {
        reveal(spec_castling_path_safe);
        if !mov.is_castle() {
            return true;
        }
        let us = self.active_player;
        let from = mov.src_square();
        let side = mov.castle_side();
        let king_dest = ChessSquare::from_rank_file(from.rank(), side.king_dest_file());
        let path = crate::attacks::ray_inclusive(from, king_dest);
        let mut p = path;
        while p != 0
            invariant
                us == self.active_player,
                mov.spec_is_castle(),
                path == spec_castle_path(mov),
                forall|d: u64| d < 64 && #[trigger] bit(p, d) ==> bit(path, d),
                forall|d: u64|
                    d < 64 && #[trigger] bit(path, d) && !bit(p, d) ==> !spec_in_check_on(
                        *self,
                        us,
                        d as int,
                    ),
            decreases p,
        {
            let ghost old_p = p;
            let (i, rest) = pop_lsb(p);
            p = rest;
            assert(forall|d: u64| d < 64 ==> #[trigger] bit(p, d) == (bit(old_p, d) && d != i));
            if self.is_in_check_on_square(us, ChessSquare::from_bb_idx(i as usize)) {
                assert(bit(path, i as u64));
                assert(!spec_castling_path_safe(*self, mov)) by {
                    reveal(spec_castling_path_safe);
                }
                return false;
            }
        }
        proof {
            assert forall|d: u64| d < 64 && #[trigger] bit(path, d) implies !spec_in_check_on(
                *self,
                us,
                d as int,
            ) by {
                crate::bits::lemma_bit_zero(d);
            }
        }
        true
    }

    /// Plays a pseudolegal move; `None` if it is illegal: if it would leave the own king in check,
    /// or if it castles out of, through or into check.
    pub fn make_move(self, mov: ChessMove) -> (r: Option<Chessboard>)
        requires
            self.castling.wf(),
            self.ep_square.is_some() ==> self.ep_square.unwrap().wf(),
        ensures
            r == spec_make_move(self, mov),
            r.is_some() ==> r.unwrap().castling.wf() && (r.unwrap().ep_square.is_some()
                ==> r.unwrap().ep_square.unwrap().wf()),
            self.wf() && self.hash == crate::chessboard::spec_zobrist(self) && spec_is_pseudolegal(
                self,
                mov,
            ) && !crate::bits::bit(self.piece_bbs[5], mov.spec_dest() as u64) && r.is_some()
                ==> r.unwrap().wf() && r.unwrap().hash == crate::chessboard::spec_zobrist(r.unwrap()),
    {
        proof {
            if self.wf() && self.hash == crate::chessboard::spec_zobrist(self) && spec_is_pseudolegal(
                self,
                mov,
            ) && !crate::bits::bit(self.piece_bbs[5], mov.spec_dest() as u64) {
                crate::incremental_hash::law_make_move_keeps_valid(self, mov);
            }
        }
        reveal(spec_make_move);
        if !self.castling_path_safe(mov) {
            return None;
        }
        let us = self.active_player;
        let new = self.make_move_impl(mov);
        if new.is_in_check_on_square(us, new.king_square(us)) {
            None
        } else {
            Some(new)
        }
    }

    /// Passes the turn to the other player; `None` if the player to move is in check.
    pub fn make_nullmove(self) -> (r: Option<Chessboard>)
        requires
            self.ep_square.is_some() ==> self.ep_square.unwrap().wf(),
        ensures
            r.is_some() == !self.is_in_check_spec(),
            r.is_some() ==> r.unwrap().active_player == self.active_player.spec_other()
                && r.unwrap().ep_square.is_none() && r.unwrap().ply_100_ctr == 0
                && r.unwrap().piece_bbs == self.piece_bbs && r.unwrap().color_bbs
                == self.color_bbs && r.unwrap().castling == self.castling,
    {
        if self.is_in_check() {
            return None;
        }
        let mut b = self;
        b.ply = b.ply.wrapping_add(1);
        b.ply_100_ctr = 0;
        if let Some(ep) = b.ep_square {
            b.hash = PosHash(b.hash.0 ^ ep_file_key(ep.file()));
            b.ep_square = None;
        }
        b.hash = PosHash(b.hash.0 ^ SIDE_TO_MOVE_KEY);
        b.active_player = b.active_player.other();
        Some(b)
    }

    pub open spec fn is_in_check_spec(self) -> bool {
        crate::movegen::spec_in_check_on(
            self,
            self.active_player,
            self.spec_king_square(self.active_player),
        )
    }

    /// Passes the turn like a null move; `None` if the player to move is in check.
    pub fn flip_side_to_move(self) -> (r: Option<Chessboard>)
        requires
            self.ep_square.is_some() ==> self.ep_square.unwrap().wf(),
        ensures
            r.is_some() == !self.is_in_check_spec(),
            r.is_some() ==> r.unwrap().active_player == self.active_player.spec_other()
                && r.unwrap().ep_square.is_none() && r.unwrap().ply_100_ctr == 0
                && r.unwrap().piece_bbs == self.piece_bbs && r.unwrap().color_bbs
                == self.color_bbs && r.unwrap().castling == self.castling,
    {
        self.make_nullmove()
    }

    /// Whether a pseudolegal move leaves the own king safe (for castling: the king also doesn't
    /// start on, pass or end on an attacked square).
    pub fn is_pseudolegal_move_legal(&self, mov: ChessMove) -> (r: bool)
        requires
            self.castling.wf(),
            self.ep_square.is_some() ==> self.ep_square.unwrap().wf(),
        ensures
            r == spec_make_move(*self, mov).is_some(),
    {
        self.make_move(mov).is_some()
    }

    /// Whether a move is legal: pseudolegal and not leaving the own king in check.
    pub fn is_move_legal(&self, mov: ChessMove) -> (r: bool)
        requires
            self.castling.wf(),
            self.ep_square.is_some() ==> self.ep_square.unwrap().wf(),
        ensures
            r == (spec_is_pseudolegal(*self, mov) && spec_make_move(*self, mov).is_some()),
    {
        self.is_move_pseudolegal(mov) && self.is_pseudolegal_move_legal(mov)
    }

    /// The legal moves of the player to move: the pseudolegal moves that [`Self::make_move`]
    /// accepts, in the order in which they are generated.
    pub fn legal_moves_slow(&self) -> (r: Vec<ChessMove>)
        requires
            self.castling.wf(),
            self.ep_square.is_some() ==> self.ep_square.unwrap().wf(),
        ensures
            forall|m: ChessMove| #[trigger]
                r@.contains(m) <==> (spec_generated(*self, m, false) && spec_make_move(
                    *self,
                    m,
                ).is_some()),
            self.wf() ==> forall|m: ChessMove| #[trigger]
                r@.contains(m) <==> (spec_is_pseudolegal(*self, m) && spec_make_move(
                    *self,
                    m,
                ).is_some()),
            (r@.len() == 0) == !spec_has_legal_move(*self),
    {
        let pseudo = self.pseudolegal_moves();
        let mut res: Vec<ChessMove> = Vec::new();
        let mut i: usize = 0;
        while i < pseudo.len()
            invariant
                i <= pseudo@.len(),
                self.castling.wf(),
                self.ep_square.is_some() ==> self.ep_square.unwrap().wf(),
                forall|m: ChessMove| #[trigger]
                    res@.contains(m) <==> (pseudo@.subrange(0, i as int).contains(m)
                        && spec_make_move(*self, m).is_some()),
            decreases pseudo@.len() - i,
        {
            let ghost prev = res@;
            let mv = pseudo[i];
            let legal = self.is_pseudolegal_move_legal(mv);
            if legal {
                res.push(mv);
            }
            proof {
                assert(pseudo@.subrange(0, i + 1) == pseudo@.subrange(0, i as int).push(mv));
                assert forall|m: ChessMove| #[trigger]
                    res@.contains(m) <==> (pseudo@.subrange(0, i + 1).contains(m)
                        && spec_make_move(*self, m).is_some()) by {
                    vstd::seq_lib::lemma_seq_contains_after_push(pseudo@.subrange(0, i as int), mv, m);
                    if legal {
                        vstd::seq_lib::lemma_seq_contains_after_push(prev, mv, m);
                    }
                }
            }
            i = i + 1;
        }
        proof {
            assert(pseudo@.subrange(0, pseudo@.len() as int) == pseudo@);
            if res@.len() > 0 {
                assert(res@.contains(res@[0]));
                assert(spec_generated(*self, res@[0], false));
            }
            if spec_has_legal_move(*self) {
                let m = choose|m: ChessMove| #[trigger] spec_generated(*self, m, false) && spec_make_move(*self, m).is_some();
                assert(res@.contains(m));
            }
        }
        res
    }

    /// A random legal move; `None` if there is none.
    pub fn random_legal_move(&self, rng: &mut StdRng) -> (r: Option<ChessMove>)
        requires
            self.castling.wf(),
            self.ep_square.is_some() ==> self.ep_square.unwrap().wf(),
        ensures
            r.is_none() <==> !spec_has_legal_move(*self),
            r.is_some() ==> spec_generated(*self, r.unwrap(), false) && spec_make_move(
                *self,
                r.unwrap(),
            ).is_some(),
    {
        let moves = self.legal_moves_slow();
        let r = crate::random::choose_from_vec(moves, rng);
        proof {
            if r.is_some() {
                assert(moves@.contains(r.unwrap()));
            }
        }
        r
    }

    /// A random pseudolegal move; `None` if there is none.
    pub fn random_pseudolegal_move(&self, rng: &mut StdRng) -> (r: Option<ChessMove>)
        requires
            self.castling.wf(),
        ensures
            r.is_none() <==> !(exists|m: ChessMove| #[trigger] spec_generated(*self, m, false)),
            r.is_some() ==> spec_generated(*self, r.unwrap(), false),
    {
        let moves = self.pseudolegal_moves();
        let ghost v = moves@;
        let r = crate::random::choose_from_vec(moves, rng);
        proof {
            if r.is_some() {
                assert(v.contains(r.unwrap()));
            } else {
                assert forall|m: ChessMove| !#[trigger] spec_generated(*self, m, false) by {
                    if spec_generated(*self, m, false) {
                        assert(v.contains(m));
                    }
                }
            }
            if v.len() > 0 {
                assert(v.contains(v[0]));
            }
        }
        r
    }

    /// Whether the move gives check; `false` if it is illegal.
    pub fn gives_check(&self, mov: ChessMove) -> (r: bool)
        requires
            self.castling.wf(),
            self.ep_square.is_some() ==> self.ep_square.unwrap().wf(),
        ensures
            r == match spec_make_move(*self, mov) {
                Some(n) => spec_in_check_on(n, n.active_player, n.spec_king_square(n.active_player)),
                None => false,
            },
    {
        match self.make_move(mov) {
            Some(b) => b.is_in_check(),
            None => false,
        }
    }
}

/// The halfmove clock after a move: a capture (the destination holds a piece of the opponent, or an
/// en passant capture) or any pawn move resets it to zero, whatever piece moves; a move that
/// neither captures nor moves a pawn advances it by one.
pub proof fn law_halfmove_clock_after_move(b: Chessboard, mov: ChessMove)
    requires
        spec_make_move(b, mov).is_some(),
        !mov.spec_is_castle(),
        spec_piece_type_at(b.piece_bbs, mov.spec_src() as u64) != ChessPieceType::Empty,
    ensures
        ({
            let n = spec_make_move(b, mov).unwrap();
            let piece = spec_piece_type_at(b.piece_bbs, mov.spec_src() as u64);
            let capture = bit(b.color_bbs[b.active_player.spec_other().spec_idx()], mov.spec_dest() as u64)
                || (mov.spec_flags() == ChessMoveFlags::EnPassant && piece == ChessPieceType::Pawn);
            &&& capture ==> n.ply_100_ctr == 0
            &&& piece == ChessPieceType::Pawn ==> n.ply_100_ctr == 0
            &&& !capture && piece != ChessPieceType::Pawn ==> n.ply_100_ctr
                == vstd::wrapping::usize_specs::wrapping_add(b.ply_100_ctr, 1)
        }),
{
    reveal(spec_make_move);
    reveal(spec_make_move_impl);
}

/// Every move, castling included, hands the turn to the other player and advances the ply count by
/// one.
pub proof fn law_make_move_turn(b: Chessboard, mov: ChessMove)
    requires
        spec_make_move(b, mov).is_some(),
        spec_piece_type_at(b.piece_bbs, mov.spec_src() as u64) != ChessPieceType::Empty,
    ensures
        spec_make_move(b, mov).unwrap().active_player == b.active_player.spec_other(),
        spec_make_move(b, mov).unwrap().ply == vstd::wrapping::usize_specs::wrapping_add(b.ply, 1),
{
    reveal(spec_make_move);
    reveal(spec_make_move_impl);
}

/// Castling rights after a move: no right is ever gained, a king move (castling included) loses
/// both rights of the mover, a piece leaving the square of a castling rook loses that right, and a
/// move onto the square of an opposing castling rook takes that right away (the two castling rooks
/// of a player standing on different squares).
pub proof fn law_castling_rights_after_move(b: Chessboard, mov: ChessMove)
    requires
        spec_make_move(b, mov).is_some(),
        spec_piece_type_at(b.piece_bbs, mov.spec_src() as u64) != ChessPieceType::Empty,
        b.spec_rook_start_square(ChessColor::White, CastleRight::Queenside) != b.spec_rook_start_square(
            ChessColor::White,
            CastleRight::Kingside,
        ),
        b.spec_rook_start_square(ChessColor::Black, CastleRight::Queenside) != b.spec_rook_start_square(
            ChessColor::Black,
            CastleRight::Kingside,
        ),
    ensures
        ({
            let n = spec_make_move(b, mov).unwrap();
            let us = b.active_player;
            let them = us.spec_other();
            let piece = spec_piece_type_at(b.piece_bbs, mov.spec_src() as u64);
            &&& forall|c: ChessColor, s: CastleRight| #[trigger] n.castling.right(c, s) is Some
                ==> n.castling.right(c, s) == b.castling.right(c, s)
            &&& piece == ChessPieceType::King ==> n.castling.right(us, CastleRight::Queenside) is None
                && n.castling.right(us, CastleRight::Kingside) is None
            &&& forall|s: CastleRight|
                !mov.spec_is_castle() && b.castling.right(us, s) is Some && mov.spec_src()
                    == b.spec_rook_start_square(us, s) ==> #[trigger] n.castling.right(us, s) is None
            &&& forall|s: CastleRight|
                !mov.spec_is_castle() && b.castling.right(them, s) is Some && mov.spec_dest()
                    == b.spec_rook_start_square(them, s) ==> #[trigger] n.castling.right(them, s) is None
        }),
{
    let n = spec_make_move(b, mov).unwrap();
    let us = b.active_player;
    let them = us.spec_other();
    let from = mov.spec_src();
    let to = mov.spec_dest();
    let piece = spec_piece_type_at(b.piece_bbs, from as u64);
    let castles = mov.spec_is_castle() && piece == ChessPieceType::King;
    let rights = spec_mm_rights(b, from, to, piece);
    assert(n.castling == (if castles {
        b.castling.spec_clear(us)
    } else {
        rights
    })) by {
        reveal(spec_make_move);
        reveal(spec_make_move_impl);
        let b1 = spec_mm_prelude(b);
        let bc = spec_mm_capture(b1, mov, piece);
        assert(bc.castling == b.castling && bc.active_player == us);
        assert(spec_mm_rights(bc, from, to, piece) == rights);
    }
    assert forall|c: ChessColor, s: CastleRight| #[trigger] n.castling.right(c, s) is Some implies n.castling.right(
        c,
        s,
    ) == b.castling.right(c, s) by {}
}

/// An en passant square exists after a move only if the move pushed a pawn two squares forward
/// from its starting rank.
pub proof fn law_ep_square_after_move(b: Chessboard, mov: ChessMove)
    requires
        spec_make_move(b, mov).is_some(),
        spec_piece_type_at(b.piece_bbs, mov.spec_src() as u64) != ChessPieceType::Empty,
        spec_make_move(b, mov).unwrap().ep_square is Some,
    ensures
        spec_piece_type_at(b.piece_bbs, mov.spec_src() as u64) == ChessPieceType::Pawn,
        file_of(mov.spec_src()) == file_of(mov.spec_dest()),
        (rank_of(mov.spec_src()) == 1 && rank_of(mov.spec_dest()) == 3) || (rank_of(mov.spec_src()) == 6
            && rank_of(mov.spec_dest()) == 4),
{
    reveal(spec_make_move);
    reveal(spec_make_move_impl);
}

} // verus!
