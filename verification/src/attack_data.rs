//! Attack data of a position: the attacks of each player's sliders, the pieces giving check and
//! the pinned pieces.
use vstd::prelude::*;
use crate::attacks::{bishop_attacks, rook_attacks, spec_bishop_attacks, spec_ray_exclusive, spec_rook_attacks};
use crate::bits::{bit, group_bits, pop_count, pop_lsb};
use crate::chessboard::{Board, Chessboard};
use crate::pieces::{ChessColor, ChessPieceType};
use crate::squares::ChessSquare;

verus! {

broadcast use group_bits;

/// The most slider attack bitboards a player can have: two bishops, two rooks, a queen and eight
/// promoted pawns.
pub const MAX_SLIDERS: usize = 13;

/// The attacks of one player.
#[derive(Clone, Debug)]
pub struct AttacksForColor {
    /// All squares the player attacks.
    pub all: u64,
    /// The attacks of each slider, one bitboard per piece.
    pub sliders: Vec<u64>,
}

/// For each piece type, the squares from which a piece of that type of the other player would
/// give check, and the pinned pieces.
#[derive(Copy, Clone, Debug)]
pub struct CheckRes {
    pub checking_squares: [u64; 6],
    pub pinned: u64,
}

/// The attack data of a position.
#[derive(Clone, Debug)]
pub struct Attacks {
    /// White's attacks.
    pub white: AttacksForColor,
    /// Black's attacks.
    pub black: AttacksForColor,
    /// The pieces that put a king in check.
    pub checkers: u64,
    /// Pinned pieces of both sides (some en passant pins are not included).
    pub pinned: u64,
}

/// Starting from `acc`, adds for every square `p` of `pinners` the single own piece standing
/// between the king on `king` and `p`, if exactly one of the squares of `own` lies between them.
pub open spec fn spec_pin_fold(king: int, own: u64, pinners: u64, acc: u64) -> u64
    decreases pop_count(pinners),
{
    if pinners == 0 {
        acc
    } else {
        let p = vstd::std_specs::bits::u64_trailing_zeros(pinners) as u64;
        proof {
            vstd::std_specs::bits::axiom_u64_trailing_zeros(pinners);
            crate::bits::lemma_pop_count_remove_bit(pinners, p);
        }
        let blocking = spec_ray_exclusive(king, p as int) & own;
        spec_pin_fold(
            king,
            own,
            pinners ^ (1u64 << p),
            if pop_count(blocking) == 1 {
                acc | blocking
            } else {
                acc
            },
        )
    }
}

/// The pieces of `color` pinned to their king: for bishops and then rooks (with queens), every
/// enemy slider that would attack the king through pieces of `color` alone pins the single piece
/// of `color` between them.
pub open spec fn spec_pinned(pos: Chessboard, color: ChessColor) -> u64 {
    let king = pos.spec_king_square(color);
    let own = pos.spec_colored_bb(color);
    let blockers = pos.spec_colored_bb(color.spec_other());
    let queens = pos.piece_bbs[4];
    let diagonal = spec_bishop_attacks(king, blockers) & (pos.piece_bbs[2] | queens);
    let straight = spec_rook_attacks(king, blockers) & (pos.piece_bbs[3] | queens);
    spec_pin_fold(king, own, straight, spec_pin_fold(king, own, diagonal, 0))
}

/// The squares from which a piece of each type of the other player would check the king of
/// `color` (indexed by piece type; kings never give check).
pub open spec fn spec_checking_squares(pos: Chessboard, color: ChessColor) -> [u64; 6] {
    let king = pos.spec_king_square(color);
    let occ = pos.spec_occupied();
    let bishop = spec_bishop_attacks(king, occ);
    let rook = spec_rook_attacks(king, occ);
    [
        crate::attacks::spec_pawn_captures(color == ChessColor::White, king),
        crate::attacks::spec_knight_attacks(king),
        bishop,
        rook,
        rook | bishop,
        0,
    ]
}

/// The attack bitboards of the pieces of type `piece` on the squares of `pieces`, lowest square
/// first.
pub open spec fn spec_slider_attacks(piece: ChessPieceType, pieces: u64, occ: u64) -> Seq<u64>
    decreases pop_count(pieces),
{
    if pieces == 0 {
        Seq::empty()
    } else {
        let s = vstd::std_specs::bits::u64_trailing_zeros(pieces) as u64;
        proof {
            vstd::std_specs::bits::axiom_u64_trailing_zeros(pieces);
            crate::bits::lemma_pop_count_remove_bit(pieces, s);
        }
        seq![crate::movegen::spec_piece_attacks(piece, s as int, occ)] + spec_slider_attacks(
            piece,
            pieces ^ (1u64 << s),
            occ,
        )
    }
}

/// The attack bitboards of the bishops, then the rooks, then the queens of `color`.
pub open spec fn spec_color_slider_attacks(pos: Chessboard, color: ChessColor) -> Seq<u64> {
    let occ = pos.spec_occupied();
    spec_slider_attacks(ChessPieceType::Bishop, pos.spec_colored_piece_bb(color, ChessPieceType::Bishop), occ)
        + spec_slider_attacks(ChessPieceType::Rook, pos.spec_colored_piece_bb(color, ChessPieceType::Rook), occ)
        + spec_slider_attacks(ChessPieceType::Queen, pos.spec_colored_piece_bb(color, ChessPieceType::Queen), occ)
}

/// The pieces of the player not to move that attack the king of the player to move.
pub open spec fn spec_checkers(pos: Chessboard) -> u64 {
    let sq = spec_checking_squares(pos, pos.active_player);
    let them = pos.active_player.spec_other();
    (sq[0] & pos.spec_colored_piece_bb(them, ChessPieceType::Pawn)) | (sq[1]
        & pos.spec_colored_piece_bb(them, ChessPieceType::Knight)) | (sq[2] & pos.spec_colored_piece_bb(
        them,
        ChessPieceType::Bishop,
    )) | (sq[3] & pos.spec_colored_piece_bb(them, ChessPieceType::Rook)) | (sq[4]
        & pos.spec_colored_piece_bb(them, ChessPieceType::Queen)) | (sq[5] & pos.spec_colored_piece_bb(
        them,
        ChessPieceType::King,
    ))
}

impl AttacksForColor {
    /// No attacks yet.
    pub fn new() -> (r: Self)
        ensures
            r.all == 0,
            r.sliders@.len() == 0,
    {
        AttacksForColor { all: 0, sliders: Vec::new() }
    }
}

/// The single own piece between the king and a pinning slider, for each slider of `pinners`,
/// added to `acc`.
fn pins_along(king: ChessSquare, own: u64, pinners: u64, acc: u64) -> (r: u64)
    requires
        king.wf(),
    ensures
        r == spec_pin_fold(king.idx as int, own, pinners, acc),
{
    let mut pinned = acc;
    let mut rest = pinners;
    while rest != 0
        invariant
            king.wf(),
            spec_pin_fold(king.idx as int, own, rest, pinned) == spec_pin_fold(king.idx as int, own, pinners, acc),
        decreases rest,
    {
        let (p, next) = pop_lsb(rest);
        let ray = crate::attacks::ray_exclusive(king, ChessSquare::from_bb_idx(p as usize));
        let blocking = ray & own;
        if crate::bits::is_single_piece(blocking) {
            pinned = pinned | blocking;
        }
        rest = next;
    }
    pinned
}

impl Attacks {
    /// Empty attack data.
    pub fn new() -> (r: Self)
        ensures
            r.spec_for_color(ChessColor::White).sliders@.len() == 0,
            r.spec_for_color(ChessColor::Black).sliders@.len() == 0,
            r.spec_for_color(ChessColor::White).all == 0,
            r.spec_for_color(ChessColor::Black).all == 0,
            r.checkers == 0,
            r.pinned == 0,
    {
        Attacks { white: AttacksForColor::new(), black: AttacksForColor::new(), checkers: 0, pinned: 0 }
    }

    /// The attacks of `color`.
    pub open spec fn spec_for_color(&self, color: ChessColor) -> AttacksForColor {
        if color == ChessColor::White {
            self.white
        } else {
            self.black
        }
    }

    /// The attacks of `color`.
    pub fn for_color(&self, color: ChessColor) -> (r: &AttacksForColor)
        ensures
            *r == self.spec_for_color(color),
    {
        match color {
            ChessColor::White => &self.white,
            ChessColor::Black => &self.black,
        }
    }

    /// All squares `color` attacks.
    pub fn attacks_for(&self, color: ChessColor) -> (r: u64)
        ensures
            r == self.spec_for_color(color).all,
    {
        self.for_color(color).all
    }

    /// All squares either player attacks.
    pub fn all_attacks(&self) -> (r: u64)
        ensures
            r == self.spec_for_color(ChessColor::White).all | self.spec_for_color(ChessColor::Black).all,
    {
        self.attacks_for(ChessColor::White) | self.attacks_for(ChessColor::Black)
    }

    /// Records the attacks of one more slider of `color`.
    pub fn push_bitboard(&mut self, color: ChessColor, bitboard: u64)
        requires
            old(self).spec_for_color(color).sliders@.len() < MAX_SLIDERS,
        ensures
            final(self).spec_for_color(color).sliders@ == old(self).spec_for_color(color).sliders@.push(bitboard),
            final(self).spec_for_color(color).all == old(self).spec_for_color(color).all,
            final(self).spec_for_color(color.spec_other()) == old(self).spec_for_color(color.spec_other()),
            final(self).checkers == old(self).checkers,
            final(self).pinned == old(self).pinned,
    {
        match color {
            ChessColor::White => self.white.sliders.push(bitboard),
            ChessColor::Black => self.black.sliders.push(bitboard),
        }
    }

    /// Sets all squares `color` attacks.
    pub fn set_attacks_for(&mut self, color: ChessColor, attacks: u64)
        ensures
            final(self).spec_for_color(color).all == attacks,
            final(self).spec_for_color(color).sliders@ == old(self).spec_for_color(color).sliders@,
            final(self).spec_for_color(color.spec_other()) == old(self).spec_for_color(color.spec_other()),
            final(self).checkers == old(self).checkers,
            final(self).pinned == old(self).pinned,
    {
        match color {
            ChessColor::White => self.white.all = attacks,
            ChessColor::Black => self.black.all = attacks,
        }
    }

    /// The pieces of `color` pinned to their king by enemy sliders.
    pub fn compute_pinned(pos: &Chessboard, color: ChessColor) -> (r: u64)
        ensures
            r == spec_pinned(*pos, color),
    {
        let square = pos.king_square(color);
        let own = pos.colored_bb(color);
        let blockers = pos.colored_bb(color.other());
        let queens = pos.piece_bbs[4];
        let diagonal = bishop_attacks(square, blockers) & (pos.piece_bbs[2] | queens);
        let straight = rook_attacks(square, blockers) & (pos.piece_bbs[3] | queens);
        let pinned = pins_along(square, own, diagonal, 0);
        pins_along(square, own, straight, pinned)
    }

    /// For every piece type, the squares where a piece of the other player would check the king of
    /// `color`, and the pinned pieces of `color`.
    pub fn compute_checking_squares(pos: &Chessboard, color: ChessColor) -> (r: CheckRes)
        ensures
            r.checking_squares == spec_checking_squares(*pos, color),
            r.pinned == spec_pinned(*pos, color),
    {
        let square = pos.king_square(color);
        let occupied = pos.occupied_bb();
        let bishop = bishop_attacks(square, occupied);
        let rook = rook_attacks(square, occupied);
        let result = [
            Board::single_pawn_captures(color, square),
            Board::knight_attacks_from(square),
            bishop,
            rook,
            rook | bishop,
            0,
        ];
        let pinned = Self::compute_pinned(pos, color);
        CheckRes { checking_squares: result, pinned }
    }

    /// Records the attacks of the bishops, rooks and queens of `color`, one bitboard per piece.
    pub fn generate_attacks_for(&mut self, pos: &Chessboard, color: ChessColor)
        requires
            old(self).spec_for_color(color).sliders@.len() + spec_color_slider_attacks(*pos, color).len()
                <= MAX_SLIDERS,
        ensures
            final(self).spec_for_color(color).sliders@ == old(self).spec_for_color(color).sliders@
                + spec_color_slider_attacks(*pos, color),
            final(self).spec_for_color(color).all == old(self).spec_for_color(color).all,
            final(self).spec_for_color(color.spec_other()) == old(self).spec_for_color(color.spec_other()),
            final(self).checkers == old(self).checkers,
            final(self).pinned == old(self).pinned,
    {
        let occ = pos.occupied_bb();
        let ghost start = self.spec_for_color(color).sliders@;
        let ghost other = self.spec_for_color(color.spec_other());
        let ghost all = self.spec_for_color(color).all;
        let ghost checkers = self.checkers;
        let ghost pinned = self.pinned;
        let mut p: usize = 2;
        while p < 5
            invariant
                2 <= p <= 5,
                occ == pos.spec_occupied(),
                self.spec_for_color(color.spec_other()) == other,
                self.spec_for_color(color).all == all,
                self.checkers == checkers,
                self.pinned == pinned,
                self.spec_for_color(color).sliders@ == start + (if p == 2 {
                    Seq::<u64>::empty()
                } else if p == 3 {
                    spec_slider_attacks(ChessPieceType::Bishop, pos.spec_colored_piece_bb(color, ChessPieceType::Bishop), occ)
                } else if p == 4 {
                    spec_slider_attacks(ChessPieceType::Bishop, pos.spec_colored_piece_bb(color, ChessPieceType::Bishop), occ)
                        + spec_slider_attacks(ChessPieceType::Rook, pos.spec_colored_piece_bb(color, ChessPieceType::Rook), occ)
                } else {
                    spec_color_slider_attacks(*pos, color)
                }),
                start.len() + spec_color_slider_attacks(*pos, color).len() <= MAX_SLIDERS,
            decreases 5 - p,
        {
            let piece = ChessPieceType::from_idx(p);
            let all_pieces = pos.colored_piece_bb(color, piece);
            let ghost before = self.spec_for_color(color).sliders@;
            let mut pieces = all_pieces;
            while pieces != 0
                invariant
                    2 <= p < 5,
                    piece == ChessPieceType::spec_from_idx(p as int),
                    occ == pos.spec_occupied(),
                    self.spec_for_color(color.spec_other()) == other,
                    self.spec_for_color(color).all == all,
                    self.checkers == checkers,
                    self.pinned == pinned,
                    self.spec_for_color(color).sliders@ + spec_slider_attacks(piece, pieces, occ) == before
                        + spec_slider_attacks(piece, all_pieces, occ),
                    before.len() + spec_slider_attacks(piece, all_pieces, occ).len() <= MAX_SLIDERS,
                decreases pieces,
            {
                let (i, rest) = pop_lsb(pieces);
                let square = ChessSquare::from_bb_idx(i as usize);
                let attacks = if p == 2 {
                    bishop_attacks(square, occ)
                } else if p == 3 {
                    rook_attacks(square, occ)
                } else {
                    rook_attacks(square, occ) | bishop_attacks(square, occ)
                };
                proof {
                    let cur = self.spec_for_color(color).sliders@;
                    assert(spec_slider_attacks(piece, pieces, occ) == seq![attacks] + spec_slider_attacks(piece, rest, occ));
                    assert(cur + spec_slider_attacks(piece, pieces, occ) == cur.push(attacks) + spec_slider_attacks(piece, rest, occ));
                }
                self.push_bitboard(color, attacks);
                pieces = rest;
            }
            proof {
                assert(self.spec_for_color(color).sliders@ == self.spec_for_color(color).sliders@ + spec_slider_attacks(piece, pieces, occ));
            }
            p = p + 1;
        }
    }

    /// Adds the pieces checking the king of the player to move, and the pieces pinned to that king.
    pub fn gen_checkers(&mut self, pos: &Chessboard)
        ensures
            final(self).checkers == old(self).checkers | spec_checkers(*pos),
            final(self).pinned == old(self).pinned | spec_pinned(*pos, pos.active_player),
            final(self).spec_for_color(ChessColor::White) == old(self).spec_for_color(ChessColor::White),
            final(self).spec_for_color(ChessColor::Black) == old(self).spec_for_color(ChessColor::Black),
    {
        let check_info = Self::compute_checking_squares(pos, pos.active_player);
        let them = pos.inactive_player();
        let sq = check_info.checking_squares;
        let checkers = (sq[0] & pos.colored_piece_bb(them, ChessPieceType::Pawn)) | (sq[1]
            & pos.colored_piece_bb(them, ChessPieceType::Knight)) | (sq[2] & pos.colored_piece_bb(
            them,
            ChessPieceType::Bishop,
        )) | (sq[3] & pos.colored_piece_bb(them, ChessPieceType::Rook)) | (sq[4]
            & pos.colored_piece_bb(them, ChessPieceType::Queen)) | (sq[5] & pos.colored_piece_bb(
            them,
            ChessPieceType::King,
        ));
        self.checkers = self.checkers | checkers;
        self.pinned = self.pinned | check_info.pinned;
    }

    /// Computes all attack data of `pos`: the slider attacks of both players, the pieces giving
    /// check and the pinned pieces of both players.
    pub fn generate_attack_data(&mut self, pos: &Chessboard)
        requires
            old(self).spec_for_color(ChessColor::White).sliders@.len() + spec_color_slider_attacks(
                *pos,
                ChessColor::White,
            ).len() <= MAX_SLIDERS,
            old(self).spec_for_color(ChessColor::Black).sliders@.len() + spec_color_slider_attacks(
                *pos,
                ChessColor::Black,
            ).len() <= MAX_SLIDERS,
        ensures
            final(self).spec_for_color(ChessColor::White).sliders@ == old(self).spec_for_color(
                ChessColor::White,
            ).sliders@ + spec_color_slider_attacks(*pos, ChessColor::White),
            final(self).spec_for_color(ChessColor::Black).sliders@ == old(self).spec_for_color(
                ChessColor::Black,
            ).sliders@ + spec_color_slider_attacks(*pos, ChessColor::Black),
            final(self).checkers == old(self).checkers | spec_checkers(*pos),
            final(self).pinned == spec_pinned(*pos, ChessColor::White) | spec_pinned(*pos, ChessColor::Black),
    {
        self.generate_attacks_for(pos, ChessColor::White);
        self.generate_attacks_for(pos, ChessColor::Black);
        self.gen_checkers(pos);
        self.pinned = Self::compute_pinned(pos, ChessColor::White) | Self::compute_pinned(pos, ChessColor::Black);
    }

    /// The attack data of `pos`, computed from scratch.
    pub fn init_manually(pos: &Chessboard) -> (r: Self)
        requires
            spec_color_slider_attacks(*pos, ChessColor::White).len() <= MAX_SLIDERS,
            spec_color_slider_attacks(*pos, ChessColor::Black).len() <= MAX_SLIDERS,
        ensures
            r.spec_for_color(ChessColor::White).sliders@ == spec_color_slider_attacks(*pos, ChessColor::White),
            r.spec_for_color(ChessColor::Black).sliders@ == spec_color_slider_attacks(*pos, ChessColor::Black),
            r.checkers == spec_checkers(*pos),
            r.pinned == spec_pinned(*pos, ChessColor::White) | spec_pinned(*pos, ChessColor::Black),
    {
        let mut res = Self::new();
        res.generate_attack_data(pos);
        proof {
            lemma_or_zero(spec_checkers(*pos));
        }
        res
    }

    /// The data if it was computed: `None` while White's slider attacks are still missing.
    pub fn check_initialized(&self) -> (r: Option<&Self>)
        ensures
            r.is_some() == (self.spec_for_color(ChessColor::White).sliders@.len() != 0),
            r.is_some() ==> *r.unwrap() == *self,
    {
        if self.white.sliders.len() == 0 {
            None
        } else {
            Some(self)
        }
    }
}

/// Adding no squares changes nothing.
proof fn lemma_or_zero(x: u64)
    ensures
        0u64 | x == x,
{
    assert forall|j: u64| j < 64 implies bit(0u64 | x, j) == bit(x, j) by {
        crate::bits::lemma_bit_or(0u64, x, j);
        crate::bits::lemma_bit_zero(j);
    }
    crate::bits::lemma_bits_ext(0u64 | x, x);
}

} // verus!
