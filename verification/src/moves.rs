//! The encoding of chess moves in 16 bits.
use vstd::prelude::*;
use crate::castling::CastleRight;
use crate::pieces::ChessPieceType;
use crate::squares::ChessSquare;

verus! {

/// What kind of move a chess move is.
#[derive(Copy, Clone, Eq, PartialEq, Structural, Debug, Hash)]
pub enum ChessMoveFlags {
    NormalMove,
    DoublePawnPush,
    CastleKingside,
    CastleQueenside,
    EnPassant,
    PromoKnight,
    PromoBishop,
    PromoRook,
    PromoQueen,
}

impl ChessMoveFlags {
    pub open spec fn spec_idx(self) -> int {
        match self {
            ChessMoveFlags::NormalMove => 0,
            ChessMoveFlags::DoublePawnPush => 1,
            ChessMoveFlags::CastleKingside => 2,
            ChessMoveFlags::CastleQueenside => 3,
            ChessMoveFlags::EnPassant => 4,
            ChessMoveFlags::PromoKnight => 5,
            ChessMoveFlags::PromoBishop => 6,
            ChessMoveFlags::PromoRook => 7,
            ChessMoveFlags::PromoQueen => 8,
        }
    }

    pub open spec fn spec_from_idx(i: int) -> ChessMoveFlags {
        if i == 1 {
            ChessMoveFlags::DoublePawnPush
        } else if i == 2 {
            ChessMoveFlags::CastleKingside
        } else if i == 3 {
            ChessMoveFlags::CastleQueenside
        } else if i == 4 {
            ChessMoveFlags::EnPassant
        } else if i == 5 {
            ChessMoveFlags::PromoKnight
        } else if i == 6 {
            ChessMoveFlags::PromoBishop
        } else if i == 7 {
            ChessMoveFlags::PromoRook
        } else if i == 8 {
            ChessMoveFlags::PromoQueen
        } else {
            ChessMoveFlags::NormalMove
        }
    }

    pub fn idx(self) -> (r: u16)
        ensures
            r == self.spec_idx(),
            r < 9,
    {
        match self {
            ChessMoveFlags::NormalMove => 0,
            ChessMoveFlags::DoublePawnPush => 1,
            ChessMoveFlags::CastleKingside => 2,
            ChessMoveFlags::CastleQueenside => 3,
            ChessMoveFlags::EnPassant => 4,
            ChessMoveFlags::PromoKnight => 5,
            ChessMoveFlags::PromoBishop => 6,
            ChessMoveFlags::PromoRook => 7,
            ChessMoveFlags::PromoQueen => 8,
        }
    }

    /// The flag with the given index; indices above 8 give `NormalMove`.
    pub fn from_idx(i: u16) -> (r: ChessMoveFlags)
        ensures
            r == Self::spec_from_idx(i as int),
    {
        if i == 1 {
            ChessMoveFlags::DoublePawnPush
        } else if i == 2 {
            ChessMoveFlags::CastleKingside
        } else if i == 3 {
            ChessMoveFlags::CastleQueenside
        } else if i == 4 {
            ChessMoveFlags::EnPassant
        } else if i == 5 {
            ChessMoveFlags::PromoKnight
        } else if i == 6 {
            ChessMoveFlags::PromoBishop
        } else if i == 7 {
            ChessMoveFlags::PromoRook
        } else if i == 8 {
            ChessMoveFlags::PromoQueen
        } else {
            ChessMoveFlags::NormalMove
        }
    }

    pub open spec fn spec_is_promo(self) -> bool {
        self.spec_idx() >= 5
    }

    /// Whether this is one of the four promotion flags.
    pub fn is_promo(self) -> (r: bool)
        ensures
            r == self.spec_is_promo(),
    {
        self.idx() >= 5
    }

    pub open spec fn spec_promo_piece(self) -> ChessPieceType {
        match self {
            ChessMoveFlags::PromoKnight => ChessPieceType::Knight,
            ChessMoveFlags::PromoBishop => ChessPieceType::Bishop,
            ChessMoveFlags::PromoRook => ChessPieceType::Rook,
            ChessMoveFlags::PromoQueen => ChessPieceType::Queen,
            _ => ChessPieceType::Empty,
        }
    }

    /// The piece a pawn promotes to, `Empty` if this isn't a promotion.
    pub fn promo_piece(self) -> (r: ChessPieceType)
        ensures
            r == self.spec_promo_piece(),
    {
        match self {
            ChessMoveFlags::PromoKnight => ChessPieceType::Knight,
            ChessMoveFlags::PromoBishop => ChessPieceType::Bishop,
            ChessMoveFlags::PromoRook => ChessPieceType::Rook,
            ChessMoveFlags::PromoQueen => ChessPieceType::Queen,
            _ => ChessPieceType::Empty,
        }
    }

    /// The promotion flag for promoting to `piece`, if that piece can be promoted to.
    pub fn promo_flag(piece: ChessPieceType) -> (r: Option<ChessMoveFlags>)
        ensures
            r.is_some() ==> r.unwrap().spec_promo_piece() == piece && r.unwrap().spec_is_promo(),
            r.is_some() == (piece == ChessPieceType::Knight || piece == ChessPieceType::Bishop
                || piece == ChessPieceType::Rook || piece == ChessPieceType::Queen),
    {
        match piece {
            ChessPieceType::Knight => Some(ChessMoveFlags::PromoKnight),
            ChessPieceType::Bishop => Some(ChessMoveFlags::PromoBishop),
            ChessPieceType::Rook => Some(ChessMoveFlags::PromoRook),
            ChessPieceType::Queen => Some(ChessMoveFlags::PromoQueen),
            _ => None,
        }
    }
}

/// A chess move: bits 0-5 hold the source square, bits 6-11 the destination square
/// (the rook's square for castling) and bits 12-15 the flags.
#[derive(Copy, Clone, Eq, PartialEq, Structural, Default, Debug, Hash, PartialOrd, Ord)]
pub struct ChessMove(pub u16);

pub proof fn lemma_move_bits(x: u16)
    ensures
        x & 0x3fu16 == x % 64,
        (x >> 6u16) & 0x3fu16 == (x / 64) % 64,
        x >> 12u16 == x / 4096,
        x & 0xfffu16 == x % 4096,
{
    assert(x & 0x3fu16 == x % 64 && (x >> 6u16) & 0x3fu16 == (x / 64) % 64 && x >> 12u16 == x
        / 4096 && x & 0xfffu16 == x % 4096) by (bit_vector);
}

/// Two moves with valid flags are equal when their squares and flags are.
pub proof fn lemma_move_eq(a: ChessMove, b: ChessMove)
    requires
        a.0 / 4096 <= 8,
        b.0 / 4096 <= 8,
        a.spec_src() == b.spec_src(),
        a.spec_dest() == b.spec_dest(),
        a.spec_flags() == b.spec_flags(),
    ensures
        a == b,
{
    let x = a.0;
    let y = b.0;
    assert(x == x % 64 + 64 * ((x / 64) % 64) + 4096 * (x / 4096)) by (nonlinear_arith)
        requires
            x < 65536,
    ;
    assert(y == y % 64 + 64 * ((y / 64) % 64) + 4096 * (y / 4096)) by (nonlinear_arith)
        requires
            y < 65536,
    ;
    assert(x / 4096 == y / 4096);
}

impl ChessMove {
    pub open spec fn spec_src(self) -> int {
        (self.0 as int) % 64
    }

    pub open spec fn spec_dest(self) -> int {
        ((self.0 as int) / 64) % 64
    }

    pub open spec fn spec_flags(self) -> ChessMoveFlags {
        ChessMoveFlags::spec_from_idx((self.0 as int) / 4096)
    }

    /// The move from `from` to `to` with the given flags.
    pub fn new(from: ChessSquare, to: ChessSquare, flags: ChessMoveFlags) -> (r: Self)
        requires
            from.wf(),
            to.wf(),
        ensures
            r.spec_src() == from.idx,
            r.spec_dest() == to.idx,
            r.spec_flags() == flags,
            r.0 == from.idx + to.idx * 64 + flags.spec_idx() * 4096,
            r.0 / 4096 == flags.spec_idx(),
    {
        let r = ChessMove(from.idx as u16 + to.idx as u16 * 64 + flags.idx() * 4096);
        r
    }

    /// The null move, which is never legal.
    pub fn null() -> (r: Self)
        ensures
            r.0 == 0,
    {
        ChessMove(0)
    }

    pub fn is_null(self) -> (r: bool)
        ensures
            r == (self.0 == 0),
    {
        self.0 == 0
    }

    /// The square the moving piece starts on.
    pub fn src_square(self) -> (r: ChessSquare)
        ensures
            r.wf(),
            r.idx == self.spec_src(),
    {
        proof {
            lemma_move_bits(self.0);
        }
        ChessSquare::from_bb_idx((self.0 & 0x3f) as usize)
    }

    /// The destination square; for a castle move this is the rook's square.
    pub fn dest_square(self) -> (r: ChessSquare)
        ensures
            r.wf(),
            r.idx == self.spec_dest(),
    {
        proof {
            lemma_move_bits(self.0);
        }
        ChessSquare::from_bb_idx(((self.0 >> 6) & 0x3f) as usize)
    }

    /// The flags; invalid flag values are read as `NormalMove`.
    pub fn flags(self) -> (r: ChessMoveFlags)
        ensures
            r == self.spec_flags(),
    {
        proof {
            lemma_move_bits(self.0);
        }
        ChessMoveFlags::from_idx(self.0 >> 12)
    }

    /// The flags, or an error if the stored value isn't a valid flag.
    pub fn untrusted_flags(self) -> (r: Result<ChessMoveFlags, ()>)
        ensures
            r.is_ok() == (self.0 / 4096 <= 8),
            r.is_ok() ==> r.unwrap() == self.spec_flags(),
    {
        proof {
            lemma_move_bits(self.0);
        }
        if (self.0 >> 12) <= 8 {
            Ok(self.flags())
        } else {
            Err(())
        }
    }

    /// Source and destination square together, as a number below 4096.
    pub fn from_to_square(self) -> (r: usize)
        ensures
            r == self.0 % 4096,
    {
        proof {
            lemma_move_bits(self.0);
        }
        (self.0 & 0xfff) as usize
    }

    pub fn is_ep(self) -> (r: bool)
        ensures
            r == (self.spec_flags() == ChessMoveFlags::EnPassant),
    {
        self.flags() == ChessMoveFlags::EnPassant
    }

    pub fn is_promotion(self) -> (r: bool)
        ensures
            r == self.spec_flags().spec_is_promo(),
    {
        self.flags().is_promo()
    }

    pub fn is_double_pawn_push(self) -> (r: bool)
        ensures
            r == (self.spec_flags() == ChessMoveFlags::DoublePawnPush),
    {
        self.flags() == ChessMoveFlags::DoublePawnPush
    }

    /// The piece a pawn promotes to, `Empty` if this isn't a promotion.
    pub fn promo_piece(self) -> (r: ChessPieceType)
        ensures
            r == self.spec_flags().spec_promo_piece(),
    {
        self.flags().promo_piece()
    }

    pub open spec fn spec_is_castle(self) -> bool {
        self.spec_flags() == ChessMoveFlags::CastleQueenside || self.spec_flags()
            == ChessMoveFlags::CastleKingside
    }

    pub fn is_castle(self) -> (r: bool)
        ensures
            r == self.spec_is_castle(),
    {
        let f = self.flags();
        f == ChessMoveFlags::CastleQueenside || f == ChessMoveFlags::CastleKingside
    }

    /// The castling side of a castle move (kingside for any other move).
    pub fn castle_side(self) -> (r: CastleRight)
        ensures
            r == (if self.spec_flags() == ChessMoveFlags::CastleQueenside {
                CastleRight::Queenside
            } else {
                CastleRight::Kingside
            }),
    {
        if self.flags() == ChessMoveFlags::CastleQueenside {
            CastleRight::Queenside
        } else {
            CastleRight::Kingside
        }
    }

    /// For an en passant capture, the square of the captured pawn; `None` for other moves.
    pub fn square_of_pawn_taken_by_ep(self) -> (r: Option<ChessSquare>)
        ensures
            r.is_some() == (self.spec_flags() == ChessMoveFlags::EnPassant),
            r.is_some() ==> r.unwrap().wf() && r.unwrap().spec_file()
                == self.dest_square_spec().spec_file() && r.unwrap().spec_rank() == (
            if self.dest_square_spec().spec_rank() == 2 {
                3int
            } else {
                4int
            }),
    {
        if !self.is_ep() {
            return None;
        }
        let to = self.dest_square();
        if to.rank() == 2 {
            Some(ChessSquare::from_rank_file(3, to.file()))
        } else {
            Some(ChessSquare::from_rank_file(4, to.file()))
        }
    }

    pub open spec fn dest_square_spec(self) -> ChessSquare {
        ChessSquare { idx: self.spec_dest() as u8 }
    }
}

} // verus!
