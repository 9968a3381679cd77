//! Castling rights, including the files of the castling rooks (for Chess960).
use vstd::prelude::*;
use crate::chessboard::ChessSettings;
use crate::pieces::ChessColor;
use crate::squares::{C_FILE_NUM, D_FILE_NUM, F_FILE_NUM, G_FILE_NUM};

verus! {

/// The side on which to castle.
#[derive(Copy, Clone, Eq, PartialEq, Structural, Debug, Hash)]
pub enum CastleRight {
    Queenside,
    Kingside,
}

impl CastleRight {
    /// 0 for queenside, 1 for kingside.
    pub open spec fn spec_idx(self) -> int {
        match self {
            CastleRight::Queenside => 0,
            CastleRight::Kingside => 1,
        }
    }

    /// The file the king ends up on after castling.
    pub fn king_dest_file(self) -> (r: u8)
        ensures
            r == (if self == CastleRight::Queenside {
                C_FILE_NUM
            } else {
                G_FILE_NUM
            }),
    {
        match self {
            CastleRight::Queenside => C_FILE_NUM,
            CastleRight::Kingside => G_FILE_NUM,
        }
    }

    /// The file the rook ends up on after castling.
    pub fn rook_dest_file(self) -> (r: u8)
        ensures
            r == (if self == CastleRight::Queenside {
                D_FILE_NUM
            } else {
                F_FILE_NUM
            }),
    {
        match self {
            CastleRight::Queenside => D_FILE_NUM,
            CastleRight::Kingside => F_FILE_NUM,
        }
    }
}

/// For each color and side, `Some(file)` of the castling rook if that castling right remains.
#[derive(Copy, Clone, Eq, PartialEq, Structural, Debug, Default, Hash)]
pub struct CastlingFlags {
    pub white_queenside: Option<u8>,
    pub white_kingside: Option<u8>,
    pub black_queenside: Option<u8>,
    pub black_kingside: Option<u8>,
}

impl CastlingFlags {
    /// The castling right of `color` on `side`, as the file of its rook.
    pub open spec fn right(self, color: ChessColor, side: CastleRight) -> Option<u8> {
        match (color, side) {
            (ChessColor::White, CastleRight::Queenside) => self.white_queenside,
            (ChessColor::White, CastleRight::Kingside) => self.white_kingside,
            (ChessColor::Black, CastleRight::Queenside) => self.black_queenside,
            (ChessColor::Black, CastleRight::Kingside) => self.black_kingside,
        }
    }

    /// All rook files lie on the board.
    pub open spec fn wf(self) -> bool {
        forall|c: ChessColor, s: CastleRight| #[trigger]
            self.right(c, s).is_some() ==> self.right(c, s).unwrap() < 8
    }

    /// Only `right(color, side)` differs between `self` and `other`.
    pub open spec fn same_except(self, other: Self, color: ChessColor, side: CastleRight) -> bool {
        forall|c: ChessColor, s: CastleRight|
            (c != color || s != side) ==> #[trigger] self.right(c, s) == other.right(c, s)
    }

    /// `self` without the castling right of `color` on `side`.
    pub open spec fn spec_unset(self, color: ChessColor, side: CastleRight) -> Self {
        match (color, side) {
            (ChessColor::White, CastleRight::Queenside) => CastlingFlags { white_queenside: None, ..self },
            (ChessColor::White, CastleRight::Kingside) => CastlingFlags { white_kingside: None, ..self },
            (ChessColor::Black, CastleRight::Queenside) => CastlingFlags { black_queenside: None, ..self },
            (ChessColor::Black, CastleRight::Kingside) => CastlingFlags { black_kingside: None, ..self },
        }
    }

    /// `self` with the castling right of `color` on `side` given by the rook on `file`.
    pub open spec fn spec_set(self, color: ChessColor, side: CastleRight, file: u8) -> Self {
        match (color, side) {
            (ChessColor::White, CastleRight::Queenside) => CastlingFlags { white_queenside: Some(file), ..self },
            (ChessColor::White, CastleRight::Kingside) => CastlingFlags { white_kingside: Some(file), ..self },
            (ChessColor::Black, CastleRight::Queenside) => CastlingFlags { black_queenside: Some(file), ..self },
            (ChessColor::Black, CastleRight::Kingside) => CastlingFlags { black_kingside: Some(file), ..self },
        }
    }

    /// `self` without any castling right of `color`.
    pub open spec fn spec_clear(self, color: ChessColor) -> Self {
        self.spec_unset(color, CastleRight::Queenside).spec_unset(color, CastleRight::Kingside)
    }

    /// Removing castling rights keeps the rook files on the board.
    pub proof fn lemma_unset_wf(self, color: ChessColor, side: CastleRight)
        requires
            self.wf(),
        ensures
            self.spec_unset(color, side).wf(),
            self.spec_clear(color).wf(),
    {
        let u = self.spec_unset(color, side);
        assert forall|c: ChessColor, s: CastleRight| #[trigger]
            u.right(c, s).is_some() implies u.right(c, s).unwrap() < 8 by {
            assert(self.right(c, s).is_some());
        }
        let q = self.spec_unset(color, CastleRight::Queenside);
        assert forall|c: ChessColor, s: CastleRight| #[trigger]
            q.right(c, s).is_some() implies q.right(c, s).unwrap() < 8 by {
            assert(self.right(c, s).is_some());
        }
        let k = q.spec_unset(color, CastleRight::Kingside);
        assert forall|c: ChessColor, s: CastleRight| #[trigger]
            k.right(c, s).is_some() implies k.right(c, s).unwrap() < 8 by {
            assert(q.right(c, s).is_some());
        }
    }

    /// Flags with the same rights are equal.
    pub proof fn lemma_ext(a: Self, b: Self)
        requires
            forall|c: ChessColor, s: CastleRight| #[trigger] a.right(c, s) == b.right(c, s),
        ensures
            a == b,
    {
        assert(a.right(ChessColor::White, CastleRight::Queenside) == b.right(ChessColor::White, CastleRight::Queenside));
        assert(a.right(ChessColor::White, CastleRight::Kingside) == b.right(ChessColor::White, CastleRight::Kingside));
        assert(a.right(ChessColor::Black, CastleRight::Queenside) == b.right(ChessColor::Black, CastleRight::Queenside));
        assert(a.right(ChessColor::Black, CastleRight::Kingside) == b.right(ChessColor::Black, CastleRight::Kingside));
    }

    /// No castling rights at all.
    pub fn new() -> (r: Self)
        ensures
            forall|c: ChessColor, s: CastleRight| #[trigger] r.right(c, s).is_none(),
            r.wf(),
    {
        CastlingFlags {
            white_queenside: None,
            white_kingside: None,
            black_queenside: None,
            black_kingside: None,
        }
    }

    /// The rights of the standard chess starting position: rooks on the a- and h-files.
    pub fn for_startpos() -> (r: Self)
        ensures
            forall|c: ChessColor| #[trigger] r.right(c, CastleRight::Queenside) == Some(0u8),
            forall|c: ChessColor| #[trigger] r.right(c, CastleRight::Kingside) == Some(7u8),
            r.wf(),
    {
        CastlingFlags {
            white_queenside: Some(0),
            white_kingside: Some(7),
            black_queenside: Some(0),
            black_kingside: Some(7),
        }
    }

    /// The castling rights as a number from 0 to 15: white queenside counts 1, white kingside 2,
    /// black queenside 4 and black kingside 8.
    pub open spec fn spec_allowed(self) -> int {
        (if self.white_queenside.is_some() {
            1int
        } else {
            0
        }) + (if self.white_kingside.is_some() {
            2int
        } else {
            0
        }) + (if self.black_queenside.is_some() {
            4int
        } else {
            0
        }) + (if self.black_kingside.is_some() {
            8int
        } else {
            0
        })
    }

    /// A number from 0 to 15 whose bit `2 * color + side` is set iff that castling right remains.
    pub fn allowed_castling_directions(self) -> (r: usize)
        ensures
            r == self.spec_allowed(),
            r < 16,
    {
        let mut r: usize = 0;
        if self.white_queenside.is_some() {
            r = r + 1;
        }
        if self.white_kingside.is_some() {
            r = r + 2;
        }
        if self.black_queenside.is_some() {
            r = r + 4;
        }
        if self.black_kingside.is_some() {
            r = r + 8;
        }
        r
    }

    /// Whether the castling right hasn't been lost (regardless of the current position).
    pub fn can_castle(self, color: ChessColor, side: CastleRight) -> (r: bool)
        ensures
            r == self.right(color, side).is_some(),
    {
        self.get(color, side).is_some()
    }

    /// The castling right of `color` on `side`, as the file of its rook.
    pub fn get(self, color: ChessColor, side: CastleRight) -> (r: Option<u8>)
        ensures
            r == self.right(color, side),
    {
        match (color, side) {
            (ChessColor::White, CastleRight::Queenside) => self.white_queenside,
            (ChessColor::White, CastleRight::Kingside) => self.white_kingside,
            (ChessColor::Black, CastleRight::Queenside) => self.black_queenside,
            (ChessColor::Black, CastleRight::Kingside) => self.black_kingside,
        }
    }

    /// The file of the castling rook; 0 if the right has been lost.
    pub fn rook_start_file(self, color: ChessColor, side: CastleRight) -> (r: u8)
        ensures
            self.right(color, side).is_some() ==> r == self.right(color, side).unwrap(),
            self.right(color, side).is_none() ==> r == 0,
            self.wf() ==> r < 8,
    {
        match self.get(color, side) {
            Some(f) => f,
            None => 0,
        }
    }

    fn set(&mut self, color: ChessColor, side: CastleRight, val: Option<u8>)
        ensures
            final(self).right(color, side) == val,
            final(self).same_except(*old(self), color, side),
    {
        match (color, side) {
            (ChessColor::White, CastleRight::Queenside) => self.white_queenside = val,
            (ChessColor::White, CastleRight::Kingside) => self.white_kingside = val,
            (ChessColor::Black, CastleRight::Queenside) => self.black_queenside = val,
            (ChessColor::Black, CastleRight::Kingside) => self.black_kingside = val,
        }
    }

    /// Gives `color` the right to castle on `side` with the rook on `file`; an error if that right
    /// is already set. A rook off the a- and h-files marks the position as DFRC in `settings`.
    pub fn set_castle_right(
        &mut self,
        color: ChessColor,
        side: CastleRight,
        file: u8,
        settings: &mut ChessSettings,
    ) -> (r: Result<(), ()>)
        requires
            file < 8,
            old(self).wf(),
        ensures
            r.is_ok() == old(self).right(color, side).is_none(),
            r.is_ok() ==> final(self).right(color, side) == Some(file),
            r.is_ok() ==> *final(self) == old(self).spec_set(color, side, file),
            r.is_err() ==> *final(self) == *old(self),
            final(self).same_except(*old(self), color, side),
            final(self).wf(),
            *final(settings) == (if r.is_ok() && file != 0 && file != 7 {
                ChessSettings { dfrc: true, ..*old(settings) }
            } else {
                *old(settings)
            }),
    {
        if self.can_castle(color, side) {
            return Err(());
        }
        self.set(color, side, Some(file));
        proof {
            Self::lemma_ext(*self, old(self).spec_set(color, side, file));
        }
        if file != 0 && file != 7 {
            settings.dfrc = true;
        }
        Ok(())
    }

    /// Removes the castling right of `color` on `side`.
    pub fn unset_castle_right(&mut self, color: ChessColor, side: CastleRight)
        requires
            old(self).wf(),
        ensures
            final(self).right(color, side).is_none(),
            final(self).same_except(*old(self), color, side),
            final(self).wf(),
            *final(self) == old(self).spec_unset(color, side),
    {
        self.set(color, side, None);
        proof {
            Self::lemma_ext(*self, old(self).spec_unset(color, side));
        }
    }

    /// Removes both castling rights of `color`.
    pub fn clear_castle_rights(&mut self, color: ChessColor)
        requires
            old(self).wf(),
        ensures
            forall|s: CastleRight| #[trigger] final(self).right(color, s).is_none(),
            forall|c: ChessColor, s: CastleRight|
                c != color ==> #[trigger] final(self).right(c, s) == old(self).right(c, s),
            final(self).wf(),
            *final(self) == old(self).spec_clear(color),
    {
        self.unset_castle_right(color, CastleRight::Queenside);
        self.unset_castle_right(color, CastleRight::Kingside);
    }
}

} // verus!
