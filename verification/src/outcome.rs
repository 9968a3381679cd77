//! How a chess game ends: checkmate, stalemate, the 50 move rule, repetitions and insufficient
//! material.
use vstd::prelude::*;
use crate::bits::{is_single_piece, num_ones, pop_count};
use crate::chessboard::Chessboard;
use crate::games::{
    effective_count, n_fold_repetition, spec_n_fold_repetition, BoardHistory, NoHistory,
    PlayerResult,
};
use crate::moves::ChessMove;
use crate::make_move::{spec_has_legal_move, spec_make_move};
use crate::pieces::ChessColor;

verus! {

/// The light squares (h1 is light).
pub const LIGHT_SQUARES: u64 = 0x55aa_55aa_55aa_55aa;

/// The dark squares (a1 is dark).
pub const DARK_SQUARES: u64 = 0xaa55_aa55_aa55_aa55;

/// The four corners of the board.
pub const CORNER_SQUARES: u64 = 0x8100_0000_0000_0081;

/// Neither player can ever checkmate: no pawns, rooks or queens, no bishops on both square colors,
/// no bishop together with a knight and at most one knight.
pub open spec fn spec_insufficient_material(b: Chessboard) -> bool {
    &&& b.piece_bbs[0] == 0
    &&& b.piece_bbs[3] | b.piece_bbs[4] == 0
    &&& !(b.piece_bbs[2] & DARK_SQUARES != 0 && b.piece_bbs[2] & LIGHT_SQUARES != 0)
    &&& !(b.piece_bbs[2] != 0 && b.piece_bbs[1] != 0)
    &&& pop_count(b.piece_bbs[1]) < 2
}

/// Whether `player` has a realistic way to checkmate: more than a king, and either pawns on the board,
/// an own rook or queen, the other king in a corner, a bishop with more than two knights, a knight
/// with a bishop, or bishops on both square colors.
pub open spec fn spec_can_reasonably_win(b: Chessboard, player: ChessColor) -> bool {
    let ours = b.color_bbs[player.spec_idx()];
    let theirs = b.color_bbs[player.spec_other().spec_idx()];
    let bishops = b.piece_bbs[2] & ours;
    let knights = b.piece_bbs[1] & ours;
    if pop_count(ours) == 1 {
        false
    } else if b.piece_bbs[0] | (b.piece_bbs[3] & ours) | (b.piece_bbs[4] & ours) != 0 || (
    b.piece_bbs[5] & theirs) & CORNER_SQUARES != 0 {
        true
    } else if bishops == 0 && pop_count(knights) <= 2 {
        false
    } else if knights == 0 && (bishops & LIGHT_SQUARES == 0 || bishops & DARK_SQUARES == 0) {
        false
    } else {
        true
    }
}

/// Checkmate: the player to move is in check and has no legal move.
pub open spec fn spec_is_checkmate(b: Chessboard) -> bool {
    b.is_in_check_spec() && !spec_has_legal_move(b)
}

/// A draw by the 50 move rule: 100 plies without a capture or pawn move, unless it is checkmate.
pub open spec fn spec_is_50mr_draw(b: Chessboard) -> bool {
    b.ply_100_ctr >= 100 && !spec_is_checkmate(b)
}

/// The draws found without generating moves (beyond the checkmate test of the 50 move rule), where
/// `repeated` says whether the position occurred for the third time.
pub open spec fn spec_result_no_movegen(b: Chessboard, repeated: bool) -> Option<PlayerResult> {
    if spec_is_50mr_draw(b) || spec_insufficient_material(b) || repeated {
        Some(PlayerResult::Draw)
    } else {
        None
    }
}

/// The result for the player to move if the game is over: a draw as above, else checkmate (lost)
/// or stalemate (draw) when there is no legal move.
pub open spec fn spec_player_result(b: Chessboard, repeated: bool) -> Option<PlayerResult> {
    if spec_result_no_movegen(b, repeated).is_some() {
        spec_result_no_movegen(b, repeated)
    } else if !spec_has_legal_move(b) {
        Some(if b.is_in_check_spec() {
            PlayerResult::Lose
        } else {
            PlayerResult::Draw
        })
    } else {
        None
    }
}

/// Whether the player to move has lost, without a history of earlier positions.
pub open spec fn spec_is_game_lost(b: Chessboard) -> bool {
    spec_player_result(b, false) == Some(PlayerResult::Lose)
}

impl Chessboard {
    /// Whether no checkmate is possible for either player.
    pub fn has_insufficient_material(&self) -> (r: bool)
        ensures
            r == spec_insufficient_material(*self),
    {
        if self.piece_bbs[0] != 0 {
            return false;
        }
        if self.piece_bbs[3] | self.piece_bbs[4] != 0 {
            return false;
        }
        let bishops = self.piece_bbs[2];
        if bishops & DARK_SQUARES != 0 && bishops & LIGHT_SQUARES != 0 {
            return false;
        }
        if bishops != 0 && self.piece_bbs[1] != 0 {
            return false;
        }
        if num_ones(self.piece_bbs[1]) >= 2 {
            return false;
        }
        true
    }

    /// Whether `player` has a realistic way to win (stricter than sufficient material: two knights
    /// against a lone king can't force mate).
    pub fn can_reasonably_win(&self, player: ChessColor) -> (r: bool)
        ensures
            r == spec_can_reasonably_win(*self, player),
    {
        let ours = self.colored_bb(player);
        let theirs = self.colored_bb(player.other());
        if is_single_piece(ours) {
            return false;
        }
        if self.piece_bbs[0] | (self.piece_bbs[3] & ours) | (self.piece_bbs[4] & ours) != 0 || (
        self.piece_bbs[5] & theirs) & CORNER_SQUARES != 0 {
            return true;
        }
        let bishops = self.piece_bbs[2] & ours;
        let knights = self.piece_bbs[1] & ours;
        if bishops == 0 && num_ones(knights) <= 2 {
            return false;
        }
        if knights == 0 && (bishops & LIGHT_SQUARES == 0 || bishops & DARK_SQUARES == 0) {
            return false;
        }
        true
    }

    /// Whether the player to move is checkmated.
    pub fn is_checkmate_slow(&self) -> (r: bool)
        requires
            self.castling.wf(),
            self.ep_square.is_some() ==> self.ep_square.unwrap().wf(),
        ensures
            r == spec_is_checkmate(*self),
    {
        self.is_in_check() && self.legal_moves_slow().len() == 0
    }

    /// Whether the player to move is stalemated.
    pub fn is_stalemate_slow(&self) -> (r: bool)
        requires
            self.castling.wf(),
            self.ep_square.is_some() ==> self.ep_square.unwrap().wf(),
        ensures
            r == (!self.is_in_check_spec() && !spec_has_legal_move(*self)),
    {
        !self.is_in_check() && self.legal_moves_slow().len() == 0
    }

    /// Whether the game is drawn by the 50 move rule: 100 plies without a capture or pawn move,
    /// unless the position is checkmate.
    pub fn is_50mr_draw(&self) -> (r: bool)
        requires
            self.castling.wf(),
            self.ep_square.is_some() ==> self.ep_square.unwrap().wf(),
        ensures
            r == spec_is_50mr_draw(*self),
    {
        self.ply_100_ctr >= 100 && !self.is_checkmate_slow()
    }

    /// Whether the position occurred twice before since the last capture or pawn move.
    pub fn is_3fold_repetition<H: BoardHistory>(&self, history: &H) -> (r: bool)
        ensures
            r == spec_n_fold_repetition(
                effective_count(3, history.spec_override_count()) as int,
                history.hashes(),
                self.hash,
                self.ply_100_ctr as int,
            ),
    {
        n_fold_repetition(3, history, self.hash, self.ply_100_ctr)
    }

    /// The result for the player to move when they have no legal moves: checkmate or stalemate.
    pub fn no_moves_result(&self) -> (r: PlayerResult)
        ensures
            r == (if self.is_in_check_spec() {
                PlayerResult::Lose
            } else {
                PlayerResult::Draw
            }),
    {
        if self.is_in_check() {
            PlayerResult::Lose
        } else {
            PlayerResult::Draw
        }
    }

    /// A draw by the 50 move rule, insufficient material or threefold repetition, found without
    /// generating moves beyond a checkmate test for the 50 move rule.
    pub fn player_result_no_movegen<H: BoardHistory>(&self, history: &H) -> (r: Option<
        PlayerResult,
    >)
        requires
            self.castling.wf(),
            self.ep_square.is_some() ==> self.ep_square.unwrap().wf(),
        ensures
            r == spec_result_no_movegen(*self, spec_n_fold_repetition(
                effective_count(3, history.spec_override_count()) as int,
                history.hashes(),
                self.hash,
                self.ply_100_ctr as int,
            )),
    {
        if self.is_50mr_draw() || self.has_insufficient_material() || self.is_3fold_repetition(
            history,
        ) {
            return Some(PlayerResult::Draw);
        }
        None
    }

    /// The result for the player to move if the game is over, else `None`.
    pub fn player_result_slow<H: BoardHistory>(&self, history: &H) -> (r: Option<PlayerResult>)
        requires
            self.castling.wf(),
            self.ep_square.is_some() ==> self.ep_square.unwrap().wf(),
        ensures
            r == spec_player_result(*self, spec_n_fold_repetition(
                effective_count(3, history.spec_override_count()) as int,
                history.hashes(),
                self.hash,
                self.ply_100_ctr as int,
            )),
    {
        if let Some(res) = self.player_result_no_movegen(history) {
            return Some(res);
        }
        if self.legal_moves_slow().len() == 0 {
            Some(self.no_moves_result())
        } else {
            None
        }
    }

    /// Whether the player to move has lost.
    pub fn is_game_lost_slow(&self) -> (r: bool)
        requires
            self.castling.wf(),
            self.ep_square.is_some() ==> self.ep_square.unwrap().wf(),
        ensures
            r == spec_is_game_lost(*self),
    {
        let hist = NoHistory {  };
        match self.player_result_slow(&hist) {
            Some(PlayerResult::Lose) => true,
            _ => false,
        }
    }

    /// Whether playing `mov` wins the game; `false` if it is illegal.
    pub fn is_game_won_after_slow(&self, mov: ChessMove) -> (r: bool)
        requires
            self.castling.wf(),
            self.ep_square.is_some() ==> self.ep_square.unwrap().wf(),
        ensures
            r == match spec_make_move(*self, mov) {
                Some(n) => spec_is_game_lost(n),
                None => false,
            },
    {
        match self.make_move(mov) {
            Some(b) => b.is_game_lost_slow(),
            None => false,
        }
    }
}

/// Which material is insufficient to mate: a pawn, a rook or queen, bishops on both square colors,
/// a bishop together with a knight, or two knights always leave enough material; kings alone, kings
/// with one knight, or kings with bishops that all stand on squares of one color do not.
pub proof fn law_insufficient_material(b: Chessboard)
    ensures
        b.piece_bbs[0] != 0 ==> !spec_insufficient_material(b),
        b.piece_bbs[3] != 0 || b.piece_bbs[4] != 0 ==> !spec_insufficient_material(b),
        b.piece_bbs[2] & DARK_SQUARES != 0 && b.piece_bbs[2] & LIGHT_SQUARES != 0
            ==> !spec_insufficient_material(b),
        b.piece_bbs[2] != 0 && b.piece_bbs[1] != 0 ==> !spec_insufficient_material(b),
        pop_count(b.piece_bbs[1]) >= 2 ==> !spec_insufficient_material(b),
        b.piece_bbs[0] == 0 && b.piece_bbs[3] == 0 && b.piece_bbs[4] == 0 && b.piece_bbs[2] == 0
            && pop_count(b.piece_bbs[1]) <= 1 ==> spec_insufficient_material(b),
        b.piece_bbs[0] == 0 && b.piece_bbs[3] == 0 && b.piece_bbs[4] == 0 && b.piece_bbs[1] == 0 && (
        b.piece_bbs[2] & DARK_SQUARES == 0 || b.piece_bbs[2] & LIGHT_SQUARES == 0)
            ==> spec_insufficient_material(b),
{
    broadcast use crate::bits::group_bits;

    let r = b.piece_bbs[3];
    let q = b.piece_bbs[4];
    let bi = b.piece_bbs[2];
    if r | q == 0 {
        assert forall|k: u64| k < 64 implies crate::bits::bit(r, k) == crate::bits::bit(0u64, k)
            && crate::bits::bit(q, k) == crate::bits::bit(0u64, k) by {
            assert(!crate::bits::bit(r | q, k));
        }
        crate::bits::lemma_bits_ext(r, 0u64);
        crate::bits::lemma_bits_ext(q, 0u64);
    }
    if r == 0 && q == 0 {
        assert forall|k: u64| k < 64 implies crate::bits::bit(r | q, k) == crate::bits::bit(0u64, k) by {}
        crate::bits::lemma_bits_ext(r | q, 0u64);
    }
    if bi == 0 {
        assert forall|k: u64| k < 64 implies crate::bits::bit(bi & DARK_SQUARES, k) == crate::bits::bit(0u64, k)
            && crate::bits::bit(bi & LIGHT_SQUARES, k) == crate::bits::bit(0u64, k) by {}
        crate::bits::lemma_bits_ext(bi & DARK_SQUARES, 0u64);
        crate::bits::lemma_bits_ext(bi & LIGHT_SQUARES, 0u64);
    }
    crate::bits::lemma_pop_count_zero(b.piece_bbs[1]);
}

/// A bishop and a knight on the board are never a draw by material: unless the 50 move rule or a
/// repetition ends the game, the game goes on as far as material is concerned.
pub proof fn law_bishop_and_knight_not_drawn(b: Chessboard)
    requires
        b.piece_bbs[2] != 0,
        b.piece_bbs[1] != 0,
        b.ply_100_ctr < 100,
    ensures
        spec_result_no_movegen(b, false) is None,
        spec_player_result(b, false) != Some(PlayerResult::Draw) || !spec_has_legal_move(b),
{
    law_insufficient_material(b);
}

} // verus!
