//! The chess position: bitboards of pieces and colors plus the state that isn't visible on the board.
use vstd::prelude::*;
use crate::bits::{bit, group_bits, has_bit, lsb, num_ones, pop_count, pop_lsb, single_bb};
use crate::castling::{CastleRight, CastlingFlags};
use crate::games::PosHash;
use crate::pieces::{ChessColor, ChessPieceType, ColoredChessPieceType};
use crate::squares::{file_of, ChessSquare};
use crate::zobrist::{castle_key, ep_file_key, piece_key, SIDE_TO_MOVE_KEY};

verus! {

/// How strictly to check a position.
#[derive(Copy, Clone, Eq, PartialEq, Structural, Debug)]
pub enum Strictness {
    /// Accept positions that are unusual but can be played from.
    Relaxed,
    /// Only accept positions that could plausibly occur in a game.
    Strict,
}

/// Why a position, a FEN or a move was rejected.
#[derive(Copy, Clone, Eq, PartialEq, Structural, Debug)]
pub enum ChessError {
    EmptyInput,
    MissingFenPart,
    InvalidPieceChar,
    InvalidRowLength,
    InvalidNumberOfRows,
    InvalidColor,
    InvalidCastlingRights,
    DuplicateCastlingRight,
    KingNotOnBackrank,
    NoCastlingRook,
    StrictCastlingRights,
    InvalidSquare,
    InvalidEpSquare,
    InvalidNumber,
    NotExactlyOneKing,
    PawnOnBackrank,
    InactivePlayerInCheck,
    TooManyCheckers,
    HalfmoveClockTooLarge,
    PlyTooLarge,
    HalfmoveClockLargerThanPly,
    TooManyPieces,
    OverlappingPieces,
    IncorrectPieceDistribution,
    NoSuchStartpos,
    UnknownName,
    InvalidMove,
    IllegalMove,
    AmbiguousMove,
    IncorrectAnnotation,
    IncorrectHash,
}

/// How a position was given, which decides how it is written: castling rights as rook files
/// (Shredder FEN) rather than `KQkq`, and castling moves as the king capturing its rook (Chess960)
/// rather than the king's destination.
#[derive(Copy, Clone, Eq, PartialEq, Structural, Debug, Default)]
pub struct ChessSettings {
    /// The castling rights were given as files.
    pub shredder_fen: bool,
    /// Some castling right has a king off the e file or a rook off the a and h files.
    pub dfrc: bool,
}

impl crate::games::Settings for ChessSettings {
}

/// A chess position, including Chess960 and Double Fischer Random Chess positions.
#[derive(Copy, Clone, Eq, PartialEq, Debug)]
pub struct Chessboard {
    /// For each piece type from pawn (0) to king (5), the squares it occupies.
    pub piece_bbs: [u64; 6],
    /// For each color, the squares its pieces occupy.
    pub color_bbs: [u64; 2],
    /// Half moves played since the start of the game.
    pub ply: usize,
    /// Half moves since the last capture or pawn move.
    pub ply_100_ctr: usize,
    pub active_player: ChessColor,
    pub castling: CastlingFlags,
    /// Set only if the player to move can capture en passant on this square.
    pub ep_square: Option<ChessSquare>,
    pub hash: PosHash,
    /// How the position is written.
    pub settings: ChessSettings,
}

/// The chess position type under its short name.
pub type Board = Chessboard;

/// A chessboard that may not satisfy the invariants of a position yet.
#[derive(Copy, Clone, Debug)]
pub struct UnverifiedChessboard(pub Chessboard);

/// The board without pieces, rights or en passant square, with White to move.
pub open spec fn spec_empty_board() -> Chessboard {
    Chessboard {
        piece_bbs: [0u64, 0u64, 0u64, 0u64, 0u64, 0u64],
        color_bbs: [0u64, 0u64],
        ply: 0,
        ply_100_ctr: 0,
        active_player: ChessColor::White,
        castling: CastlingFlags {
            white_queenside: None,
            white_kingside: None,
            black_queenside: None,
            black_kingside: None,
        },
        ep_square: None,
        hash: PosHash(0),
        settings: ChessSettings { shredder_fen: false, dfrc: false },
    }
}

/// `b` with `piece` toggled on square `sq` in its piece and color bitboards; unchanged for `Empty`.
pub open spec fn spec_place(b: Chessboard, sq: int, piece: ColoredChessPieceType) -> Chessboard {
    match piece.spec_color() {
        Some(color) => {
            let bb = 1u64 << (sq as u64);
            let p = piece.spec_uncolor().spec_idx();
            Chessboard {
                piece_bbs: vstd::array::spec_array_update(b.piece_bbs, p, b.piece_bbs[p] ^ bb),
                color_bbs: vstd::array::spec_array_update(
                    b.color_bbs,
                    color.spec_idx(),
                    b.color_bbs[color.spec_idx()] ^ bb,
                ),
                ..b
            }
        },
        None => b,
    }
}

/// `b` without the piece on square `s`: a rook leaving its castling square takes that castling
/// right with it, and the pawn that could be captured en passant takes the en passant square.
pub open spec fn spec_remove_piece(b: Chessboard, s: int) -> Chessboard {
    let p = spec_piece_type_at(b.piece_bbs, s as u64);
    let color = if bit(b.color_bbs[1], s as u64) {
        ChessColor::Black
    } else {
        ChessColor::White
    };
    let file = crate::squares::file_of(s);
    let rank = crate::squares::rank_of(s);
    if p == ChessPieceType::Empty {
        b
    } else {
        let t = spec_place(b, s, ColoredChessPieceType::spec_new(color, p));
        let c0 = b.castling;
        let c1 = if p == ChessPieceType::Rook && rank == 7 * color.spec_idx() && c0.right(
            color,
            CastleRight::Queenside,
        ).is_some() && c0.right(color, CastleRight::Queenside).unwrap() == file {
            c0.spec_unset(color, CastleRight::Queenside)
        } else {
            c0
        };
        let c2 = if p == ChessPieceType::Rook && rank == 7 * color.spec_idx() && c1.right(
            color,
            CastleRight::Kingside,
        ).is_some() && c1.right(color, CastleRight::Kingside).unwrap() == file {
            c1.spec_unset(color, CastleRight::Kingside)
        } else {
            c1
        };
        let ep = match b.ep_square {
            Some(e) => if p == ChessPieceType::Pawn && e.idx < 64 && crate::squares::file_of(
                e.idx as int,
            ) == file && ((crate::squares::rank_of(e.idx as int) == 2 && rank == 3) || (
            crate::squares::rank_of(e.idx as int) == 5 && rank == 4)) {
                None
            } else {
                b.ep_square
            },
            None => None,
        };
        Chessboard { castling: c2, ep_square: ep, ..t }
    }
}

/// The piece type of the first piece bitboard, in the order pawn to king, that contains square `i`.
pub open spec fn spec_piece_type_at(bbs: [u64; 6], i: u64) -> ChessPieceType {
    if bit(bbs[0], i) {
        ChessPieceType::Pawn
    } else if bit(bbs[1], i) {
        ChessPieceType::Knight
    } else if bit(bbs[2], i) {
        ChessPieceType::Bishop
    } else if bit(bbs[3], i) {
        ChessPieceType::Rook
    } else if bit(bbs[4], i) {
        ChessPieceType::Queen
    } else if bit(bbs[5], i) {
        ChessPieceType::King
    } else {
        ChessPieceType::Empty
    }
}

/// The xor of the keys of `piece` of `color` on the squares of `bb`.
pub open spec fn spec_keys_of(bb: u64, piece: ChessPieceType, color: ChessColor) -> u64
    decreases bb,
    via lemma_keys_of_decreases
{
    if bb == 0 {
        0
    } else {
        let s = vstd::std_specs::bits::u64_trailing_zeros(bb);
        crate::zobrist::spec_piece_key(piece, color, s as int) ^ spec_keys_of(
            bb ^ (1u64 << s as u64),
            piece,
            color,
        )
    }
}

#[via_fn]
proof fn lemma_keys_of_decreases(bb: u64, piece: ChessPieceType, color: ChessColor) {
    if bb != 0 {
        vstd::std_specs::bits::axiom_u64_trailing_zeros(bb);
        let s = vstd::std_specs::bits::u64_trailing_zeros(bb) as u64;
        assert(s < 64 && (bb >> s) & 1u64 == 1u64 ==> (bb ^ (1u64 << s)) < bb) by (bit_vector);
    }
}

/// The squares of the `i`-th combination of color and piece type, white pawns first and black
/// kings last.
/// The colored piece on square `i` of `b` (`Empty` on an empty square).
pub open spec fn spec_colored_piece_at(b: Chessboard, i: u64) -> ColoredChessPieceType {
    ColoredChessPieceType::spec_new(
        if bit(b.color_bbs[1], i) {
            ChessColor::Black
        } else {
            ChessColor::White
        },
        spec_piece_type_at(b.piece_bbs, i),
    )
}

pub open spec fn spec_colored_piece_bb_at(b: Chessboard, i: nat) -> u64 {
    b.color_bbs[(i / 6) as int] & b.piece_bbs[(i % 6) as int]
}

/// The xor of the keys of the pieces of the first `i` combinations of color and piece type.
pub open spec fn spec_pieces_hash(b: Chessboard, i: nat) -> u64
    decreases i,
{
    if i == 0 {
        0
    } else {
        let j = (i - 1) as nat;
        spec_pieces_hash(b, j) ^ spec_keys_of(
            spec_colored_piece_bb_at(b, j),
            ChessPieceType::spec_from_idx((j % 6) as int),
            ChessColor::spec_from_idx((j / 6) as int),
        )
    }
}

pub proof fn lemma_pieces_hash_frame(a: Chessboard, b: Chessboard, i: nat)
    requires
        a.piece_bbs == b.piece_bbs,
        a.color_bbs == b.color_bbs,
    ensures
        spec_pieces_hash(a, i) == spec_pieces_hash(b, i),
    decreases i,
{
    if i > 0 {
        lemma_pieces_hash_frame(a, b, (i - 1) as nat);
    }
}

/// The zobrist hash depends only on the pieces, the en passant square, the castling rights and the
/// player to move.
pub proof fn lemma_zobrist_frame(a: Chessboard, b: Chessboard)
    requires
        a.piece_bbs == b.piece_bbs,
        a.color_bbs == b.color_bbs,
        a.ep_square == b.ep_square,
        a.castling == b.castling,
        a.active_player == b.active_player,
    ensures
        spec_zobrist(a) == spec_zobrist(b),
{
    lemma_pieces_hash_frame(a, b, 12);
}

/// The zobrist hash of a position: the keys of all pieces, of the file of the en passant square,
/// of the castling rights, and of black to move.
pub open spec fn spec_zobrist(b: Chessboard) -> PosHash {
    let pieces = spec_pieces_hash(b, 12);
    let with_ep = match b.ep_square {
        Some(sq) => pieces ^ crate::zobrist::EP_FILE_KEYS[file_of(sq.idx as int)],
        None => pieces,
    };
    let with_castling = with_ep ^ crate::zobrist::CASTLE_KEYS[b.castling.spec_allowed()];
    PosHash(
        if b.active_player == ChessColor::Black {
            with_castling ^ crate::zobrist::SIDE_TO_MOVE_KEY
        } else {
            with_castling
        },
    )
}

impl Chessboard {
    /// The bitboards agree: the colors are disjoint, every square is occupied by at most one piece
    /// type, and exactly the squares of a color hold a piece.
    pub open spec fn bitboards_consistent(self) -> bool {
        &&& self.color_bbs[0] & self.color_bbs[1] == 0
        &&& forall|i: int, j: int|
            0 <= i < j < 6 ==> #[trigger] self.piece_bbs[i] & #[trigger] self.piece_bbs[j] == 0
        &&& self.piece_bbs[0] | self.piece_bbs[1] | self.piece_bbs[2] | self.piece_bbs[3]
            | self.piece_bbs[4] | self.piece_bbs[5] == self.color_bbs[0] | self.color_bbs[1]
    }

    /// The invariant of a position: consistent bitboards, one king per color, valid castling
    /// flags and en passant square.
    pub open spec fn wf(self) -> bool {
        &&& self.bitboards_consistent()
        &&& pop_count(self.color_bbs[0] & self.piece_bbs[5]) == 1
        &&& pop_count(self.color_bbs[1] & self.piece_bbs[5]) == 1
        &&& self.castling.wf()
        &&& self.ep_square.is_some() ==> self.ep_square.unwrap().wf()
        &&& self.ep_square.is_some() ==> !bit(self.spec_occupied(), self.ep_square.unwrap().idx as u64)
        &&& self.ep_square.is_some() ==> bit(
            self.spec_colored_piece_bb(self.active_player.spec_other(), ChessPieceType::Pawn),
            self.spec_ep_victim() as u64,
        )
    }

    /// The square of the pawn that en passant would capture: behind the en passant square from the
    /// point of view of the player to move.
    pub open spec fn spec_ep_victim(self) -> int {
        let ep = self.ep_square.unwrap().idx as int;
        if self.active_player == ChessColor::White {
            ep - 8
        } else {
            ep + 8
        }
    }

    pub open spec fn spec_piece_bb(self, piece: ChessPieceType) -> u64 {
        self.piece_bbs[piece.spec_idx()]
    }

    pub open spec fn spec_colored_bb(self, color: ChessColor) -> u64 {
        self.color_bbs[color.spec_idx()]
    }

    pub open spec fn spec_colored_piece_bb(self, color: ChessColor, piece: ChessPieceType) -> u64 {
        self.spec_colored_bb(color) & self.spec_piece_bb(piece)
    }

    pub open spec fn spec_occupied(self) -> u64 {
        self.color_bbs[0] | self.color_bbs[1]
    }

    /// The squares occupied by pieces of type `piece` (which must not be `Empty`).
    pub fn piece_bb(&self, piece: ChessPieceType) -> (r: u64)
        requires
            piece != ChessPieceType::Empty,
        ensures
            r == self.spec_piece_bb(piece),
    {
        self.piece_bbs[piece.idx()]
    }

    /// The squares occupied by pieces of `color`.
    pub fn colored_bb(&self, color: ChessColor) -> (r: u64)
        ensures
            r == self.spec_colored_bb(color),
    {
        self.color_bbs[color.idx()]
    }

    pub fn active_player_bb(&self) -> (r: u64)
        ensures
            r == self.spec_colored_bb(self.active_player),
    {
        self.colored_bb(self.active_player)
    }

    pub fn inactive_player_bb(&self) -> (r: u64)
        ensures
            r == self.spec_colored_bb(self.active_player.spec_other()),
    {
        self.colored_bb(self.active_player.other())
    }

    pub fn occupied_bb(&self) -> (r: u64)
        ensures
            r == self.spec_occupied(),
    {
        self.color_bbs[0] | self.color_bbs[1]
    }

    pub fn empty_bb(&self) -> (r: u64)
        ensures
            r == !self.spec_occupied(),
    {
        !self.occupied_bb()
    }

    pub fn is_occupied(&self, square: ChessSquare) -> (r: bool)
        requires
            square.wf(),
        ensures
            r == bit(self.spec_occupied(), square.idx as u64),
    {
        has_bit(self.occupied_bb(), square.idx)
    }

    pub fn is_empty(&self, square: ChessSquare) -> (r: bool)
        requires
            square.wf(),
        ensures
            r == !bit(self.spec_occupied(), square.idx as u64),
    {
        !self.is_occupied(square)
    }

    /// The squares occupied by pieces of type `piece` and color `color`.
    pub fn colored_piece_bb(&self, color: ChessColor, piece: ChessPieceType) -> (r: u64)
        requires
            piece != ChessPieceType::Empty,
        ensures
            r == self.spec_colored_piece_bb(color, piece),
    {
        self.colored_bb(color) & self.piece_bb(piece)
    }

    pub fn active_player(&self) -> (r: ChessColor)
        ensures
            r == self.active_player,
    {
        self.active_player
    }

    pub fn inactive_player(&self) -> (r: ChessColor)
        ensures
            r == self.active_player.spec_other(),
    {
        self.active_player.other()
    }

    pub fn halfmove_ctr_since_start(&self) -> (r: usize)
        ensures
            r == self.ply,
    {
        self.ply
    }

    pub fn halfmove_repetition_clock(&self) -> (r: usize)
        ensures
            r == self.ply_100_ctr,
    {
        self.ply_100_ctr
    }

    /// The number of the current full move, counted from 1.
    pub fn fullmove_ctr_1_based(&self) -> (r: usize)
        requires
            self.ply < usize::MAX,
        ensures
            r == self.ply / 2 + 1,
    {
        self.ply / 2 + 1
    }

    /// The number of full moves played.
    pub fn fullmove_ctr_0_based(&self) -> (r: usize)
        ensures
            r == self.ply / 2,
    {
        self.ply / 2
    }

    pub fn num_squares(&self) -> (r: usize)
        ensures
            r == 64,
    {
        64
    }

    pub fn width(&self) -> (r: usize)
        ensures
            r == 8,
    {
        8
    }

    pub fn height(&self) -> (r: usize)
        ensures
            r == 8,
    {
        8
    }

    pub fn ep_square(&self) -> (r: Option<ChessSquare>)
        ensures
            r == self.ep_square,
    {
        self.ep_square
    }

    pub fn zobrist_hash(&self) -> (r: PosHash)
        ensures
            r == self.hash,
    {
        self.hash
    }

    /// The piece type on `square`, `Empty` if there is none.
    pub fn piece_type_on(&self, square: ChessSquare) -> (r: ChessPieceType)
        requires
            square.wf(),
        ensures
            r == spec_piece_type_at(self.piece_bbs, square.idx as u64),
    {
        let i = square.idx;
        if has_bit(self.piece_bbs[0], i) {
            ChessPieceType::Pawn
        } else if has_bit(self.piece_bbs[1], i) {
            ChessPieceType::Knight
        } else if has_bit(self.piece_bbs[2], i) {
            ChessPieceType::Bishop
        } else if has_bit(self.piece_bbs[3], i) {
            ChessPieceType::Rook
        } else if has_bit(self.piece_bbs[4], i) {
            ChessPieceType::Queen
        } else if has_bit(self.piece_bbs[5], i) {
            ChessPieceType::King
        } else {
            ChessPieceType::Empty
        }
    }

    /// The colored piece on `square`: black if the black bitboard contains the square, else white.
    pub fn colored_piece_on(&self, square: ChessSquare) -> (r: ColoredChessPieceType)
        requires
            square.wf(),
        ensures
            r == spec_colored_piece_at(*self, square.idx as u64),
            r.spec_uncolor() == spec_piece_type_at(self.piece_bbs, square.idx as u64),
            r.spec_uncolor() != ChessPieceType::Empty ==> r.spec_color() == Some(
                if bit(self.color_bbs[1], square.idx as u64) {
                    ChessColor::Black
                } else {
                    ChessColor::White
                },
            ),
    {
        let piece = self.piece_type_on(square);
        let color = if has_bit(self.color_bbs[1], square.idx) {
            ChessColor::Black
        } else {
            ChessColor::White
        };
        ColoredChessPieceType::new(color, piece)
    }

    /// Whether `square` holds `piece` (an empty square for `Empty`).
    pub fn is_piece_on(&self, square: ChessSquare, piece: ColoredChessPieceType) -> (r: bool)
        requires
            square.wf(),
        ensures
            piece.spec_color().is_some() ==> r == bit(
                self.spec_colored_piece_bb(piece.spec_color().unwrap(), piece.spec_uncolor()),
                square.idx as u64,
            ),
            piece.spec_color().is_none() ==> r == !bit(self.spec_occupied(), square.idx as u64),
    {
        match piece.color() {
            Some(color) => {
                let p = piece.uncolor();
                proof {
                    assert(p != ChessPieceType::Empty);
                }
                has_bit(self.colored_piece_bb(color, p), square.idx)
            },
            None => self.is_empty(square),
        }
    }

    /// Index of the square of the king of `color`: its lowest square, 0 if there is no king.
    pub open spec fn spec_king_square(self, color: ChessColor) -> int {
        let kings = self.spec_colored_piece_bb(color, ChessPieceType::King);
        if kings == 0 {
            0
        } else {
            vstd::std_specs::bits::u64_trailing_zeros(kings) as int
        }
    }

    /// The square of the king of `color`; square 0 if `color` has no king.
    pub fn king_square(&self, color: ChessColor) -> (r: ChessSquare)
        ensures
            r.wf(),
            r.idx == self.spec_king_square(color),
            self.spec_colored_piece_bb(color, ChessPieceType::King) != 0 ==> bit(
                self.spec_colored_piece_bb(color, ChessPieceType::King),
                r.idx as u64,
            ),
    {
        let kings = self.colored_piece_bb(color, ChessPieceType::King);
        if kings == 0 {
            ChessSquare::from_bb_idx(0)
        } else {
            ChessSquare::from_bb_idx(lsb(kings) as usize)
        }
    }

    /// The rank on which the pieces of `color` start: 0 for White, 7 for Black.
    pub fn backrank(color: ChessColor) -> (r: u8)
        ensures
            r == 7 * color.spec_idx(),
    {
        match color {
            ChessColor::White => 0,
            ChessColor::Black => 7,
        }
    }

    /// The file of the rook used for castling on `side` (0 if that right has been lost).
    pub open spec fn spec_rook_start_file(self, color: ChessColor, side: CastleRight) -> int {
        match self.castling.right(color, side) {
            Some(f) => f as int,
            None => 0,
        }
    }

    /// The square of the rook used for castling on `side`.
    pub open spec fn spec_rook_start_square(self, color: ChessColor, side: CastleRight) -> int {
        56 * color.spec_idx() + self.spec_rook_start_file(color, side)
    }

    /// The file of the rook used for castling on `side` (0 if that right has been lost).
    pub fn rook_start_file(&self, color: ChessColor, side: CastleRight) -> (r: u8)
        requires
            self.castling.wf(),
        ensures
            r < 8,
            r == self.spec_rook_start_file(color, side),
            self.castling.right(color, side).is_some() ==> r == self.castling.right(
                color,
                side,
            ).unwrap(),
    {
        self.castling.rook_start_file(color, side)
    }

    /// The square of the rook used for castling on `side`.
    pub fn rook_start_square(&self, color: ChessColor, side: CastleRight) -> (r: ChessSquare)
        requires
            self.castling.wf(),
        ensures
            r.wf(),
            r.idx == self.spec_rook_start_square(color, side),
            r.spec_rank() == 7 * color.spec_idx(),
            self.castling.right(color, side).is_some() ==> r.spec_file() == self.castling.right(
                color,
                side,
            ).unwrap(),
    {
        let file = self.rook_start_file(color, side);
        ChessSquare::from_rank_file(Self::backrank(color), file)
    }

    /// The zobrist hash computed from scratch.
    pub fn compute_zobrist(&self) -> (r: PosHash)
        requires
            self.castling.wf(),
            self.ep_square.is_some() ==> self.ep_square.unwrap().wf(),
        ensures
            r == spec_zobrist(*self),
    {
        let mut res: u64 = 0;
        let mut c: usize = 0;
        while c < 2
            invariant
                c <= 2,
                self.castling.wf(),
                res == spec_pieces_hash(*self, 6 * c as nat),
            decreases 2 - c,
        {
            let color = ChessColor::from_idx(c);
            let mut p: usize = 0;
            while p < 6
                invariant
                    p <= 6,
                    c < 2,
                    color.spec_idx() == c,
                    self.castling.wf(),
                    res == spec_pieces_hash(*self, (6 * c + p) as nat),
                decreases 6 - p,
            {
                let piece = ChessPieceType::from_idx(p);
                let all = self.colored_piece_bb(color, piece);
                let mut bb = all;
                let ghost start = res;
                while bb != 0
                    invariant
                        piece != ChessPieceType::Empty,
                        res ^ spec_keys_of(bb, piece, color) == start ^ spec_keys_of(all, piece, color),
                    decreases bb,
                {
                    let (sq, rest) = pop_lsb(bb);
                    let ghost before = res;
                    let k = piece_key(piece, color, ChessSquare::from_bb_idx(sq as usize)).0;
                    res = res ^ k;
                    proof {
                        let kr = spec_keys_of(rest, piece, color);
                        assert(spec_keys_of(bb, piece, color) == k ^ kr);
                        assert((before ^ k) ^ kr == before ^ (k ^ kr)) by (bit_vector);
                    }
                    bb = rest;
                }
                proof {
                    assert(res ^ 0u64 == res) by (bit_vector);
                    assert(spec_colored_piece_bb_at(*self, (6 * c + p) as nat) == all);
                }
                p = p + 1;
            }
            c = c + 1;
        }
        if let Some(sq) = self.ep_square {
            res = res ^ ep_file_key(sq.file());
        }
        res = res ^ castle_key(self.castling.allowed_castling_directions());
        if self.active_player == ChessColor::Black {
            res = res ^ SIDE_TO_MOVE_KEY;
        }
        PosHash(res)
    }
}

impl UnverifiedChessboard {
    /// A board without pieces, rights or en passant square, with White to move.
    pub fn empty() -> (r: Self)
        ensures
            r.0.piece_bbs@ == seq![0u64, 0u64, 0u64, 0u64, 0u64, 0u64],
            r.0.color_bbs@ == seq![0u64, 0u64],
            r.0.ply == 0,
            r.0.ply_100_ctr == 0,
            r.0.active_player == ChessColor::White,
            r.0.ep_square.is_none(),
            r.0.castling.wf(),
            forall|c: ChessColor, s: CastleRight| #[trigger] r.0.castling.right(c, s).is_none(),
            r.0 == spec_empty_board(),
    {
        UnverifiedChessboard(
            Chessboard {
                piece_bbs: [0, 0, 0, 0, 0, 0],
                color_bbs: [0, 0],
                ply: 0,
                ply_100_ctr: 0,
                active_player: ChessColor::White,
                castling: CastlingFlags {
                    white_queenside: None,
                    white_kingside: None,
                    black_queenside: None,
                    black_kingside: None,
                },
                ep_square: None,
                hash: PosHash(0),
                settings: ChessSettings { shredder_fen: false, dfrc: false },
            },
        )
    }

    /// Puts `piece` on `square`, toggling the square in the piece's and color's bitboards,
    /// so the square should be empty. Placing `Empty` changes nothing.
    #[verifier::rlimit(40)]
    pub fn place_piece_unchecked(self, square: ChessSquare, piece: ColoredChessPieceType) -> (r: Self)
        requires
            square.wf(),
        ensures
            piece.spec_color().is_some() ==> r.0.piece_bbs@ == self.0.piece_bbs@.update(
                piece.spec_uncolor().spec_idx(),
                self.0.piece_bbs[piece.spec_uncolor().spec_idx()] ^ (1u64 << square.idx),
            ) && r.0.color_bbs@ == self.0.color_bbs@.update(
                piece.spec_color().unwrap().spec_idx(),
                self.0.color_bbs[piece.spec_color().unwrap().spec_idx()] ^ (1u64 << square.idx),
            ),
            piece.spec_color().is_none() ==> r.0 == self.0,
            r.0 == spec_place(self.0, square.idx as int, piece),
            r.0.ply == self.0.ply,
            r.0.ply_100_ctr == self.0.ply_100_ctr,
            r.0.active_player == self.0.active_player,
            r.0.castling == self.0.castling,
            r.0.ep_square == self.0.ep_square,
    {
        let mut this = self.0;
        match piece.color() {
            Some(color) => {
                let p = piece.uncolor();
                let bb = square.bb();
                let pi = p.idx();
                let ci = color.idx();
                this.piece_bbs[pi] = this.piece_bbs[pi] ^ bb;
                this.color_bbs[ci] = this.color_bbs[ci] ^ bb;
                proof {
                    let t = spec_place(self.0, square.idx as int, piece);
                    vstd::array::axiom_spec_array_update(self.0.piece_bbs, pi as int, self.0.piece_bbs[pi as int] ^ bb);
                    vstd::array::axiom_spec_array_update(self.0.color_bbs, ci as int, self.0.color_bbs[ci as int] ^ bb);
                    vstd::array::axiom_array_ext_equal(this.piece_bbs, t.piece_bbs);
                    vstd::array::axiom_array_ext_equal(this.color_bbs, t.color_bbs);
                    assert(this.piece_bbs =~= t.piece_bbs);
                    assert(this.color_bbs =~= t.color_bbs);
                }
            },
            None => {},
        }
        UnverifiedChessboard(this)
    }

    /// Removes the piece on `square`, if any. Removing a rook from its castling square removes that
    /// castling right, and removing the pawn that could be captured en passant removes the
    /// en passant square.
    #[verifier::rlimit(40)]
    pub fn remove_piece(self, square: ChessSquare) -> (r: Self)
        requires
            square.wf(),
            self.0.castling.wf(),
        ensures
            r.0.castling.wf(),
            r.0.ply == self.0.ply,
            r.0.active_player == self.0.active_player,
            r.0 == spec_remove_piece(self.0, square.idx as int),
    {
        let mut this = self.0;
        let piece = this.colored_piece_on(square);
        match piece.color() {
            Some(color) => {
                let p = piece.uncolor();
                let bb = square.bb();
                let pi = p.idx();
                let ci = color.idx();
                this.piece_bbs[pi] = this.piece_bbs[pi] ^ bb;
                this.color_bbs[ci] = this.color_bbs[ci] ^ bb;
                proof {
                    let t = spec_place(self.0, square.idx as int, piece);
                    vstd::array::axiom_spec_array_update(self.0.piece_bbs, pi as int, self.0.piece_bbs[pi as int] ^ bb);
                    vstd::array::axiom_spec_array_update(self.0.color_bbs, ci as int, self.0.color_bbs[ci as int] ^ bb);
                    vstd::array::axiom_array_ext_equal(this.piece_bbs, t.piece_bbs);
                    vstd::array::axiom_array_ext_equal(this.color_bbs, t.color_bbs);
                    assert(this.piece_bbs =~= t.piece_bbs);
                    assert(this.color_bbs =~= t.color_bbs);
                }
                if p == ChessPieceType::Rook && square.rank() == Chessboard::backrank(color) {
                    if this.castling.can_castle(color, CastleRight::Queenside)
                        && this.castling.rook_start_file(color, CastleRight::Queenside)
                        == square.file() {
                        this.castling.unset_castle_right(color, CastleRight::Queenside);
                    }
                    if this.castling.can_castle(color, CastleRight::Kingside)
                        && this.castling.rook_start_file(color, CastleRight::Kingside)
                        == square.file() {
                        this.castling.unset_castle_right(color, CastleRight::Kingside);
                    }
                }
                if p == ChessPieceType::Pawn {
                    if let Some(ep) = this.ep_square {
                        if ep.idx < 64 && ep.file() == square.file() && (ep.rank() == 2 && square.rank()
                            == 3 || ep.rank() == 5 && square.rank() == 4) {
                            this.ep_square = None;
                        }
                    }
                }
            },
            None => {},
        }
        UnverifiedChessboard(this)
    }

    /// Sets the en passant square.
    pub fn set_ep(self, ep: Option<ChessSquare>) -> (r: Self)
        ensures
            r.0 == (Chessboard { ep_square: ep, ..self.0 }),
    {
        let mut this = self.0;
        this.ep_square = ep;
        UnverifiedChessboard(this)
    }

    /// Sets the number of half moves since the last capture or pawn move.
    pub fn set_halfmove_repetition_clock(self, ply: usize) -> (r: Self)
        ensures
            r.0 == (Chessboard { ply_100_ctr: ply, ..self.0 }),
    {
        let mut this = self.0;
        this.ply_100_ctr = ply;
        UnverifiedChessboard(this)
    }

    /// Sets the player to move.
    pub fn set_active_player(self, color: ChessColor) -> (r: Self)
        ensures
            r.0 == (Chessboard { active_player: color, ..self.0 }),
    {
        let mut this = self.0;
        this.active_player = color;
        UnverifiedChessboard(this)
    }

    /// Sets the number of half moves played since the start.
    pub fn set_ply_since_start(self, ply: usize) -> (r: Self)
        ensures
            r.0 == (Chessboard { ply: ply, ..self.0 }),
    {
        let mut this = self.0;
        this.ply = ply;
        UnverifiedChessboard(this)
    }

    /// The castling rights, for changing them.
    pub fn castling_rights_mut(&mut self) -> (r: &mut CastlingFlags)
        ensures
            *r == old(self).0.castling,
            final(self).0 == (Chessboard { castling: *final(r), ..old(self).0 }),
    {
        &mut self.0.castling
    }
}

} // verus!
