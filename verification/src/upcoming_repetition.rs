//! Detecting an upcoming repetition: whether the player to move can play a reversible move that
//! repeats an earlier position, using a cuckoo hash table of the hash changes of all reversible
//! moves of non-pawn pieces on an empty board.
use vstd::prelude::*;
use crate::attacks::{bishop_attacks, ray_exclusive, rook_attacks};
use crate::bits::{bit, group_bits, pop_count, pop_lsb};
use crate::chessboard::{Board, Chessboard};
use crate::games::{BoardHistory, PosHash, ZobristHistory};
use crate::moves::{ChessMove, ChessMoveFlags};
use crate::pieces::{ChessColor, ChessPieceType};
use crate::squares::ChessSquare;
use crate::zobrist::{piece_key, SIDE_TO_MOVE_KEY};

verus! {

/// The number of slots of the table.
pub const TABLE_SIZE: usize = 0x2000;

/// The mask of a slot index.
pub const TABLE_MASK: u64 = 0x1fff;

/// Both slots of a hash change lie in the table, and its low 32 bits are its remainder modulo
/// 2^32.
proof fn lemma_slot_bits(hash: u64)
    ensures
        (hash >> 32u64) & 0x1fffu64 < 0x2000u64,
        (hash >> 48u64) & 0x1fffu64 < 0x2000u64,
        hash & 0xffff_ffffu64 == hash % 0x1_0000_0000u64,
{
    assert((hash >> 32u64) & 0x1fffu64 < 0x2000u64 && (hash >> 48u64) & 0x1fffu64 < 0x2000u64 && hash
        & 0xffff_ffffu64 == hash % 0x1_0000_0000u64) by (bit_vector);
}

/// The first slot of a hash change: bits 32 to 44.
pub open spec fn spec_h1(hash: u64) -> int {
    ((hash >> 32u64) & TABLE_MASK) as int
}

/// The second slot of a hash change: bits 48 to 60.
pub open spec fn spec_h2(hash: u64) -> int {
    ((hash >> 48u64) & TABLE_MASK) as int
}

/// The first slot of a hash change.
pub fn h1(hash: u64) -> (r: usize)
    ensures
        r == spec_h1(hash),
        r < TABLE_SIZE,
{
    proof {
        lemma_slot_bits(hash);
    }
    ((hash >> 32) & TABLE_MASK) as usize
}

/// The second slot of a hash change.
pub fn h2(hash: u64) -> (r: usize)
    ensures
        r == spec_h2(hash),
        r < TABLE_SIZE,
{
    proof {
        lemma_slot_bits(hash);
    }
    ((hash >> 48) & TABLE_MASK) as usize
}

/// The part of a hash change stored in the table.
pub fn entry(hash: u64) -> (r: u32)
    ensures
        r == hash % 0x1_0000_0000,
{
    proof {
        lemma_slot_bits(hash);
    }
    (hash & 0xffff_ffff) as u32
}

/// For every reversible move of a non-pawn piece on an empty board (with the source before the
/// destination), the move and the low 32 bits of the hash change it causes, in a cuckoo hash
/// table: each move is in slot `h1` or `h2` of its hash change.
pub struct UpcomingRepetitionTable {
    pub hashes: Vec<u32>,
    pub moves: Vec<ChessMove>,
}

impl UpcomingRepetitionTable {
    /// Both parts have a slot for every index.
    pub open spec fn wf(&self) -> bool {
        self.hashes@.len() == TABLE_SIZE && self.moves@.len() == TABLE_SIZE
    }
}

/// The squares a non-pawn piece on `square` attacks on an empty board (none for a pawn).
pub open spec fn spec_empty_board_attacks(square: int, piece: ChessPieceType) -> u64 {
    match piece {
        ChessPieceType::Knight => crate::attacks::spec_knight_attacks(square),
        ChessPieceType::Bishop => crate::attacks::spec_bishop_attacks(square, 0),
        ChessPieceType::Rook => crate::attacks::spec_rook_attacks(square, 0),
        ChessPieceType::Queen => crate::attacks::spec_rook_attacks(square, 0) | crate::attacks::spec_bishop_attacks(square, 0),
        ChessPieceType::King => crate::attacks::spec_king_attacks(square),
        _ => 0,
    }
}

/// The hash change when `piece` of `color` moves between `src` and `dest`, with the other player
/// to move afterwards.
pub open spec fn spec_move_key(piece: ChessPieceType, color: ChessColor, src: int, dest: int) -> u64 {
    crate::zobrist::spec_piece_key(piece, color, src) ^ crate::zobrist::spec_piece_key(piece, color, dest)
        ^ SIDE_TO_MOVE_KEY
}

/// Whether `m` is a move the table is built from, with `hash` its hash change: a normal move of a
/// knight, bishop, rook, queen or king of either color that can go from its source to its (higher)
/// destination on an empty board.
pub open spec fn spec_table_move(m: ChessMove, hash: u64) -> bool {
    exists|c: ChessColor, p: ChessPieceType|
        #![trigger spec_move_key(p, c, m.spec_src(), m.spec_dest())]
        p != ChessPieceType::Pawn && p != ChessPieceType::Empty
        && bit(spec_empty_board_attacks(m.spec_src(), p), m.spec_dest() as u64)
        && hash == spec_move_key(p, c, m.spec_src(), m.spec_dest())
        && m.spec_src() < m.spec_dest() && m.spec_flags() == ChessMoveFlags::NormalMove
}

/// Every filled slot holds a table move with its hash change, and lies at one of that hash
/// change's two slots.
#[verifier::opaque]
pub open spec fn spec_slots_sound(hashes: Seq<u64>, moves: Seq<ChessMove>) -> bool {
    &&& hashes.len() == TABLE_SIZE
    &&& moves.len() == TABLE_SIZE
    &&& forall|i: int|
        0 <= i < TABLE_SIZE && #[trigger] moves[i].0 != 0 ==> spec_table_move(moves[i], hashes[i]) && (i
            == spec_h1(hashes[i]) || i == spec_h2(hashes[i]))
}

/// Cuckoo insertion of `mov` with hash change `hash` into slot `i` of the tables `h` and `m`,
/// after `kicks` displacements: the move takes the slot, and a move it displaces goes on to the
/// other slot of its own hash change, until an empty slot is reached or [`MAX_KICKS`] moves were
/// displaced.
#[verifier::opaque]
pub open spec fn spec_cuckoo(
    h: Seq<u64>,
    m: Seq<ChessMove>,
    hash: u64,
    mov: ChessMove,
    i: int,
    kicks: int,
) -> (Seq<u64>, Seq<ChessMove>)
    decreases MAX_KICKS - kicks,
{
    if kicks >= MAX_KICKS || kicks < 0 || !(0 <= i < h.len()) || !(0 <= i < m.len()) {
        (h, m)
    } else {
        let old_hash = h[i];
        let old_mov = m[i];
        let h2 = h.update(i, hash);
        let m2 = m.update(i, mov);
        if old_mov.0 == 0 {
            (h2, m2)
        } else {
            spec_cuckoo(
                h2,
                m2,
                old_hash,
                old_mov,
                if i == spec_h1(old_hash) {
                    spec_h2(old_hash)
                } else {
                    spec_h1(old_hash)
                },
                kicks + 1,
            )
        }
    }
}

/// One step of a cuckoo insertion.
proof fn lemma_cuckoo_step(h: Seq<u64>, m: Seq<ChessMove>, hash: u64, mov: ChessMove, i: int, kicks: int)
    ensures
        kicks >= MAX_KICKS ==> spec_cuckoo(h, m, hash, mov, i, kicks) == (h, m),
        0 <= i < h.len() && 0 <= i < m.len() && 0 <= kicks < MAX_KICKS ==> spec_cuckoo(h, m, hash, mov, i, kicks)
            == (if m[i].0 == 0 {
            (h.update(i, hash), m.update(i, mov))
        } else {
            spec_cuckoo(
                h.update(i, hash),
                m.update(i, mov),
                h[i],
                m[i],
                if i == spec_h1(h[i]) {
                    spec_h2(h[i])
                } else {
                    spec_h1(h[i])
                },
                kicks + 1,
            )
        }),
{
    reveal(spec_cuckoo);
}

/// Inserting the moves of `piece` of `color` from `src` to the squares of `attacks` above it, in
/// increasing order.
#[verifier::opaque]
pub open spec fn spec_insert_dests(
    t: (Seq<u64>, Seq<ChessMove>),
    piece: ChessPieceType,
    color: ChessColor,
    src: int,
    attacks: u64,
) -> (Seq<u64>, Seq<ChessMove>)
    decreases pop_count(attacks),
{
    if attacks == 0 {
        t
    } else {
        let d = vstd::std_specs::bits::u64_trailing_zeros(attacks) as u64;
        proof {
            vstd::std_specs::bits::axiom_u64_trailing_zeros(attacks);
            crate::bits::lemma_pop_count_remove_bit(attacks, d);
        }
        let key = spec_move_key(piece, color, src, d as int);
        let t1 = if d > src {
            spec_cuckoo(t.0, t.1, key, ChessMove((src + d * 64) as u16), spec_h1(key), 0)
        } else {
            t
        };
        spec_insert_dests(t1, piece, color, src, attacks ^ (1u64 << d))
    }
}

/// Inserting the moves of `piece` of `color` from the squares `src` to 63.
#[verifier::opaque]
pub open spec fn spec_insert_squares(
    t: (Seq<u64>, Seq<ChessMove>),
    piece: ChessPieceType,
    color: ChessColor,
    src: int,
) -> (Seq<u64>, Seq<ChessMove>)
    decreases 64 - src,
{
    if src >= 64 {
        t
    } else {
        spec_insert_squares(
            spec_insert_dests(t, piece, color, src, spec_empty_board_attacks(src, piece)),
            piece,
            color,
            src + 1,
        )
    }
}

/// Inserting the moves of the pieces of `color` from piece type index `p` up to the king.
#[verifier::opaque]
pub open spec fn spec_insert_pieces(t: (Seq<u64>, Seq<ChessMove>), color: ChessColor, p: int) -> (Seq<u64>, Seq<ChessMove>)
    decreases 6 - p,
{
    if p >= 6 {
        t
    } else {
        spec_insert_pieces(spec_insert_squares(t, ChessPieceType::spec_from_idx(p), color, 0), color, p + 1)
    }
}

/// Inserting the moves of the colors from index `c` on.
#[verifier::opaque]
pub open spec fn spec_insert_colors(t: (Seq<u64>, Seq<ChessMove>), c: int) -> (Seq<u64>, Seq<ChessMove>)
    decreases 2 - c,
{
    if c >= 2 {
        t
    } else {
        spec_insert_colors(spec_insert_pieces(t, ChessColor::spec_from_idx(c), 1), c + 1)
    }
}

/// The full hash changes and moves of the table: starting from empty tables, the moves of White's
/// knights, bishops, rooks, queens and king, then Black's, each from its lower square in increasing
/// order of source and destination, inserted one after the other.
pub open spec fn spec_table_build() -> (Seq<u64>, Seq<ChessMove>) {
    spec_insert_colors(
        (Seq::new(TABLE_SIZE as nat, |i: int| 0u64), Seq::new(TABLE_SIZE as nat, |i: int| ChessMove(0))),
        0,
    )
}

/// The squares a non-pawn piece on `square` attacks on an empty board.
fn empty_board_attacks(square: ChessSquare, piece: ChessPieceType) -> (r: u64)
    requires
        square.wf(),
    ensures
        r == spec_empty_board_attacks(square.idx as int, piece),
{
    match piece {
        ChessPieceType::Knight => Board::knight_attacks_from(square),
        ChessPieceType::Bishop => bishop_attacks(square, 0),
        ChessPieceType::Rook => rook_attacks(square, 0),
        ChessPieceType::Queen => rook_attacks(square, 0) | bishop_attacks(square, 0),
        ChessPieceType::King => Board::normal_king_attacks_from(square),
        _ => 0,
    }
}

/// The largest number of times an insertion moves entries before it gives up and drops the move
/// it still holds.
pub const MAX_KICKS: usize = TABLE_SIZE;

/// Inserts `mov` with hash change `hash` by cuckoo hashing: it takes its first slot, and a move it
/// displaces moves to its other slot, and so on.
fn insert(hashes: &mut Vec<u64>, moves: &mut Vec<ChessMove>, hash: u64, mov: ChessMove)
    requires
        spec_slots_sound(old(hashes)@, old(moves)@),
        spec_table_move(mov, hash),
        mov.0 != 0,
    ensures
        spec_slots_sound(final(hashes)@, final(moves)@),
        final(hashes)@ == spec_cuckoo(old(hashes)@, old(moves)@, hash, mov, spec_h1(hash), 0).0,
        final(moves)@ == spec_cuckoo(old(hashes)@, old(moves)@, hash, mov, spec_h1(hash), 0).1,
{
    reveal(spec_slots_sound);
    let ghost target = spec_cuckoo(hashes@, moves@, hash, mov, spec_h1(hash), 0);
    let mut cur_hash = hash;
    let mut cur_mov = mov;
    let mut i = h1(cur_hash);
    let mut kicks: usize = 0;
    while kicks < MAX_KICKS
        invariant
            spec_slots_sound(hashes@, moves@),
            i < TABLE_SIZE,
            spec_table_move(cur_mov, cur_hash),
            cur_mov.0 != 0,
            i == spec_h1(cur_hash) || i == spec_h2(cur_hash),
            kicks <= MAX_KICKS,
            spec_cuckoo(hashes@, moves@, cur_hash, cur_mov, i as int, kicks as int) == target,
            target == spec_cuckoo(old(hashes)@, old(moves)@, hash, mov, spec_h1(hash), 0),
        decreases MAX_KICKS - kicks,
    {
        proof {
            reveal(spec_slots_sound);
            lemma_cuckoo_step(hashes@, moves@, cur_hash, cur_mov, i as int, kicks as int);
        }
        let ghost h0 = hashes@;
        let ghost m0 = moves@;
        let old_hash = hashes[i];
        let old_mov = moves[i];
        hashes.set(i, cur_hash);
        moves.set(i, cur_mov);
        cur_hash = old_hash;
        cur_mov = old_mov;
        if cur_mov.is_null() {
            assert(hashes@ == target.0 && moves@ == target.1);
            return ;
        }
        i = if i == h1(cur_hash) {
            h2(cur_hash)
        } else {
            h1(cur_hash)
        };
        kicks = kicks + 1;
    }
    proof {
        lemma_cuckoo_step(hashes@, moves@, cur_hash, cur_mov, i as int, kicks as int);
    }
}

/// Builds the table of the hash changes of all reversible non-pawn moves: the moves and the low
/// 32 bits of the hash changes of [`spec_table_build`], so that every filled slot holds such a
/// move, with the low 32 bits of its hash change, at one of the two slots of that hash change.
#[verifier::rlimit(60)]
pub fn calc_move_hash_table() -> (r: UpcomingRepetitionTable)
    ensures
        r.wf(),
        r.moves@ == spec_table_build().1,
        forall|i: int| 0 <= i < TABLE_SIZE ==> #[trigger] r.hashes@[i] as int == spec_table_build().0[i] % 0x1_0000_0000,
        forall|i: int|
            0 <= i < TABLE_SIZE && #[trigger] r.moves@[i].0 != 0 ==> exists|h: u64|
                spec_table_move(r.moves@[i], h) && r.hashes@[i] as int == h % 0x1_0000_0000 && (i
                    == spec_h1(h) || i == spec_h2(h)),
{
    let mut hashes: Vec<u64> = Vec::new();
    let mut moves: Vec<ChessMove> = Vec::new();
    let mut k: usize = 0;
    while k < TABLE_SIZE
        invariant
            k <= TABLE_SIZE,
            hashes@.len() == k,
            moves@.len() == k,
            forall|j: int| 0 <= j < k ==> #[trigger] moves@[j] == ChessMove(0),
            forall|j: int| 0 <= j < k ==> #[trigger] hashes@[j] == 0,
        decreases TABLE_SIZE - k,
    {
        hashes.push(0);
        moves.push(ChessMove::null());
        k = k + 1;
    }
    let ghost build = spec_table_build();
    proof {
        reveal(spec_slots_sound);
        assert(hashes@ =~= Seq::new(TABLE_SIZE as nat, |i: int| 0u64));
        assert(moves@ =~= Seq::new(TABLE_SIZE as nat, |i: int| ChessMove(0)));
    }
    let mut c: usize = 0;
    while c < 2
        invariant
            c <= 2,
            spec_slots_sound(hashes@, moves@),
            spec_insert_colors((hashes@, moves@), c as int) == build,
        decreases 2 - c,
    {
        let color = ChessColor::from_idx(c);
        proof {
            reveal(spec_insert_colors);
        }
        let mut p: usize = 1;
        while p < 6
            invariant
                1 <= p <= 6,
                c < 2,
                color == ChessColor::spec_from_idx(c as int),
                spec_slots_sound(hashes@, moves@),
                spec_insert_colors(spec_insert_pieces((hashes@, moves@), color, p as int), c + 1) == build,
            decreases 6 - p,
        {
            let piece = ChessPieceType::from_idx(p);
            proof {
                reveal(spec_insert_pieces);
            }
            let mut s: usize = 0;
            while s < 64
                invariant
                    s <= 64,
                    1 <= p < 6,
                    c < 2,
                    piece == ChessPieceType::spec_from_idx(p as int),
                    spec_slots_sound(hashes@, moves@),
                    spec_insert_colors(
                        spec_insert_pieces(spec_insert_squares((hashes@, moves@), piece, color, s as int), color, p + 1),
                        c + 1,
                    ) == build,
                decreases 64 - s,
            {
                let src = ChessSquare::from_bb_idx(s);
                let all = empty_board_attacks(src, piece);
                let mut attacks = all;
                proof {
                    reveal(spec_insert_squares);
                }
                while attacks != 0
                    invariant
                        src.wf(),
                        src.idx == s,
                        s < 64,
                        1 <= p < 6,
                        c < 2,
                        piece == ChessPieceType::spec_from_idx(p as int),
                        all == spec_empty_board_attacks(src.idx as int, piece),
                        forall|j: u64| j < 64 && #[trigger] bit(attacks, j) ==> bit(all, j),
                        spec_slots_sound(hashes@, moves@),
                        spec_insert_colors(
                            spec_insert_pieces(
                                spec_insert_squares(
                                    spec_insert_dests((hashes@, moves@), piece, color, s as int, attacks),
                                    piece,
                                    color,
                                    s + 1,
                                ),
                                color,
                                p + 1,
                            ),
                            c + 1,
                        ) == build,
                    decreases attacks,
                {
                    let ghost before = (hashes@, moves@);
                    let (d, rest) = pop_lsb(attacks);
                    proof {
                        reveal(spec_insert_dests);
                        assert forall|j: u64| j < 64 && #[trigger] bit(rest, j) implies bit(all, j) by {
                            crate::bits::lemma_bit_xor(attacks, 1u64 << d, j);
                            crate::bits::lemma_bit_single(d as u64, j);
                        }
                    }
                    let ghost old_attacks = attacks;
                    attacks = rest;
                    let dest = ChessSquare::from_bb_idx(d as usize);
                    if dest.idx > src.idx {
                        let mov = ChessMove::new(src, dest, ChessMoveFlags::NormalMove);
                        let hash = piece_key(piece, color, src).0 ^ piece_key(piece, color, dest).0
                            ^ SIDE_TO_MOVE_KEY;
                        proof {
                            assert(bit(spec_empty_board_attacks(mov.spec_src(), piece), mov.spec_dest() as u64));
                            assert(hash == spec_move_key(piece, color, mov.spec_src(), mov.spec_dest()));
                            assert(mov == ChessMove((s + d * 64) as u16));
                        }
                        insert(&mut hashes, &mut moves, hash, mov);
                    }
                    proof {
                        assert(spec_insert_dests(before, piece, color, s as int, old_attacks)
                            == spec_insert_dests((hashes@, moves@), piece, color, s as int, attacks));
                    }
                }
                proof {
                    reveal(spec_insert_dests);
                }
                s = s + 1;
            }
            proof {
                reveal(spec_insert_squares);
            }
            p = p + 1;
        }
        proof {
            reveal(spec_insert_pieces);
        }
        c = c + 1;
    }
    proof {
        reveal(spec_insert_colors);
        assert((hashes@, moves@) == build);
    }
    let mut entries: Vec<u32> = Vec::new();
    let mut j: usize = 0;
    while j < TABLE_SIZE
        invariant
            j <= TABLE_SIZE,
            entries@.len() == j,
            hashes@.len() == TABLE_SIZE,
            forall|i: int| 0 <= i < j ==> #[trigger] entries@[i] as int == hashes@[i] % 0x1_0000_0000,
        decreases TABLE_SIZE - j,
    {
        entries.push(entry(hashes[j]));
        j = j + 1;
    }
    let r = UpcomingRepetitionTable { hashes: entries, moves };
    proof {
        reveal(spec_slots_sound);
        assert forall|i: int| 0 <= i < TABLE_SIZE && #[trigger] r.moves@[i].0 != 0 implies exists|h: u64|
            spec_table_move(r.moves@[i], h) && r.hashes@[i] as int == h % 0x1_0000_0000 && (i
                == spec_h1(h) || i == spec_h2(h)) by {
            assert(spec_table_move(moves@[i], hashes@[i]));
        }
    }
    r
}

/// Looking back `i` plies (`i` odd, at least 3) in the history `h` of `b`: the xor of the
/// hash changes made by the other player's moves in between (zero when those moves undo each
/// other).
pub open spec fn spec_their_delta(b: Chessboard, h: Seq<PosHash>, i: int) -> u64
    decreases i,
{
    let n = h.len() as int;
    if i <= 3 {
        b.hash.0 ^ h[n - 1].0 ^ SIDE_TO_MOVE_KEY ^ h[n - 2].0 ^ h[n - 3].0 ^ SIDE_TO_MOVE_KEY
    } else {
        spec_their_delta(b, h, i - 2) ^ h[n - i + 1].0 ^ h[n - i].0 ^ SIDE_TO_MOVE_KEY
    }
}

/// Whether the position `i` plies back in the history `h` of `b` can be reached again with one
/// move of the player to move: the other player's moves since then cancel out, the hash change
/// to it is in the table (tried in its first slot, then in its second), and nothing stands
/// between the squares of the stored move.
pub open spec fn spec_repetition_at(b: Chessboard, t: UpcomingRepetitionTable, h: Seq<PosHash>, i: int) -> bool {
    let n = h.len() as int;
    let diff = b.hash.0 ^ h[n - i].0;
    let e = (diff % 0x1_0000_0000) as u32;
    let idx = if t.hashes@[spec_h1(diff)] == e {
        spec_h1(diff)
    } else {
        spec_h2(diff)
    };
    &&& spec_their_delta(b, h, i) == 0
    &&& t.hashes@[idx] == e
    &&& crate::attacks::spec_ray_exclusive(t.moves@[idx].spec_src(), t.moves@[idx].spec_dest())
        & b.spec_occupied() == 0
}

/// Whether a repetition can be reached at some odd distance of at least 3 plies that lies within
/// both the history and the plies since the last capture or pawn move.
pub open spec fn spec_upcoming_repetition(b: Chessboard, t: UpcomingRepetitionTable, h: Seq<PosHash>) -> bool {
    let limit = if b.ply_100_ctr < h.len() {
        b.ply_100_ctr as int
    } else {
        h.len() as int
    };
    exists|i: int| 3 <= i <= limit && i % 2 == 1 && #[trigger] spec_repetition_at(b, t, h, i)
}

impl Chessboard {
    /// Whether the player to move can repeat a position of the history with a single reversible
    /// move of a non-pawn piece, looking back no further than the last capture or pawn move: the
    /// positions in between differ only by such a move of the other player, and nothing stands
    /// between the move's squares.
    #[verifier::rlimit(40)]
    pub fn has_upcoming_repetition(
        &self,
        table: &UpcomingRepetitionTable,
        history: &ZobristHistory,
    ) -> (r: bool)
        requires
            table.wf(),
        ensures
            r == spec_upcoming_repetition(*self, *table, history.0@),
            r ==> self.ply_100_ctr >= 3 && history.0@.len() >= 3,
    {
        let n = history.len();
        let ghost h = history.0@;
        if self.ply_100_ctr < 3 || n == 0 {
            return false;
        }
        let max_lookback = if self.ply_100_ctr < n {
            self.ply_100_ctr
        } else {
            n
        };
        if max_lookback < 3 {
            return false;
        }
        let mut their_delta: u64 = self.hash.0 ^ history.0[n - 1].0 ^ SIDE_TO_MOVE_KEY;
        let mut i: usize = 3;
        loop
            invariant
                3 <= i <= max_lookback,
                i % 2 == 1,
                max_lookback <= n,
                n == history.0@.len(),
                h == history.0@,
                max_lookback == (if self.ply_100_ctr < h.len() {
                    self.ply_100_ctr as int
                } else {
                    h.len() as int
                }),
                3 <= self.ply_100_ctr,
                table.wf(),
                i == 3 ==> their_delta == self.hash.0 ^ h[n - 1].0 ^ SIDE_TO_MOVE_KEY,
                i > 3 ==> their_delta == spec_their_delta(*self, h, i - 2),
                forall|j: int| 3 <= j < i && j % 2 == 1 ==> !#[trigger] spec_repetition_at(*self, *table, h, j),
            decreases max_lookback - i,
        {
            their_delta = their_delta ^ history.0[n - i + 1].0 ^ history.0[n - i].0 ^ SIDE_TO_MOVE_KEY;
            assert(their_delta == spec_their_delta(*self, h, i as int));
            let mut hit = false;
            if their_delta == 0 {
                let diff = self.hash.0 ^ history.0[n - i].0;
                let mut idx = h1(diff);
                let mut found = table.hashes[idx] == entry(diff);
                if !found {
                    idx = h2(diff);
                    found = table.hashes[idx] == entry(diff);
                }
                if found {
                    let mov = table.moves[idx];
                    let ray = ray_exclusive(mov.src_square(), mov.dest_square());
                    if ray & self.occupied_bb() == 0 {
                        hit = true;
                    }
                }
            }
            assert(hit == spec_repetition_at(*self, *table, h, i as int));
            if hit {
                return true;
            }
            if max_lookback - i < 2 {
                return false;
            }
            i = i + 2;
        }
    }
}

} // verus!
