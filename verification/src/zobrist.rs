//! Zobrist hashing for chess: random keys from a PCG generator, xored together.
use vstd::prelude::*;
use crate::chessboard::Chessboard;
use crate::games::PosHash;
use crate::moves::ChessMove;
use crate::pieces::{ChessColor, ChessPieceType};
use crate::squares::ChessSquare;

verus! {

pub const NUM_PIECE_SQUARE_ENTRIES: usize = 384;

pub const NUM_COLORED_PIECE_SQUARE_ENTRIES: usize = 768;

/// The multiplier of the PCG generator's linear congruential step.
pub const MULTIPLIER: u128 = 0x2360_ed05_1fc6_5da4_4385_df64_9fcc_f645;

/// The increment of the PCG generator's linear congruential step.
pub const INCREMENT: u128 = 0x5851_f42d_4c95_7f2d_1405_7b7e_f767_814f;

pub open spec fn spec_lcg_step(state: u128) -> u128 {
    state.wrapping_mul(MULTIPLIER).wrapping_add(INCREMENT)
}

/// `x` rotated right by `r` bits.
pub open spec fn spec_rotate_right(x: u64, r: u64) -> u64 {
    if r == 0 {
        x
    } else {
        (x >> r) | (x << (64 - r) as u64)
    }
}

/// The output of the XSL-RR permutation for a state.
pub open spec fn spec_pcg_output(state: u128) -> u64 {
    let upper = (state >> 64u128) as u64;
    let lower = state as u64;
    spec_rotate_right(upper ^ lower, upper >> 58u64)
}

/// The PCG XSL RR 128/64 generator with a single stream (pcg64_oneseq).
#[derive(Copy, Clone, Debug, PartialEq, Eq)]
pub struct PcgXslRr128_64Oneseq(pub u128);

impl PcgXslRr128_64Oneseq {
    /// The generator seeded with `seed`.
    pub fn new(seed: u128) -> (r: Self)
        ensures
            r.0 == spec_lcg_step(seed.wrapping_add(INCREMENT)),
    {
        PcgXslRr128_64Oneseq(
            seed.wrapping_add(INCREMENT).wrapping_mul(MULTIPLIER).wrapping_add(INCREMENT),
        )
    }

    /// Advances the state and returns the new generator and the next random number.
    pub fn gen(self) -> (r: (Self, PosHash))
        ensures
            r.0.0 == spec_lcg_step(self.0),
            r.1.0 == spec_pcg_output(r.0.0),
    {
        let state = self.0.wrapping_mul(MULTIPLIER).wrapping_add(INCREMENT);
        let upper = (state >> 64) as u64;
        let lower = state as u64;
        let x = upper ^ lower;
        let rot = upper >> 58;
        assert(upper >> 58u64 < 64) by (bit_vector);
        let out = if rot == 0 {
            x
        } else {
            (x >> rot) | (x << (64 - rot))
        };
        (PcgXslRr128_64Oneseq(state), PosHash(out))
    }
}

/// The state of the generator seeded with `seed` after `i` outputs.
pub open spec fn spec_pcg_state(seed: u128, i: nat) -> u128
    decreases i,
{
    if i == 0 {
        spec_lcg_step(seed.wrapping_add(INCREMENT))
    } else {
        spec_lcg_step(spec_pcg_state(seed, (i - 1) as nat))
    }
}

/// Output number `i` (counting from 0) of the generator seeded with `seed`.
pub open spec fn spec_pcg_key(seed: u128, i: nat) -> u64 {
    spec_pcg_output(spec_pcg_state(seed, i + 1))
}

/// The first `n` outputs of the generator seeded with `seed`.
pub fn generate_keys(seed: u128, n: usize) -> (r: Vec<u64>)
    ensures
        r@.len() == n,
        forall|i: int| 0 <= i < n ==> #[trigger] r@[i] == spec_pcg_key(seed, i as nat),
{
    let mut gen = PcgXslRr128_64Oneseq::new(seed);
    let mut res: Vec<u64> = Vec::new();
    let mut i: usize = 0;
    while i < n
        invariant
            i <= n,
            res@.len() == i,
            gen.0 == spec_pcg_state(seed, i as nat),
            forall|k: int| 0 <= k < i ==> #[trigger] res@[k] == spec_pcg_key(seed, k as nat),
        decreases n - i,
    {
        let (g, h) = gen.gen();
        gen = g;
        res.push(h.0);
        i = i + 1;
    }
    res
}

/// Index of the key of `piece` of `color` on square `square` in [`PIECE_SQUARE_KEYS`].
pub open spec fn spec_piece_key_idx(piece: ChessPieceType, color: ChessColor, square: int) -> int {
    square * 12 + piece.spec_idx() * 2 + color.spec_idx()
}

/// The key of `piece` of `color` on square `square`.
pub open spec fn spec_piece_key(piece: ChessPieceType, color: ChessColor, square: int) -> u64 {
    PIECE_SQUARE_KEYS[spec_piece_key_idx(piece, color, square)]
}

/// Access to the precomputed zobrist keys.
#[derive(Copy, Clone, Debug)]
pub struct PrecomputedZobristKeys {}

impl PrecomputedZobristKeys {
    /// The key of `piece` of `color` on `square`; `piece` must not be `Empty`.
    pub fn piece_key(&self, piece: ChessPieceType, color: ChessColor, square: ChessSquare) -> (r: PosHash)
        requires
            square.wf(),
            piece != ChessPieceType::Empty,
        ensures
            r.0 == spec_piece_key(piece, color, square.idx as int),
    {
        piece_key(piece, color, square)
    }
}

/// The key of `piece` of `color` on `square`; `piece` must not be `Empty`.
pub fn piece_key(piece: ChessPieceType, color: ChessColor, square: ChessSquare) -> (r: PosHash)
    requires
        square.wf(),
        piece != ChessPieceType::Empty,
    ensures
        r.0 == spec_piece_key(piece, color, square.idx as int),
{
    PosHash(PIECE_SQUARE_KEYS[square.bb_idx() * 12 + piece.idx() * 2 + color.idx()])
}

/// The key of a combination of castling rights (see `allowed_castling_directions`).
pub fn castle_key(allowed: usize) -> (r: u64)
    requires
        allowed < 16,
    ensures
        r == CASTLE_KEYS[allowed as int],
{
    CASTLE_KEYS[allowed]
}

/// The key of the file of the en passant square.
pub fn ep_file_key(file: u8) -> (r: u64)
    requires
        file < 8,
    ensures
        r == EP_FILE_KEYS[file as int],
{
    EP_FILE_KEYS[file as usize]
}

/// The hash after `mov` when only the moved piece and a piece on the destination square are
/// accounted for (the side to move changes too).
pub open spec fn spec_approx_hash_after(b: Chessboard, mov: ChessMove) -> PosHash {
    let us = b.active_player;
    let from = mov.spec_src();
    let to = mov.spec_dest();
    let piece = crate::chessboard::spec_piece_type_at(b.piece_bbs, from as u64);
    let captured = crate::chessboard::spec_piece_type_at(b.piece_bbs, to as u64);
    if piece == ChessPieceType::Empty {
        PosHash(b.hash.0 ^ SIDE_TO_MOVE_KEY)
    } else {
        let moved = b.hash.0 ^ spec_piece_key(piece, us, to) ^ spec_piece_key(piece, us, from)
            ^ SIDE_TO_MOVE_KEY;
        if captured == ChessPieceType::Empty {
            PosHash(moved)
        } else {
            PosHash(moved ^ spec_piece_key(captured, us.spec_other(), to))
        }
    }
}

impl Chessboard {
    /// The hash after `piece` of `color` moves from `from` to `to` in a position with hash
    /// `old_hash`, ignoring captures, castling rights and en passant squares.
    pub fn approximate_zobrist_after_move(
        old_hash: PosHash,
        color: ChessColor,
        piece: ChessPieceType,
        from: ChessSquare,
        to: ChessSquare,
    ) -> (r: PosHash)
        requires
            from.wf(),
            to.wf(),
            piece != ChessPieceType::Empty,
        ensures
            r.0 == old_hash.0 ^ spec_piece_key(piece, color, to.idx as int) ^ spec_piece_key(
                piece,
                color,
                from.idx as int,
            ) ^ SIDE_TO_MOVE_KEY,
    {
        PosHash(old_hash.0 ^ piece_key(piece, color, to).0 ^ piece_key(piece, color, from).0
            ^ SIDE_TO_MOVE_KEY)
    }

    /// The hash after `mov`, for a move that neither castles, captures en passant, promotes nor
    /// changes castling rights or the en passant square; a captured piece is removed.
    pub fn approx_hash_after(&self, mov: ChessMove) -> (r: PosHash)
        ensures
            r == spec_approx_hash_after(*self, mov),
    {
        let us = self.active_player;
        let from = mov.src_square();
        let to = mov.dest_square();
        let piece = self.piece_type_on(from);
        if piece == ChessPieceType::Empty {
            return PosHash(self.hash.0 ^ SIDE_TO_MOVE_KEY);
        }
        let moved = Self::approximate_zobrist_after_move(self.hash, us, piece, from, to);
        let captured = self.piece_type_on(to);
        if captured == ChessPieceType::Empty {
            moved
        } else {
            PosHash(moved.0 ^ piece_key(captured, us.other(), to).0)
        }
    }
}

/// Keys for a piece of a color on a square, at index `square * 12 + piece * 2 + color`.
pub const PIECE_SQUARE_KEYS: [u64; 768] = [
    0x24ea41a4d8274f97, 0x3720dcb157f51582, 0xca8a1a64e4ed2035, 0x28134e1a5124d701,
    0xc92c0b1c2626bdc7, 0xc2600f6111043afe, 0x72dbfa495e25a957, 0x8a2829f2096a3902,
    0xc506298a66019cd4, 0xa96a0a5cf723f819, 0x6aa7f2091ea77062, 0x78afaba0d9cd3daa,
    0x87a723285b90220a, 0xbdf4d9db969910d9, 0x94c3e5c13936972d, 0xe1a5f9c05490a1e8,
    0x8260bf08dd3ed3ab, 0x63f70dd0b1437449, 0xdd22e46572ed43d8, 0x9716fc74b9b7b81b,
    0x7cbcc9f75c0d3038, 0x6fb27a1dd3ecb150, 0x9adea3683e8b4d1c, 0x555de9bad0c57b21,
    0x06a571b8d19d1502, 0x8012416a18feace8, 0xec8fbeb3cce8515d, 0x851bf44a95d4184d,
    0x4beee64cadeb2a74, 0x8f4fd61b3bfd074c, 0x6b86015cb5a88e00, 0xc30c59b8db8f6890,
    0x17ef4a8cb105c0e1, 0xde85072995d350f1, 0x8edeb236d1095def, 0x30f32c4cb36c6475,
    0x4e9aec37e18c0f4d, 0x0e8fc28389b3716e, 0x76ac78972677ee00, 0x878e694653d94657,
    0x0ad954ab5c37e052, 0x08773c35777d08cd, 0xbb59884151e51bad, 0x9cda06fe7b6a5bac,
    0x858caa3ff6a37cb1, 0x4abc6475cca5efa5, 0x78129f139522ae92, 0x7773604f6c71ea17,
    0x29f2cf44fb14fa3a, 0x6aa5c687f21ba3ea, 0x561de15ccefeb131, 0x6c0243cf0f980dba,
    0xbc1a8b04a71dc871, 0x6140df4f7b234b00, 0x5f0d0f05939ff7c1, 0xda6f9036ed334381,
    0xd803ff9cc9bd281e, 0x8b8953b11a2df2c9, 0x801d02dab0532485, 0x8ed9ccbdf6830b9b,
    0xa604a51b28f9a553, 0x1b08c7d356b5cf90, 0xc07150721282128a, 0x2b2044be6709d54f,
    0x8977ce0807efe16e, 0x52b311dfcf4037a1, 0x5318d7930061b29c, 0xcc76c6062907a1bb,
    0x9085adc99b84e5de, 0xb78bc70279edd8fa, 0x2db8aa5096169d3e, 0x3d9e725f1a81e06e,
    0x73bb47519e2533b5, 0xbe26cf2ad21e1267, 0xb667cca812502e5f, 0x36493691dbcd1d10,
    0x4c95bd6e8a2e7ca1, 0xb376278ffa899dae, 0xdb9ec609168e0e70, 0x284dfa1fee0afb01,
    0x9649b1b409b863b3, 0x75db7ac5858db8bd, 0xffd68474715c5c89, 0x311337d0cc1b78ff,
    0xbac960b60b6e6608, 0x3293499b576eca09, 0xc42c6d6cae5fb653, 0x986b33fb1001de87,
    0x770ede540a3d1ccc, 0x255ed310ad4dec0e, 0x24d5df2e27216a45, 0x99385eb9e538d95e,
    0x8d41eeba52e74390, 0x3a84e2fb596e6505, 0x841fab5a0bb0087e, 0x0b7969678f304e9e,
    0x770c9cc23a7faa48, 0x4631d3bd4312a203, 0x94a1a4763afc1e3b, 0x3098e66b111b37db,
    0xc95afdf73d373261, 0x8186efe02f1d3341, 0x730d1490e7901336, 0x5576be79dd55a761,
    0x26ac2619025423c8, 0x62fb5cc4b343f99e, 0x10ecb2c0362f767a, 0x6bbebb1f7f69847f,
    0x540ceca2d659d09f, 0xadab23d86a3b21fb, 0x2fa79978cffb703d, 0xb296063b90cad938,
    0x405455f297c6274e, 0x442a422dd62d53e2, 0x67be12915fab8e47, 0x5179d4ffba8f802f,
    0xb7fc45226d0d3903, 0xf6b56d28bd64f95e, 0xecd2d0ee267b4369, 0x567b45c25fce56a0,
    0x1881e5ad9fe43866, 0x54dd14f92b2d5cfa, 0xfdf2ebecb579f823, 0xde6fefe4f782089e,
    0xae709e9c0f70a3f0, 0xc35c4a17df830bf0, 0x19e6edd743a9ff4e, 0x9c3425898674d5b0,
    0x3858260879a8fd4f, 0x737426200cc5aa40, 0x67f57c755aed1331, 0x58d047abc74fba77,
    0x887bd25d4b11e625, 0x7e067da39cdcbfd6, 0x7cb6028b4c552166, 0x1aa766d3cd330b3b,
    0xd97698957a03de5a, 0x0be87891b9803696, 0xc13d41eca8382829, 0x45b1058328ce7183,
    0x22fd67e6ecf6187a, 0x5f1d3c0c8f09b869, 0x20e920be6d5b60f3, 0x24d27c78e49c4d1a,
    0x67ba8c1375681ba6, 0x6f5992f1182a643e, 0xd6b12de6ded51c2b, 0xb3095b23247ea985,
    0x5487ab092095671b, 0xe949b8814d7795f4, 0x6155d763e847b788, 0x4db97b8d97a55661,
    0xb43ea6af95a72fb2, 0xab7287f8ca13cea0, 0x4f35d71fa04f4bbf, 0x5b08ab06e48f7451,
    0x588f7780b914ca5e, 0x47099041d46ef588, 0xc65076be5351d67d, 0x76d4185ef3681392,
    0x38a95179fe7745a8, 0x0156068b035274fc, 0x5a9dbddad3becd9f, 0x7ba73c1c6b4c0d55,
    0x985ca54e8802ff35, 0x2fa8e6f54ed5643b, 0x598c8e1300414a9e, 0xdd87cae61c321bdc,
    0x504f92ff3dbae3ab, 0x305725457d30d85d, 0xb81f3f0fbc643e53, 0xdbeb57553aa5c00d,
    0x1379f6eebe9ff49f, 0xa2aef50bfb5c8155, 0x843baad19d27cf53, 0xf4ce5adce1dfba86,
    0x8c0d890accc43591, 0x097c5c61442e4aa2, 0xe2fae24c9d058927, 0xb522bdb80bddf9d1,
    0x5f6ca97d2002f133, 0x733b2bc47b1c4451, 0xae5772c7261c84f2, 0x1d709d491691af8c,
    0xf38fe90397df102c, 0xb2390a368b79583d, 0x257ab11a7454f0dc, 0x0f536564193b94de,
    0xca347a896d9c9de0, 0x9931705622ae3dfe, 0x9c1e97a4f102d717, 0xa2e2d4cf0895045c,
    0x8b7cd73d0740b87e, 0xcabbced062ad563b, 0xe73ba92c50a3a125, 0x5240466bdf9277e7,
    0x1619e76f8273df66, 0x16b6642b4f71c951, 0x154a0dd989c96169, 0x0206ffa053d966fc,
    0x1024f2b24efc95cc, 0x6b6bb4bd5e89307e, 0xe7e78826074951b1, 0x0746a9a547b0f14d,
    0x266bf7ef14e612e5, 0xd2be42ef1beae3ac, 0xbd1415f5acb4aaae, 0xa86d33fa3e6aaf45,
    0xf843e432ac2174cb, 0xfc3471d1feaca763, 0xbd7266e34e4178c6, 0x5b4779fd856492bb,
    0x547a426985da6eeb, 0x7716165858c0e6cd, 0xb91c4584ede0382e, 0x62330fe47ae71b2b,
    0xf59b66d2e6c671aa, 0x81432b190ecb7493, 0x711a7186a9265c36, 0x1bfb578d1d2387b5,
    0x8240be3782eedfb7, 0x65234bb509d8f386, 0x54f5292a03ab86e6, 0x1342509f937ec19a,
    0xf21147a0a4ac6bb4, 0x81a88e914f9842ab, 0x251bc5c21cff77dc, 0xb6d059403970e00a,
    0x7d28687e99518269, 0x3dbba5a4c703dfab, 0xdeb62c239025f85e, 0xf1f056ca0d41fcfb,
    0x696b7949e431ca5f, 0xd4ec3965ff52117f, 0xe28b3e8e9bd19986, 0x4a9b79b9c3268048,
    0x1a8db8b7abef86a2, 0xa79251ac48e2e9f9, 0xe0f18fcc3453060b, 0x484e386aad031402,
    0xc74d5882514a4e4b, 0x2b3a8373762005e3, 0xe92cdfbb2a2b0be2, 0xd6ec74321dc1d752,
    0xa7930f1c7d00c03f, 0xe6190a6324455c69, 0x8a54cad76d9ba2eb, 0xc295f8ca9e49ca14,
    0x5f983941c57b094a, 0xe56528d537471ffa, 0x4682bd34c8b2cf7b, 0x0b55e82917ec286b,
    0x4e6844dbb6beec54, 0x8e1a78e19b46bde6, 0xf0bfc3b311d8a3bb, 0x84342ff4031d5cdb,
    0x5182f37792af3152, 0xd802d84eb8561397, 0x59ae4fdcaacdaa64, 0x9285312273166b60,
    0x7655411e857fb43b, 0x49245ce9a0fec9fa, 0x45ab14ed46c6e4d4, 0x9347ee881562f323,
    0xf52d42c10639a8f6, 0xdbbe4f4a53f8f8d5, 0x823aa83aa8cbaf26, 0x50577c89107469d6,
    0x44c956e9202ffbbd, 0xd7d387018c40ad3a, 0x99270f41723752af, 0xe5ae818f80f7d4b8,
    0x57dcea9e7b35a698, 0xc1a6d2bdf707367a, 0xeb7bfd23959d5caa, 0x78a3419977a65b36,
    0x09df13576ace48c8, 0xa3e3e0dddcfea5a0, 0xd294a7f6ca2545ae, 0x88570b6d111f0937,
    0xd5f71fdac8a6c8f1, 0xe287c81b3f3c01cf, 0xa3520affcd1c5c3b, 0xf856dd4b17674d7f,
    0x1761f62482de2295, 0x0ac3a193539204e0, 0xa5be1d51e8e9648b, 0x24e65385212d4e5d,
    0xfa56d12bc6a6b174, 0xbf384813caefe2d7, 0x9aa7163b14ee2e96, 0xe90cde26ea51027b,
    0x9248868d3cdbd25d, 0x54928e19548ceccf, 0xdb549d2d870628fc, 0xdbf5459b81a9ee00,
    0x1d3a4d203705da77, 0x78aa195e05ca49d1, 0x2e126c76c6a2344a, 0xba4e38cdffa5de5a,
    0x165653bdd94e2246, 0xd78537f205944a86, 0x34d007a34e053c23, 0x06d9dbb1b5dbf4a1,
    0x0220f93c2a7e0859, 0x73764e8251c2d32a, 0x19416e59c25ac354, 0xd4e5598dd0cb973f,
    0x8ed7b2f4efbac0b0, 0xd733a7eba1d22503, 0xbdca3fd45e2e5bd9, 0x7a4f4874cc4eff40,
    0x1ee8138b8f57bd73, 0x162153f161c8e8b2, 0xf47b4cf885594341, 0xa92be9afcb953447,
    0x2aaa5b6fd4f97db0, 0xe47b81d4bce3f633, 0x47f30486bf8314ab, 0x592f316963e4abe5,
    0xfc1c91ed002fcc41, 0xbb2a18b7ebc43b55, 0x65e1619f44d321d2, 0x1908498d4465ade5,
    0xb4391ca3c54037de, 0x5e18bc760d17a650, 0x10af69ce157e6f3c, 0x93a1fd2b0cf4af50,
    0xc95a28ed678ff786, 0xccfa931bd6a4b298, 0xb62b39dbbc1edf16, 0x14b6988a1467aeed,
    0x9a139fcd1f31ff0c, 0x5059c0061fac08a2, 0x70c02a81ffa31b39, 0x4b449b945cabc3e4,
    0xd00d079e5035bf16, 0x2dab74919b01e342, 0x61a59984425cd131, 0x1d7612eacf1a126e,
    0x3bd6f94d78c174cc, 0x42b194a35874e3f4, 0xac1037fe737c654d, 0x02610c71d49870af,
    0xf6999837d8ddf321, 0x443d75e864555a9d, 0x84b7d78b2d4548f3, 0xc1e7c538f7b64706,
    0xd444589fc38e6787, 0x888bf1f9bfa9f62d, 0xfe6f75ab5b94db23, 0x4fdb99c5d53674b5,
    0xe1f68841c5d1b885, 0xf964e7f28e3f90cf, 0x432fb6e821d13479, 0xed04db5e6f4e1fb8,
    0x9daee4b260058a08, 0x8d8a95b23b48c5a3, 0x9256775845cd0781, 0xcc43ce9980a96259,
    0x7d15b636d6880ae5, 0x5f31c24073c4e739, 0x246d7aa3ec1642a7, 0x823c8360e8445041,
    0x5a96afb5a3389272, 0xcc1805975b219511, 0xca9ef53d1a3c2442, 0xbb37a7c8f3534f9a,
    0x04b637b7fa5d1a5e, 0xc5791ed71c584ad2, 0xbe37370d9961c831, 0x368c8cb511570c92,
    0xae8e10ce6be95366, 0xdfea546fac431744, 0xf6953309e952db2a, 0xfe2d190cf89e5c5c,
    0xa0f35e012a12533d, 0x889df37e59e18e45, 0xae34d47af50298ac, 0xc9668215473472a1,
    0x494bf721d9e703f5, 0x5c177ff2482f5224, 0x1514c5c2345c2847, 0x0c0c17a57ceb4a23,
    0x22573fb45cb95b18, 0x19f0df358d2497e6, 0xc5ac6fe864b02fbd, 0x403a3bdcdc1abc05,
    0xbdb2569a5929871e, 0xe7071fc038daacab, 0x9a49a1d684ad0d5e, 0xf9fa5a64d3e19f03,
    0xb8f9db33a740e548, 0x10ba246ff82c28f8, 0x197e3954efe6f563, 0x6f1263d91fb90049,
    0xce78f2707c47ef5f, 0x031731bd531d05e0, 0xd41999ae1a5491d9, 0xf6ca7d3e0f29f8e9,
    0x21b96d0bbd8677f0, 0x3dc2fb11c8ee3bb1, 0x59dfb95f4faaa5ce, 0x18e475080282ef95,
    0x1b3e8ebd15dd3b97, 0x22266e604954d8c9, 0xb75e1ba10e5da23f, 0x74da7e60f92e1ebc,
    0xc9f155a74fc95a4b, 0xe912170b90e2df6d, 0x162e52773e7f81c8, 0x128c63bad1ed1ba3,
    0x278466a57aedbfcf, 0x4a09fddf9c5df821, 0xb0bc355f1e7328f1, 0x7ed859b896f380c3,
    0x2768f942566b9206, 0xc0ee40ea705421e0, 0x5982ecb346442760, 0xbb163cd74f6e8677,
    0x7118113726ecdf53, 0x4594628cf79c1089, 0x040d02f55d962280, 0xb74eaa0874dd11dd,
    0x2327df2a04da962b, 0x62d26c6580ba5f8c, 0x9200f73a4e43649f, 0x997162305f94cfda,
    0x864452d59d8f9e14, 0xd049894f790b0237, 0xdfe8286a9f9f87fa, 0x775e18eb038bce98,
    0x0039635da91adda7, 0xf6865adcdb23af12, 0xc5c1d11dcb95eb64, 0xb70e7dc3018514f8,
    0xa42e8e9581db4fa1, 0x1968331ff903e0f2, 0x791a9612e29f05c4, 0x6e007ef147770a1e,
    0xc5bda9a0b6cb623d, 0x1e4f541de97eabf6, 0xd70b3f11ca872d67, 0xf7277422052924df,
    0xe591d4fb4ce5c010, 0x3fedbc51ca31acb4, 0x4389635b020be30e, 0x4180c9a4233cc56f,
    0xa0165605a882c3bf, 0xa133cb958e8db286, 0x7c084cd6fd6cfb1b, 0xb9c1da0c88a64710,
    0x620fa7729dda5357, 0xfe7d98b8f70807ae, 0xf84b50adcb84ddb9, 0x5e38199849dc37bf,
    0xa18923786e252808, 0xb07d3ca59304daa3, 0x9f45b473733f8c56, 0xb32f85d7bec42003,
    0x4965763cefcacec8, 0x51c05a3170e618ea, 0x176b774ba26f4eb6, 0xa9c6c73f24fd02e6,
    0x5293510f656c0b1f, 0xa9c54e3f1e6fa32b, 0xe8d1cf95f711a27e, 0x7c432c856d560944,
    0xfe40de62c7378c63, 0x1a6c2d3a127d7ab5, 0xb862c7a78d46ddc2, 0xe8402229ecd44a36,
    0xa62c68573577e52d, 0xa782cb23130c348b, 0x23e6f87e25d76cda, 0x7833587c58fd73ea,
    0x1966ce7cf65b6931, 0xa90607fcff29ca8c, 0x09dfbec14106ee8c, 0xb42818bb2f8ff084,
    0xdc37655c0782e709, 0x71c60699cc97e9ce, 0x7b170c9f32101602, 0x1993a41f14ba433f,
    0x97179f0b749d6ab9, 0x6091182afaca15ae, 0x167dc7c055d9ad67, 0xb118e8c5790a4af2,
    0x09d86cc9c9354c55, 0x676f59d1b8ca1bcd, 0xc04c1f7c331e7dc8, 0xfdf52afea3eefe56,
    0xcd69126fba521f93, 0x1b68ea743ecc68cf, 0xcd5628b88687f2cf, 0xe730b417b4b086aa,
    0xdd6f270d147f66b0, 0x1d38add0d67f7f63, 0x6e223be770fda218, 0xe466a39eb47e1d7d,
    0x5c14c99e4c4b9b02, 0x46d7e166215facac, 0x15cbce6346f7dd73, 0x98d0d2687354b071,
    0x5904b69f34a0162c, 0x6a5c1d5448fdf7af, 0x88fb6ec9211f0be1, 0x9c2070277bce4233,
    0xf0546f7f600b01ac, 0xef5e039c57af9363, 0xd7e749cf728cb00b, 0x0549827901534689,
    0xf6248b88ab7cc61c, 0x368da10c0cef1dfe, 0xa0a0d9f1a5ba784e, 0x1dcf607bcc508991,
    0x2f8493ef21501735, 0xe1f919bb0589517c, 0x21b8365302b958b3, 0xe0884fb1ec0b2a24,
    0xd66c6654d68ddce6, 0x7cd587ad7c44ff45, 0x5e930df5364020b3, 0x84b5582e7a4e8e49,
    0xea1ea727c2b48472, 0x262b9530462271a5, 0xd6671eac9a60a3dd, 0x0456c50cf6c9bb89,
    0x0db1d1e332b4e609, 0xf6ab1fb14e7da643, 0xfd2f47e6c8b7d315, 0xa401719a963f60fb,
    0x21ff8480dd5be440, 0x409979ae6fd3797c, 0x527522a6f97208b0, 0xa969a7e0eff50062,
    0x131fb11510b4dfbb, 0x1ca390330d2a0750, 0xad895ca1771e5150, 0xa131e6529a8f716b,
    0xba746dd4d0f4fbf4, 0xb43ef8e0ccbdb49d, 0x3626667feba0b891, 0x1feac437e5f18a5b,
    0x385a03fd366bd09b, 0x3163e6c71d02fad5, 0x890f072b6a9101ff, 0xdd6f2d082902fc07,
    0x8a54dd8958d7f515, 0x2a2ca9fca0048f4e, 0x7ae8766f6dfcae4f, 0x5365d602bce0c944,
    0xb8e876fd38281120, 0x48e9aaaf52196771, 0x74b62d9e9905c237, 0x2210a810c711cb37,
    0x62547ad6f010b388, 0x0e8025263e3c16f1, 0x5f054b99fbd779b8, 0xca0c36fc97c16c66,
    0x772ec9d55231c334, 0xc842e64ac7ec9fe4, 0xbddd7abc97006708, 0x497ee64bd64a78c1,
    0xfa348a9689c2fe1f, 0x3c3300a55c9e327b, 0xfe4a4d23b15f422d, 0xf6cc27c0228eb7f4,
    0xee4d88e2d3e0fd1f, 0x73fbbd53eabc6057, 0x0792ec378f8675e0, 0xa12191b7bbe32803,
    0xc13554f8d16ccf67, 0x2516b72c89c244ea, 0x1191e119533ea599, 0x6cc68ecfae93bbc1,
    0xb33a9599b12bec02, 0xfb1dcccb97d3b432, 0xd7c660f1989d4493, 0xbf1e5569f575ea9d,
    0x53b677d708019fd5, 0x9d95c0b0f3ef6f6a, 0x17402b4901f05527, 0xd38311e892914b50,
    0x10a6360ec6006540, 0x1e33a51bccd4e91c, 0x57847e463a3b2295, 0xed96aa57d25e6cd4,
    0x4102bc42f0086ec9, 0xe3187f8306161550, 0xd5fb4c09d60a7830, 0x3080680a586fb456,
    0xf82bc92ed2d067de, 0x19806c3955d8a578, 0xeb68401181a37bbf, 0xe81cd292f091a646,
    0xafdb28c28966b5e5, 0xbc67a5aef63cecab, 0x71424a02bcf938fa, 0xaa44703c7a098589,
    0x65c96aff5d4351e8, 0xc001c3b552a2dff7, 0x03e38ca7ffcc78f4, 0x235ada983f584cfe,
    0x5ad078cc2fa92903, 0x6ad47b0020d9ba31, 0x9eb260afeb2d8f40, 0x3eadd7233c30abbe,
    0x524350698a96061b, 0xf2ee58239eea2857, 0x2c2fdc65726e1097, 0xf499db89721ea351,
    0xc6578169c350f6fa, 0x0cfec2f8a70640f9, 0x3a8e07fceb8916d3, 0x8415fb2c38d1fc6f,
    0xa8ee09607a4fd5be, 0x62febad166600cef, 0xf9e7b4d0ffda4b5b, 0x28f10efa31d073d7,
    0x704fad01e329a6ed, 0x9c1b53598e619685, 0xfb894ff28e3f6570, 0x9f5d4ae226885dd7,
    0x9130837a8c9a2e69, 0x078887c5f003ab8b, 0xca5db3643fa20544, 0x1b8d9caa0d11651e,
    0xc7eb91538ec439e5, 0xefb9da75fee4201c, 0x7d2249021160f7c7, 0x21ae6099894f3652,
    0x24d9bd4ccfa354c4, 0xb59e62dddf1f2b96, 0x571917a6f80eaae4, 0x2f1ff321d4456056,
    0x49dde4526d790b3d, 0x7565437ba3512096, 0xa5e4fa763e80295b, 0x41e82b32b2e0a0de,
    0x524e4e79fed1030e, 0x946b3e3938614749, 0xca29830021b87a7a, 0xa4def3c549c30e4e,
    0x1821b5b9f211c7bf, 0x309c4128517b16ff, 0x53fc55b343f03598, 0x75b63dcfcb3fb338,
    0xf0a87683c62a5b5e, 0x93f3f4651add1dba, 0x03e781af3d634004, 0x66c8c41aa460727c,
    0xd7804482f94f21ad, 0x455a853bc4c9b9f5, 0xd2c1f3504cb0f7bb, 0x7e05788d853c372c,
    0x1efd82e856d4277f, 0xa31bcacb8a4774a5, 0xfadff573a24dedc1, 0xc5b67c7dd06e27b5,
    0x4930421635570d2e, 0x9a6ebbc20b5a4711, 0x373f5a18640accf0, 0x9c5be78f77b7ccb9,
    0x6e79898f4c432227, 0xe34a3b0f92e6a7e4, 0x31dd9a4633188cbd, 0x485c9951d21a4f09,
    0x6c3d94ff04bc4cc1, 0xbf6e1462e2e09389, 0x639988b41797d07c, 0x087cf308185c0fb1,
    0x9c74976a964fc186, 0xd3a15be77b4c1292, 0x993512a0da9b964f, 0x773ff9409fe35932,
    0xabaf542c66e39818, 0x8550eb658b137ff7, 0x826c4af097c361d2, 0x1d4bd3436f577c82,
    0xfe21453e92b63d63, 0x069496fdeb5b47b3, 0x9f4962dbae1f89f4, 0x73394f51ddee5928,
    0xb971954636114584, 0x2bf19f9e9a096509, 0xf770b30518e620a1, 0xa36fbf4bf69c707e,
    0xc32977ba96ed05fd, 0xfbf6edf7e01a4c1b, 0x56a2adb2659ee2f5, 0x2d78794c5eeea2e0,
    0xca9b03e3bf83e6e8, 0x2943c03444b16cbc, 0x34e774a42d6e5d40, 0xd9dbbc2cee47fc15,
    0x085960268944c7d4, 0xa15c90d7ac3acc50, 0x1e42ed6ae42e1168, 0xcc2e1dcedcd8e03c,
    0x9cd74d8ae2abfd79, 0xe26ebfa408005fe5, 0x6394712e620d2bef, 0xb923e6dcdac1f7e8,
    0x8e8b2b8a4cad2fc5, 0xce792a0e66bdf7dc, 0xdc3fd809849a6672, 0xac4035780dd70726,
    0xbd932b720bc5b5b2, 0x307eb82399eea460, 0x0130c2b0dba74355, 0x5f7686ed72aca519,
    0xa5d1806e44d8ea6e, 0x8ffc00bba7252d84, 0x2f3cf3c98bc7bc25, 0x4575d4263ae0cea6,
    0xb38e0f20293939e3, 0x7946c53f8c98bf9d, 0xd35405276bc2f0c7, 0xbe23b84a9172d206,
    0x1ca051740899dd4c, 0x6fd721a7b3c615eb, 0x8bc23d9dafb2d517, 0x458f5f0da0e17e73,
    0xc27ffbdb4c0a0371, 0x8675d24ccaf02fbf, 0xe2d0cc8abad05398, 0xdebf3896141ba18f,
    0x96b4fecfcf0eb628, 0x893e12681e8631c8, 0x3512391e7b92307a, 0xe259dbaa225f4a4d,
    0xf9a285f0ae16349f, 0xd2e00fac45adeaba, 0x95df9782757a03a4, 0x2d84e80bc571ecf4,
    0xf3cf4d6037564b10, 0x2053c4ed80950b66, 0x0448f107e7866b3e, 0x74ced82189c46103,
    0xa40d62e94caff88c, 0x9595a32086da68a6, 0x8d7218ea6353999e, 0xa56433a83f676abf,
    0xc5f7af38bde0454a, 0xe9d5e5a1131f4dea, 0x58433db1b2c47681, 0x5233809f33981834,
    0xfaacc008ce0d8fa7, 0xebcbe1c69bebf215, 0x84aa9330fd9a2324, 0x6ba9fcbb6898a0be,
    0xbdc6f592cb629df9, 0x00d4124433c38dbd, 0xc82ce5db5e5e51ba, 0x9f0ba80aaeb51c55,
    0x9a946d3dba6b20a5, 0xd673270f630b3aaa, 0x655003e676518e04, 0xb830a72c5a7ca5c7,
    0x4d19c3ffadc38011, 0xa0e45e2942491cdd, 0x0b5edd5fdba3cbe7, 0x4aa6dc4e609d89d2,
    0xd5cf7b082a42b748, 0x5090780fdc5c036c, 0x2ba8965fa505bc7d, 0x93d1e5a2acf6671f,
];

/// Keys for the 16 combinations of castling rights.
pub const CASTLE_KEYS: [u64; 16] = [
    0x6e9909a2d117d5c6, 0x43218af513e05664, 0xe166b2e256e1756d, 0x791af501a1f0274f,
    0xc5161c1a8b3cbab8, 0x7eaf57a5da6e7912, 0xd76c758824e7fcad, 0xe146033d5ca1b7c8,
    0x06ef2d46dc9a9cf0, 0xf6c78d71023b66a9, 0xe2e8c55ac404f31f, 0xf02f49d265704607,
    0x9b98079e706073a2, 0x17967485c5648998, 0x1a7654e37a60b35a, 0xe38f23c4e5ce9af3,
];

/// Keys for the file of the en passant square.
pub const EP_FILE_KEYS: [u64; 8] = [
    0x329590627ec90093, 0x0903f515678b11c1, 0x229eaea19f3aeb7f, 0x50fc9e91af4a4be2,
    0xec5dd9bb82f37f7b, 0x46afe4af70357eda, 0x3694eac1d5dc41ba, 0x4394c3df2cf25210,
];

/// Key for Black being the side to move.
pub const SIDE_TO_MOVE_KEY: u64 = 0xae672c4557be3e61;

} // verus!
