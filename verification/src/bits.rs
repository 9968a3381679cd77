//! Bitboards: a `u64` where bit `i` stands for the square with index `i`.
use vstd::prelude::*;

verus! {

/// Bit `i` of `b` is set.
pub open spec fn bit(b: u64, i: u64) -> bool {
    (b >> i) & 1u64 == 1u64
}

/// Number of set bits of `b`.
pub open spec fn pop_count(b: u64) -> nat
    decreases b,
{
    if b == 0 {
        0
    } else {
        (b % 2) as nat + pop_count(b / 2)
    }
}

/// Shifting right by one halves; the low bit is the remainder.
pub proof fn lemma_shr1_div2(x: u64)
    ensures
        x >> 1u64 == x / 2,
        x & 1u64 == x % 2,
{
    assert(x >> 1u64 == x / 2 && x & 1u64 == x % 2) by (bit_vector);
}

pub broadcast proof fn lemma_bit_and(a: u64, b: u64, i: u64)
    requires
        i < 64,
    ensures
        #[trigger] bit(a & b, i) == (bit(a, i) && bit(b, i)),
{
    assert((((a & b) >> i) & 1u64 == 1u64) == (((a >> i) & 1u64 == 1u64) && ((b >> i) & 1u64
        == 1u64))) by (bit_vector)
        requires
            i < 64,
    ;
}

pub broadcast proof fn lemma_bit_or(a: u64, b: u64, i: u64)
    requires
        i < 64,
    ensures
        #[trigger] bit(a | b, i) == (bit(a, i) || bit(b, i)),
{
    assert((((a | b) >> i) & 1u64 == 1u64) == (((a >> i) & 1u64 == 1u64) || ((b >> i) & 1u64
        == 1u64))) by (bit_vector)
        requires
            i < 64,
    ;
}

pub broadcast proof fn lemma_bit_xor(a: u64, b: u64, i: u64)
    requires
        i < 64,
    ensures
        #[trigger] bit(a ^ b, i) == (bit(a, i) != bit(b, i)),
{
    assert((((a ^ b) >> i) & 1u64 == 1u64) == (((a >> i) & 1u64 == 1u64) != ((b >> i) & 1u64
        == 1u64))) by (bit_vector)
        requires
            i < 64,
    ;
}

pub broadcast proof fn lemma_bit_not(a: u64, i: u64)
    requires
        i < 64,
    ensures
        #[trigger] bit(!a, i) == !bit(a, i),
{
    assert((((!a) >> i) & 1u64 == 1u64) == !((a >> i) & 1u64 == 1u64)) by (bit_vector)
        requires
            i < 64,
    ;
}

pub broadcast proof fn lemma_bit_single(i: u64, j: u64)
    requires
        i < 64,
        j < 64,
    ensures
        #[trigger] bit(1u64 << i, j) == (i == j),
{
    assert(((((1u64 << i) >> j) & 1u64) == 1u64) == (i == j)) by (bit_vector)
        requires
            i < 64,
            j < 64,
    ;
}

pub broadcast proof fn lemma_bit_zero(i: u64)
    requires
        i < 64,
    ensures
        !#[trigger] bit(0u64, i),
{
    assert(((0u64 >> i) & 1u64) == 0u64) by (bit_vector);
}

proof fn lemma_shift_step(a: u64, k: u64)
    requires
        k < 64,
    ensures
        (a >> k) >> 1u64 == a >> (k + 1) as u64,
        (a >> k) == ((a >> (k + 1) as u64) << 1u64) | ((a >> k) & 1u64),
        a >> 64u64 == 0,
        a >> 0u64 == a,
{
    assert((a >> k) >> 1u64 == a >> (k + 1) as u64 && (a >> k) == ((a >> (k + 1) as u64) << 1u64)
        | ((a >> k) & 1u64) && a >> 64u64 == 0 && a >> 0u64 == a) by (bit_vector)
        requires
            k < 64,
    ;
}

proof fn lemma_bits_ext_from(a: u64, b: u64, k: u64)
    requires
        k <= 64,
        forall|i: u64| i < 64 ==> bit(a, i) == bit(b, i),
    ensures
        a >> k == b >> k,
    decreases 64 - k,
{
    lemma_shift_step(a, 0);
    lemma_shift_step(b, 0);
    if k < 64 {
        lemma_bits_ext_from(a, b, (k + 1) as u64);
        lemma_shift_step(a, k);
        lemma_shift_step(b, k);
        assert(bit(a, k) == bit(b, k));
        assert((a >> k) & 1u64 == 1u64 || (a >> k) & 1u64 == 0u64) by (bit_vector);
        assert((b >> k) & 1u64 == 1u64 || (b >> k) & 1u64 == 0u64) by (bit_vector);
    }
}

/// Two bitboards with the same bits are equal.
pub proof fn lemma_bits_ext(a: u64, b: u64)
    requires
        forall|i: u64| i < 64 ==> bit(a, i) == bit(b, i),
    ensures
        a == b,
{
    lemma_bits_ext_from(a, b, 0);
    lemma_shift_step(a, 0);
    lemma_shift_step(b, 0);
}

/// A bitboard without any set bit is zero.
pub proof fn lemma_no_bits_zero(a: u64)
    requires
        forall|i: u64| i < 64 ==> !bit(a, i),
    ensures
        a == 0,
{
    broadcast use lemma_bit_zero;

    lemma_bits_ext(a, 0);
}

/// Intersecting with a single-square bitboard is nonzero exactly when that square is set.
pub proof fn lemma_and_single(x: u64, s: u64, j: u64)
    requires
        j < 64,
        forall|k: u64| k < 64 ==> bit(s, k) == (k == j),
    ensures
        (x & s != 0) == bit(x, j),
{
    broadcast use lemma_bit_and, lemma_bit_zero;

    if x & s != 0 {
        if !bit(x, j) {
            assert forall|k: u64| k < 64 implies !bit(x & s, k) by {
                assert(bit(s, k) == (k == j));
            }
            lemma_no_bits_zero(x & s);
        }
    } else {
        assert(bit(s, j));
        assert(!bit(0u64, j));
    }
}

/// Rearranging xors, in the shapes that hash updates need.
pub proof fn lemma_xor_shapes(p: u64, k: u64, e: u64, c: u64, st: u64, n: u64)
    ensures
        p ^ 0u64 == p,
        0u64 ^ p == p,
        (p ^ k) ^ 0u64 == p ^ k,
        ((p ^ k) ^ e) ^ c == ((p ^ e) ^ c) ^ k,
        (((p ^ k) ^ e) ^ c) ^ st == (((p ^ e) ^ c) ^ st) ^ k,
        (p ^ k) ^ c == (p ^ c) ^ k,
        ((p ^ k) ^ c) ^ st == ((p ^ c) ^ st) ^ k,
        (((p ^ e) ^ c) ^ st) ^ e == (p ^ c) ^ st,
        ((p ^ e) ^ c) ^ e == p ^ c,
        ((((p ^ e) ^ c) ^ st) ^ c) ^ n ^ st == (p ^ e) ^ n,
        (((p ^ e) ^ c) ^ c) ^ n ^ st == ((p ^ e) ^ n) ^ st,
        ((p ^ c) ^ st) ^ e == ((p ^ e) ^ c) ^ st,
        (p ^ c) ^ e == (p ^ e) ^ c,
        k == (p ^ k) ^ p,
        k ^ p == p ^ k,
        p ^ (c ^ k) == (p ^ c) ^ k,
        (p ^ 0u64) ^ (c ^ k) == (p ^ c) ^ k,
        (p ^ 0u64) ^ c == (p ^ c) ^ 0u64,
{
    assert(p ^ 0u64 == p && 0u64 ^ p == p && (p ^ k) ^ 0u64 == p ^ k && ((p ^ k) ^ e) ^ c == ((p
        ^ e) ^ c) ^ k && (((p ^ k) ^ e) ^ c) ^ st == (((p ^ e) ^ c) ^ st) ^ k && (p ^ k) ^ c == (p
        ^ c) ^ k && ((p ^ k) ^ c) ^ st == ((p ^ c) ^ st) ^ k && (((p ^ e) ^ c) ^ st) ^ e == (p ^ c)
        ^ st && ((p ^ e) ^ c) ^ e == p ^ c && ((((p ^ e) ^ c) ^ st) ^ c) ^ n ^ st == (p ^ e) ^ n
        && (((p ^ e) ^ c) ^ c) ^ n ^ st == ((p ^ e) ^ n) ^ st && ((p ^ c) ^ st) ^ e == ((p ^ e) ^ c)
        ^ st && (p ^ c) ^ e == (p ^ e) ^ c && k == (p ^ k) ^ p && k ^ p == p ^ k && p ^ (c ^ k) == (
    p ^ c) ^ k && (p ^ 0u64) ^ (c ^ k) == (p ^ c) ^ k && (p ^ 0u64) ^ c == (p ^ c) ^ 0u64)
        by (bit_vector);
}

/// Intersection, union and exclusive or do not depend on the order or grouping of their
/// arguments, a union is at least as large, as a number, as each of its arguments, and xoring a
/// value twice undoes it.
pub proof fn lemma_and_or_comm(a: u64, b: u64, c: u64)
    ensures
        a & b == b & a,
        a | b == b | a,
        c | a | b == c | b | a,
        a | b >= a,
        a ^ b == b ^ a,
        (a ^ b) ^ c == a ^ (b ^ c),
        a ^ b ^ b == a,
{
    assert(a & b == b & a && a | b == b | a && c | a | b == c | b | a && a | b >= a && a ^ b == b ^ a
        && (a ^ b) ^ c == a ^ (b ^ c) && a ^ b ^ b == a) by (bit_vector);
}

/// Toggling square `s` in bitboards and intersecting them.
pub proof fn lemma_toggle_and(x: u64, y: u64, s: u64)
    requires
        s < 64,
    ensures
        bit(x, s) == bit(y, s) ==> (x ^ (1u64 << s)) & (y ^ (1u64 << s)) == (x & y) ^ (1u64 << s),
        !bit(y, s) ==> (x ^ (1u64 << s)) & y == x & y,
        !bit(x, s) ==> x & (y ^ (1u64 << s)) == x & y,
        !bit(x, s) ==> x ^ (1u64 << s) == x | (1u64 << s),
{
    assert((((x >> s) & 1u64 == 1u64) == ((y >> s) & 1u64 == 1u64) ==> (x ^ (1u64 << s)) & (y ^ (
    1u64 << s)) == (x & y) ^ (1u64 << s)) && (!((y >> s) & 1u64 == 1u64) ==> (x ^ (1u64 << s)) & y
        == x & y) && (!((x >> s) & 1u64 == 1u64) ==> x & (y ^ (1u64 << s)) == x & y) && (!((x >> s)
        & 1u64 == 1u64) ==> x ^ (1u64 << s) == x | (1u64 << s))) by (bit_vector)
        requires
            s < 64,
    ;
}

/// Facts about toggling single squares.
pub proof fn lemma_toggle_single(bb: u64, sq: u64, s: u64)
    requires
        sq < 64,
        s < 64,
    ensures
        bb == 0 ==> bb ^ (1u64 << sq) == 1u64 << sq,
        (1u64 << sq) ^ (1u64 << sq) == 0,
        bit(bb, s) ==> bb ^ (1u64 << s) < bb,
        (bb ^ (1u64 << sq)) ^ (1u64 << sq) == bb,
        (bb ^ (1u64 << sq)) ^ (1u64 << s) == (bb ^ (1u64 << s)) ^ (1u64 << sq),
{
    assert((bb == 0 ==> bb ^ (1u64 << sq) == 1u64 << sq) && (1u64 << sq) ^ (1u64 << sq) == 0 && ((
    (bb >> s) & 1u64 == 1u64) ==> bb ^ (1u64 << s) < bb) && (bb ^ (1u64 << sq)) ^ (1u64 << sq) == bb
        && (bb ^ (1u64 << sq)) ^ (1u64 << s) == (bb ^ (1u64 << s)) ^ (1u64 << sq)) by (bit_vector)
        requires
            sq < 64,
            s < 64,
    ;
}

pub broadcast group group_bits {
    lemma_bit_and,
    lemma_bit_or,
    lemma_bit_xor,
    lemma_bit_not,
    lemma_bit_single,
    lemma_bit_zero,
}

/// The bitboard that contains only square `i`.
pub fn single_bb(i: u8) -> (r: u64)
    requires
        i < 64,
    ensures
        r == 1u64 << i,
        forall|j: u64| j < 64 ==> bit(r, j) == (j == i),
{
    broadcast use lemma_bit_single;

    1u64 << i
}

/// Whether square `i` is in bitboard `b`.
pub fn has_bit(b: u64, i: u8) -> (r: bool)
    requires
        i < 64,
    ensures
        r == bit(b, i as u64),
{
    (b >> i) & 1 == 1
}

/// Number of set bits, i.e. the number of squares in the bitboard.
pub fn num_ones(b: u64) -> (r: u32)
    ensures
        r == pop_count(b),
        r <= 64,
{
    let mut x = b;
    let mut cnt: u32 = 0;
    proof {
        lemma_pop_count_bound(b);
    }
    while x != 0
        invariant
            cnt + pop_count(x) == pop_count(b),
            pop_count(b) <= 64,
        decreases x,
    {
        proof {
            lemma_shr1_div2(x);
        }
        cnt = cnt + (x & 1) as u32;
        x = x >> 1;
    }
    cnt
}

proof fn lemma_pop_count_shift_bound(b: u64, k: u64)
    requires
        k <= 64,
    ensures
        pop_count(b >> k) <= 64 - k,
    decreases 64 - k,
{
    lemma_shift_step(b, 0);
    if k < 64 {
        lemma_shift_step(b, k);
        lemma_shr1_div2(b >> k);
        lemma_pop_count_shift_bound(b, (k + 1) as u64);
    } else {
        assert(pop_count(0) == 0);
    }
}

pub proof fn lemma_pop_count_bound(b: u64)
    ensures
        pop_count(b) <= 64,
{
    lemma_pop_count_shift_bound(b, 0);
    lemma_shift_step(b, 0);
}

pub proof fn lemma_pop_count_zero(b: u64)
    ensures
        (pop_count(b) == 0) == (b == 0),
    decreases b,
{
    if b != 0 {
        if b % 2 == 0 {
            lemma_pop_count_zero(b / 2);
        }
    }
}

/// Clearing a set bit removes one from the count.
pub proof fn lemma_pop_count_remove_bit(b: u64, t: u64)
    requires
        t < 64,
        bit(b, t),
    ensures
        pop_count(b) == pop_count(b ^ (1u64 << t)) + 1,
    decreases t,
{
    assert(t < 64 && (b >> t) & 1u64 == 1u64 ==> (t == 0 ==> (b % 2 == 1 && (b ^ (1u64 << t)) % 2
        == 0 && (b ^ (1u64 << t)) / 2 == b / 2)) && (t > 0 ==> ((b ^ (1u64 << t)) / 2 == (b / 2) ^ (
    1u64 << (t - 1) as u64) && (b ^ (1u64 << t)) % 2 == b % 2 && ((b / 2) >> (t - 1) as u64)
        & 1u64 == 1u64))) by (bit_vector);
    if t > 0 {
        lemma_pop_count_remove_bit(b / 2, (t - 1) as u64);
    }
}

/// Setting an unset bit adds one to the count.
pub proof fn lemma_pop_count_add_bit(b: u64, t: u64)
    requires
        t < 64,
        !bit(b, t),
    ensures
        pop_count(b | (1u64 << t)) == pop_count(b) + 1,
{
    let c = b | (1u64 << t);
    assert(t < 64 && (b >> t) & 1u64 != 1u64 ==> ((b | (1u64 << t)) >> t) & 1u64 == 1u64 && (b | (
    1u64 << t)) ^ (1u64 << t) == b) by (bit_vector);
    lemma_pop_count_remove_bit(c, t);
}

/// A bitboard with a single square has one set bit.
pub proof fn lemma_pop_count_single(i: u64)
    requires
        i < 64,
    ensures
        pop_count(1u64 << i) == 1,
    decreases i,
{
    assert((i < 64 ==> (i == 0 ==> 1u64 << i == 1u64)) && (0 < i < 64 ==> (1u64 << i) / 2 == 1u64
        << (i - 1) as u64 && (1u64 << i) % 2 == 0)) by (bit_vector);
    if i > 0 {
        lemma_pop_count_single((i - 1) as u64);
    } else {
        assert(pop_count(1u64) == 1 + pop_count(0u64));
    }
}

/// Index of the lowest set bit.
pub fn lsb(b: u64) -> (r: u8)
    requires
        b != 0,
    ensures
        r == vstd::std_specs::bits::u64_trailing_zeros(b),
        r < 64,
        bit(b, r as u64),
        forall|j: u64| j < r ==> !bit(b, j),
{
    proof {
        vstd::std_specs::bits::axiom_u64_trailing_zeros(b);
    }
    let t = b.trailing_zeros();
    t as u8
}

/// Removes the lowest set bit, returning its index and the remaining bitboard.
pub fn pop_lsb(b: u64) -> (r: (u8, u64))
    requires
        b != 0,
    ensures
        r.0 == vstd::std_specs::bits::u64_trailing_zeros(b),
        r.0 < 64,
        bit(b, r.0 as u64),
        forall|j: u64| j < r.0 ==> !bit(b, j),
        r.1 == b ^ (1u64 << r.0),
        r.1 < b,
        forall|j: u64| j < 64 ==> bit(r.1, j) == (bit(b, j) && j != r.0),
{
    broadcast use group_bits;

    let i = lsb(b);
    let rest = b ^ (1u64 << i);
    assert(((b >> (i as u64)) & 1u64 == 1u64) ==> (b ^ (1u64 << (i as u64))) < b) by (bit_vector)
        requires
            i < 64,
    ;
    (i, rest)
}

/// Whether the bitboard contains exactly one square.
pub fn is_single_piece(b: u64) -> (r: bool)
    ensures
        r == (pop_count(b) == 1),
{
    num_ones(b) == 1
}

/// The a-file.
pub const FILE_A: u64 = 0x0101_0101_0101_0101;

/// The h-file.
pub const FILE_H: u64 = 0x8080_8080_8080_8080;

/// Every square moved one rank up; the top rank falls off.
pub fn north(b: u64) -> (r: u64)
    ensures
        r == b << 8u64,
{
    b << 8
}

/// Every square moved one rank down; the bottom rank falls off.
pub fn south(b: u64) -> (r: u64)
    ensures
        r == b >> 8u64,
{
    b >> 8
}

/// Every square moved one file to the right (towards the h-file); the h-file falls off.
pub fn east(b: u64) -> (r: u64)
    ensures
        r == (b << 1u64) & !FILE_A,
{
    (b << 1) & !FILE_A
}

/// Every square moved one file to the left (towards the a-file); the a-file falls off.
pub fn west(b: u64) -> (r: u64)
    ensures
        r == (b >> 1u64) & !FILE_H,
{
    (b >> 1) & !FILE_H
}

/// Mirrors the bitboard vertically: each rank's byte moves to the mirrored rank.
pub open spec fn spec_flip_up_down(b: u64) -> u64 {
    (b << 56u64) | ((b << 40u64) & 0x00ff_0000_0000_0000) | ((b << 24u64) & 0x0000_ff00_0000_0000) | ((
    b << 8u64) & 0x0000_00ff_0000_0000) | ((b >> 8u64) & 0x0000_0000_ff00_0000) | ((b >> 24u64)
        & 0x0000_0000_00ff_0000) | ((b >> 40u64) & 0x0000_0000_0000_ff00) | (b >> 56u64)
}

/// Mirrors the bitboard vertically (rank `r` becomes rank `7 - r`).
pub fn flip_up_down(b: u64) -> (r: u64)
    ensures
        forall|j: u64| j < 64 ==> bit(r, j) == bit(b, j ^ 56u64),
        r == spec_flip_up_down(b),
{
    let r = (b << 56) | ((b << 40) & 0x00ff_0000_0000_0000) | ((b << 24) & 0x0000_ff00_0000_0000)
        | ((b << 8) & 0x0000_00ff_0000_0000) | ((b >> 8) & 0x0000_0000_ff00_0000) | ((b >> 24)
        & 0x0000_0000_00ff_0000) | ((b >> 40) & 0x0000_0000_0000_ff00) | (b >> 56);
    assert forall|j: u64| j < 64 implies bit(r, j) == bit(b, j ^ 56u64) by {
        assert(((((b << 56) | ((b << 40) & 0x00ff_0000_0000_0000) | ((b << 24)
            & 0x0000_ff00_0000_0000) | ((b << 8) & 0x0000_00ff_0000_0000) | ((b >> 8)
            & 0x0000_0000_ff00_0000) | ((b >> 24) & 0x0000_0000_00ff_0000) | ((b >> 40)
            & 0x0000_0000_0000_ff00) | (b >> 56)) >> j) & 1u64 == 1u64) == (((b >> (j ^ 56u64))
            & 1u64) == 1u64)) by (bit_vector)
            requires
                j < 64,
        ;
    }
    r
}

} // verus!
