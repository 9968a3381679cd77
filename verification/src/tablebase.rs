//! Indexing sets of squares for endgame tables: `n choose k` and the combinatorial number system,
//! which numbers the sets of `k` squares from 0 to `64 choose k - 1`.
use vstd::prelude::*;
use crate::bits::{bit, lsb, pop_lsb};

verus! {

/// The most pieces besides the two kings that a table indexes.
pub const MAX_NON_K_PIECES: usize = 4;

/// `n choose k`, the number of ways to place `k` indistinguishable pieces on `n` squares.
pub open spec fn binomial(n: nat, k: nat) -> nat
    decreases n,
{
    if k == 0 {
        1
    } else if n == 0 {
        0
    } else {
        binomial((n - 1) as nat, (k - 1) as nat) + binomial((n - 1) as nat, k)
    }
}

proof fn lemma_binomial_bound(n: nat, k: nat)
    requires
        n <= 64,
        k <= 4,
    ensures
        binomial(n, k) <= 635376,
    decreases n,
{
    lemma_binomial_mono(n, 64, k);
    lemma_binomial_closed(64);
}

/// `n choose k` is 0 below `k`.
proof fn lemma_binomial_zero_below(n: nat, k: nat)
    requires
        n < k,
    ensures
        binomial(n, k) == 0,
    decreases n,
{
    if n > 0 {
        lemma_binomial_zero_below((n - 1) as nat, (k - 1) as nat);
        lemma_binomial_zero_below((n - 1) as nat, k);
    }
}

/// `n choose k` grows with `n`.
proof fn lemma_binomial_mono(a: nat, b: nat, k: nat)
    requires
        a <= b,
    ensures
        binomial(a, k) <= binomial(b, k),
    decreases b,
{
    if a < b {
        lemma_binomial_mono(a, (b - 1) as nat, k);
    }
}

/// The values of `n choose k` for `k <= 4`, in closed form.
proof fn lemma_binomial_closed(n: nat)
    ensures
        binomial(n, 0) == 1,
        binomial(n, 1) == n,
        2 * binomial(n, 2) == n * (n - 1),
        6 * binomial(n, 3) == n * (n - 1) * (n - 2),
        24 * binomial(n, 4) == n * (n - 1) * (n - 2) * (n - 3),
    decreases n,
{
    if n > 0 {
        lemma_binomial_closed((n - 1) as nat);
        let m = (n - 1) as nat;
        assert(2 * binomial(n, 2) == n * (n - 1)) by (nonlinear_arith)
            requires
                binomial(n, 2) == binomial(m, 1) + binomial(m, 2),
                binomial(m, 1) == m,
                2 * binomial(m, 2) == m * (m - 1),
                n == m + 1,
        ;
        assert(6 * binomial(n, 3) == n * (n - 1) * (n - 2)) by (nonlinear_arith)
            requires
                binomial(n, 3) == binomial(m, 2) + binomial(m, 3),
                2 * binomial(m, 2) == m * (m - 1),
                6 * binomial(m, 3) == m * (m - 1) * (m - 2),
                n == m + 1,
        ;
        assert(24 * binomial(n, 4) == n * (n - 1) * (n - 2) * (n - 3)) by (nonlinear_arith)
            requires
                binomial(n, 4) == binomial(m, 3) + binomial(m, 4),
                6 * binomial(m, 3) == m * (m - 1) * (m - 2),
                24 * binomial(m, 4) == m * (m - 1) * (m - 2) * (m - 3),
                n == m + 1,
        ;
    }
}

/// The table of `n choose k` for `n <= 64` and `k <= MAX_NON_K_PIECES`, indexed `[n][k]`.
pub fn combinations() -> (r: Vec<Vec<usize>>)
    ensures
        r@.len() == 65,
        forall|n: int| 0 <= n <= 64 ==> #[trigger] r@[n]@.len() == 5,
        forall|n: int, k: int|
            0 <= n <= 64 && 0 <= k <= 4 ==> #[trigger] r@[n]@[k] == binomial(n as nat, k as nat),
{
    let mut res: Vec<Vec<usize>> = Vec::new();
    let mut n: usize = 0;
    while n <= 64
        invariant
            n <= 65,
            res@.len() == n,
            forall|i: int| 0 <= i < n ==> #[trigger] res@[i]@.len() == 5,
            forall|i: int, k: int|
                0 <= i < n && 0 <= k <= 4 ==> #[trigger] res@[i]@[k] == binomial(
                    i as nat,
                    k as nat,
                ),
        decreases 65 - n,
    {
        let mut row: Vec<usize> = Vec::new();
        let mut k: usize = 0;
        while k <= 4
            invariant
                1 <= n + 1 <= 65,
                res@.len() == n,
                k <= 5,
                row@.len() == k,
                forall|i: int| 0 <= i < n ==> #[trigger] res@[i]@.len() == 5,
                forall|i: int, j: int|
                    0 <= i < n && 0 <= j <= 4 ==> #[trigger] res@[i]@[j] == binomial(
                        i as nat,
                        j as nat,
                    ),
                forall|j: int| 0 <= j < k ==> #[trigger] row@[j] == binomial(n as nat, j as nat),
            decreases 5 - k,
        {
            let val: usize = if k == 0 {
                1
            } else if n == 0 {
                0
            } else {
                proof {
                    lemma_binomial_bound((n - 1) as nat, (k - 1) as nat);
                    lemma_binomial_bound((n - 1) as nat, k as nat);
                    lemma_binomial_bound(n as nat, k as nat);
                }
                res[n - 1][k - 1] + res[n - 1][k]
            };
            row.push(val);
            k = k + 1;
        }
        res.push(row);
        n = n + 1;
    }
    res
}

/// The index of the set of squares `bb` in the combinatorial number system, where the squares
/// already counted number `base`: `s choose (base + 1)` for the lowest square `s`, plus the index of
/// the other squares with `base + 1`.
pub open spec fn spec_encode(bb: u64, base: nat) -> nat
    decreases bb,
    via lemma_encode_decreases
{
    if bb == 0 {
        0
    } else {
        let s = vstd::std_specs::bits::u64_trailing_zeros(bb);
        binomial(s as nat, base + 1) + spec_encode(bb ^ (1u64 << s as u64), base + 1)
    }
}

#[via_fn]
proof fn lemma_encode_decreases(bb: u64, base: nat) {
    if bb != 0 {
        vstd::std_specs::bits::axiom_u64_trailing_zeros(bb);
        let s = vstd::std_specs::bits::u64_trailing_zeros(bb) as u64;
        assert(s < 64 && (bb >> s) & 1u64 == 1u64 ==> (bb ^ (1u64 << s)) < bb) by (bit_vector);
    }
}

/// Adding a square below all squares of `x` adds its binomial term and shifts the others by one.
proof fn lemma_encode_add_lowest(x: u64, t: u64, base: nat)
    requires
        t < 64,
        forall|j: u64| j < 64 && #[trigger] bit(x, j) ==> j > t,
    ensures
        spec_encode(x | (1u64 << t), base) == binomial(t as nat, base + 1) + spec_encode(x, base + 1),
        crate::bits::pop_count(x | (1u64 << t)) == crate::bits::pop_count(x) + 1,
{
    broadcast use crate::bits::group_bits;

    let y = x | (1u64 << t);
    assert(bit(y, t));
    vstd::std_specs::bits::axiom_u64_trailing_zeros(y);
    let tz = vstd::std_specs::bits::u64_trailing_zeros(y) as u64;
    if tz < t {
        assert((y >> tz) & 1u64 == 1u64);
        assert(bit(y, tz));
    }
    if tz > t {
        assert((y >> t) & 1u64 == 0u64);
    }
    assert(tz == t);
    assert forall|j: u64| j < 64 implies bit(y ^ (1u64 << t), j) == bit(x, j) by {}
    crate::bits::lemma_bits_ext(y ^ (1u64 << t), x);
    crate::bits::lemma_pop_count_add_bit(x, t);
}

/// The index of the set of squares `bb` with `num_pieces` squares, in the combinatorial number
/// system: the sum of `s choose (i + 1)` over its squares `s` in increasing order, counting `i`
/// from 0.
pub fn encode(bb: u64, num_pieces: usize) -> (r: usize)
    requires
        1 <= num_pieces <= MAX_NON_K_PIECES,
        crate::bits::pop_count(bb) == num_pieces,
    ensures
        r == spec_encode(bb, 0),
{
    let table = combinations();
    let mut r: usize = 0;
    let mut rest = bb;
    let mut i: usize = 0;
    while rest != 0
        invariant
            table@.len() == 65,
            forall|n: int| 0 <= n <= 64 ==> #[trigger] table@[n]@.len() == 5,
            forall|n: int, k: int|
                0 <= n <= 64 && 0 <= k <= 4 ==> #[trigger] table@[n]@[k] == binomial(
                    n as nat,
                    k as nat,
                ),
            i + crate::bits::pop_count(rest) == num_pieces,
            num_pieces <= 4,
            r <= i * 635376,
            r + spec_encode(rest, i as nat) == spec_encode(bb, 0),
        decreases rest,
    {
        let (sq, next) = pop_lsb(rest);
        assert(spec_encode(rest, i as nat) == binomial(sq as nat, (i + 1) as nat) + spec_encode(next, (i + 1) as nat));
        proof {
            crate::bits::lemma_pop_count_remove_bit(rest, sq as u64);
            lemma_binomial_bound(sq as nat, (i + 1) as nat);
        }
        r = r + table[sq as usize][i + 1];
        rest = next;
        i = i + 1;
    }
    r
}

/// The set of `k` squares with index `n` (see [`encode`]).
pub fn decode(n: usize, k: usize) -> (r: u64)
    requires
        1 <= k <= MAX_NON_K_PIECES,
        n < binomial(64, k as nat),
    ensures
        crate::bits::pop_count(r) == k,
        spec_encode(r, 0) == n,
{
    let table = combinations();
    let mut rest = n;
    let mut left = k;
    let mut res: u64 = 0;
    let ghost mut bound: nat = 64;
    proof {
        assert(crate::bits::pop_count(0u64) == 0);
        assert forall|j: u64| j < 64 && #[trigger] bit(0u64, j) implies j >= bound by {
            crate::bits::lemma_bit_zero(j);
        }
    }
    while left > 1
        invariant
            table@.len() == 65,
            forall|m: int| 0 <= m <= 64 ==> #[trigger] table@[m]@.len() == 5,
            forall|m: int, j: int|
                0 <= m <= 64 && 0 <= j <= 4 ==> #[trigger] table@[m]@[j] == binomial(
                    m as nat,
                    j as nat,
                ),
            1 <= left <= k <= 4,
            rest < binomial(64, left as nat),
            bound <= 64,
            rest < binomial(bound, left as nat),
            n == rest + spec_encode(res, left as nat),
            crate::bits::pop_count(res) == k - left,
            forall|j: u64| j < 64 && #[trigger] bit(res, j) ==> j >= bound,
        decreases left,
    {
        let mut idx: usize = left - 1;
        proof {
            lemma_binomial_zero_below(idx as nat, left as nat);
        }
        while idx < 64 && table[idx + 1][left] <= rest
            invariant
                table@.len() == 65,
                forall|m: int| 0 <= m <= 64 ==> #[trigger] table@[m]@.len() == 5,
                forall|m: int, j: int|
                    0 <= m <= 64 && 0 <= j <= 4 ==> #[trigger] table@[m]@[j] == binomial(
                        m as nat,
                        j as nat,
                    ),
                2 <= left <= 4,
                left - 1 <= idx <= 64,
                table@[idx as int]@[left as int] <= rest,
                rest < binomial(64, left as nat),
            decreases 64 - idx,
        {
            idx = idx + 1;
        }
        assert(idx < 64);
        assert(rest < binomial((idx + 1) as nat, left as nat));
        proof {
            if idx >= bound {
                lemma_binomial_mono(bound, idx as nat, left as nat);
            }
            assert(binomial((idx + 1) as nat, left as nat) == binomial(idx as nat, (left - 1) as nat)
                + binomial(idx as nat, left as nat));
            lemma_encode_add_lowest(res, idx as u64, (left - 1) as nat);
            crate::bits::lemma_bit_or(res, 1u64 << idx as u64, 0);
        }
        let ghost old_res = res;
        rest = rest - table[idx][left];
        proof {
            lemma_binomial_mono(idx as nat, 64, (left - 1) as nat);
        }
        res = res | (1u64 << idx as u64);
        proof {
            assert forall|j: u64| j < 64 && #[trigger] bit(res, j) implies j >= idx by {
                crate::bits::lemma_bit_or(old_res, 1u64 << idx as u64, j);
                crate::bits::lemma_bit_single(idx as u64, j);
            }
            bound = idx as nat;
        }
        left = left - 1;
    }
    proof {
        lemma_binomial_closed(64);
        lemma_binomial_closed(bound);
        lemma_binomial_closed(rest as nat);
        lemma_encode_add_lowest(res, rest as u64, 0);
    }
    res | (1u64 << rest as u64)
}

/// The next set of squares with the same number of squares, in the order of [`encode`].
pub fn next_combination(n: u64) -> (r: u64)
    requires
        n != 0,
        n | (n - 1) as u64 != u64::MAX,
        vstd::std_specs::bits::u64_trailing_zeros(n) < 63,
    ensures
        r > n,
{
    let t = n | (n - 1);
    let tz = lsb(n);
    let not_t = !t;
    let low = (not_t & 0u64.wrapping_sub(not_t)).wrapping_sub(1);
    let r = (t + 1) | (low >> (tz + 1));
    proof {
        crate::bits::lemma_and_or_comm(n, (n - 1) as u64, 0);
        crate::bits::lemma_and_or_comm((t + 1) as u64, low >> (tz + 1), 0);
    }
    r
}

} // verus!
