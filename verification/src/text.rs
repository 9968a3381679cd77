//! Small helpers for reading and writing text.
use vstd::prelude::*;
use vstd::std_specs::iter::IteratorSpec;

verus! {

/// The characters of a string slice.
pub fn str_chars(s: &str) -> (r: Vec<char>)
    ensures
        r@ == s@,
{
    broadcast use vstd::string::group_string_axioms;

    let mut it = s.chars();
    let mut res: Vec<char> = Vec::new();
    loop
        invariant
            res@ + it.remaining() == s@,
            it.decrease() is Some,
        ensures
            res@ == s@,
        decreases it.decrease()->0,
    {
        match it.next() {
            Some(c) => {
                res.push(c);
            },
            None => {
                break ;
            },
        }
    }
    assert(res@ == s@);
    res
}

/// Appends a character to a string (`String::push`).
#[verifier::external_body]
pub fn push_char(s: &mut String, c: char)
    ensures
        final(s)@ == old(s)@.push(c),
{
    s.push(c);
}

/// A string holding the given characters.
pub fn string_from_chars(chars: &[char]) -> (r: String)
    ensures
        r@ == chars@,
{
    let mut res = String::new();
    let mut i: usize = 0;
    while i < chars.len()
        invariant
            i <= chars@.len(),
            res@ == chars@.subrange(0, i as int),
        decreases chars@.len() - i,
    {
        push_char(&mut res, chars[i]);
        i = i + 1;
        assert(res@ == chars@.subrange(0, i as int));
    }
    res
}

/// The decimal digits of a number.
pub open spec fn decimal(n: nat) -> Seq<char>
    decreases n,
{
    if n < 10 {
        seq![((n + 48) as char)]
    } else {
        decimal(n / 10).push(((n % 10) + 48) as char)
    }
}

/// Appends the decimal representation of `n` to `out`.
pub fn push_decimal(out: &mut Vec<char>, n: usize)
    ensures
        final(out)@ == old(out)@ + decimal(n as nat),
    decreases n,
{
    if n >= 10 {
        push_decimal(out, n / 10);
    }
    out.push(((n % 10) as u8 + 48) as char);
    proof {
        if n >= 10 {
            assert(old(out)@ + decimal(n as nat) == old(out)@ + decimal((n / 10) as nat) + seq![
                (((n % 10) + 48) as char),
            ]);
        }
    }
}

/// Value of a sequence of decimal digits.
pub open spec fn digits_value(s: Seq<char>) -> nat
    decreases s.len(),
{
    if s.len() == 0 {
        0
    } else {
        digits_value(s.drop_last()) * 10 + (s.last() as nat - 48) as nat
    }
}

/// All characters are decimal digits.
pub open spec fn all_digits(s: Seq<char>) -> bool {
    forall|i: int| 0 <= i < s.len() ==> '0' <= #[trigger] s[i] <= '9'
}

/// Parses a nonempty sequence of decimal digits; `None` if it contains anything else
/// or the value does not fit into a `usize`.
pub fn parse_usize(s: &[char]) -> (r: Option<usize>)
    ensures
        r.is_some() <==> (s@.len() > 0 && all_digits(s@) && digits_value(s@) <= usize::MAX),
        r.is_some() ==> r.unwrap() == digits_value(s@),
{
    if s.len() == 0 {
        return None;
    }
    let mut res: usize = 0;
    let mut i: usize = 0;
    while i < s.len()
        invariant
            i <= s@.len(),
            all_digits(s@.subrange(0, i as int)),
            res == digits_value(s@.subrange(0, i as int)),
        decreases s@.len() - i,
    {
        let c = s[i];
        assert(s@.subrange(0, i + 1).drop_last() == s@.subrange(0, i as int));
        if c < '0' || c > '9' {
            return None;
        }
        let d = (c as u32 - 48) as usize;
        if res > (usize::MAX - d) / 10 {
            proof {
                assert(res * 10 + d > usize::MAX) by (nonlinear_arith)
                    requires
                        res > (usize::MAX - d) / 10,
                        d <= 9,
                ;
                if all_digits(s@) {
                    lemma_digits_value_prefix_bound(s@, (i + 1) as int);
                }
            }
            return None;
        }
        res = res * 10 + d;
        i = i + 1;
    }
    assert(s@.subrange(0, s@.len() as int) == s@);
    Some(res)
}

proof fn lemma_digits_value_prefix_bound(s: Seq<char>, k: int)
    requires
        0 <= k <= s.len(),
        all_digits(s),
    ensures
        digits_value(s.subrange(0, k)) <= digits_value(s),
    decreases s.len() - k,
{
    if k < s.len() {
        lemma_digits_value_prefix_bound(s, k + 1);
        assert(s.subrange(0, k + 1).drop_last() == s.subrange(0, k));
    } else {
        assert(s.subrange(0, k) == s);
    }
}

/// Whether a character is ASCII whitespace (space, tab, line feed, vertical tab, form feed or
/// carriage return).
pub open spec fn is_space(c: char) -> bool {
    c == ' ' || c == '\t' || c == '\n' || c == '\u{0B}' || c == '\u{0C}' || c == '\r'
}

/// Whether a character is ASCII whitespace.
pub fn is_whitespace(c: char) -> (r: bool)
    ensures
        r == is_space(c),
{
    c == ' ' || c == '\t' || c == '\n' || c == '\u{0B}' || c == '\u{0C}' || c == '\r'
}

/// Splitting `s` from index `i` on into words, with the current word `cur` and the words `acc`
/// found before.
pub open spec fn spec_split(s: Seq<char>, i: int, cur: Seq<char>, acc: Seq<Seq<char>>) -> Seq<Seq<char>>
    decreases s.len() - i,
{
    if i >= s.len() || i < 0 {
        if cur.len() > 0 {
            acc.push(cur)
        } else {
            acc
        }
    } else if is_space(s[i]) {
        spec_split(
            s,
            i + 1,
            Seq::empty(),
            if cur.len() > 0 {
                acc.push(cur)
            } else {
                acc
            },
        )
    } else {
        spec_split(s, i + 1, cur.push(s[i]), acc)
    }
}

/// The contents of some character vectors.
pub open spec fn spec_views(ws: Seq<Vec<char>>) -> Seq<Seq<char>> {
    ws.map_values(|w: Vec<char>| w@)
}

/// The words of `s`: its maximal runs of characters other than whitespace.
pub open spec fn spec_words(s: Seq<char>) -> Seq<Seq<char>> {
    spec_split(s, 0, Seq::empty(), Seq::empty())
}

/// Splits text into the words separated by whitespace.
pub fn split_words(s: &[char]) -> (r: Vec<Vec<char>>)
    ensures
        spec_views(r@) == spec_words(s@),
        forall|i: int|
            0 <= i < r@.len() ==> #[trigger] r@[i]@.len() > 0 && forall|j: int|
                0 <= j < r@[i]@.len() ==> !is_space(#[trigger] r@[i]@[j]),
{
    let mut res: Vec<Vec<char>> = Vec::new();
    let mut cur: Vec<char> = Vec::new();
    let mut i: usize = 0;
    assert(spec_views(res@) =~= Seq::<Seq<char>>::empty());
    while i < s.len()
        invariant
            i <= s@.len(),
            spec_words(s@) == spec_split(s@, i as int, cur@, spec_views(res@)),
            forall|j: int| 0 <= j < cur@.len() ==> !is_space(#[trigger] cur@[j]),
            forall|k: int|
                0 <= k < res@.len() ==> #[trigger] res@[k]@.len() > 0 && forall|j: int|
                    0 <= j < res@[k]@.len() ==> !is_space(#[trigger] res@[k]@[j]),
        decreases s@.len() - i,
    {
        let c = s[i];
        let ghost old_res = spec_views(res@);
        let ghost old_cur = cur@;
        assert(c == s@[i as int]);
        if is_whitespace(c) {
            assert(is_space(s@[i as int]));
            if cur.len() > 0 {
                let ghost w = cur@;
                res.push(cur);
                assert(spec_views(res@) =~= old_res.push(w));
                cur = Vec::new();
            }
            assert(cur@ =~= Seq::<char>::empty());
            assert(spec_split(s@, i as int, old_cur, old_res) == spec_split(s@, i + 1, cur@, spec_views(res@)));
        } else {
            cur.push(c);
            assert(!is_space(s@[i as int]));
            assert(spec_split(s@, i as int, old_cur, old_res) == spec_split(s@, i + 1, old_cur.push(s@[i as int]), old_res));
            assert(cur@ == old_cur.push(s@[i as int]));
        }
        i = i + 1;
    }
    if cur.len() > 0 {
        let ghost old_res = spec_views(res@);
        let ghost w = cur@;
        res.push(cur);
        assert(spec_views(res@) =~= old_res.push(w));
    }
    res
}

/// Whether two character sequences are equal.
pub fn chars_eq(a: &[char], b: &[char]) -> (r: bool)
    ensures
        r == (a@ == b@),
{
    if a.len() != b.len() {
        return false;
    }
    let mut i: usize = 0;
    while i < a.len()
        invariant
            a@.len() == b@.len(),
            i <= a@.len(),
            forall|j: int| 0 <= j < i ==> a@[j] == b@[j],
        decreases a@.len() - i,
    {
        if a[i] != b[i] {
            return false;
        }
        i = i + 1;
    }
    assert(a@ == b@);
    true
}

/// The rest of `s` after `prefix`, if `s` starts with `prefix`.
pub fn strip_prefix(s: &[char], prefix: &str) -> (r: Option<Vec<char>>)
    ensures
        r.is_some() <==> (prefix@.len() <= s@.len() && s@.subrange(0, prefix@.len() as int)
            == prefix@),
        r.is_some() ==> r.unwrap()@ == s@.subrange(prefix@.len() as int, s@.len() as int),
{
    let p = str_chars(prefix);
    if p.len() > s.len() {
        return None;
    }
    let mut i: usize = 0;
    while i < p.len()
        invariant
            p@ == prefix@,
            p@.len() <= s@.len(),
            i <= p@.len(),
            forall|j: int| 0 <= j < i ==> s@[j] == p@[j],
        decreases p@.len() - i,
    {
        if s[i] != p[i] {
            assert(s@.subrange(0, p@.len() as int)[i as int] != p@[i as int]);
            return None;
        }
        i = i + 1;
    }
    assert(s@.subrange(0, p@.len() as int) =~= p@);
    let mut rest: Vec<char> = Vec::new();
    let mut k: usize = p.len();
    while k < s.len()
        invariant
            p@.len() <= k <= s@.len(),
            rest@ == s@.subrange(p@.len() as int, k as int),
        decreases s@.len() - k,
    {
        rest.push(s[k]);
        k = k + 1;
        assert(rest@ =~= s@.subrange(p@.len() as int, k as int));
    }
    Some(rest)
}

} // verus!
