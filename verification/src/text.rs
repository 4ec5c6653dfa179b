//! Reading text as characters: finding a pattern, splitting at white space
//! and reading decimal numbers, as the standard library does for `str`.

use vstd::prelude::*;
use vstd::std_specs::iter::IteratorSpec;

verus! {

broadcast use vstd::string::axiom_spec_iter, vstd::string::next_postcondition;

/// The characters of `s`, in order.
pub fn chars_of(s: &str) -> (v: Vec<char>)
    ensures
        v@ == s@,
{
    let mut v: Vec<char> = Vec::new();
    for c in iter: s.chars()
        invariant
            v@ == iter.seq().take(iter.index()),
    {
        v.push(c);
    }
    assert(v@ =~= s@);
    v
}

/// Whether `pat` occurs in `s` at index `p`.
pub open spec fn matches_at(s: Seq<char>, pat: Seq<char>, p: int) -> bool {
    0 <= p && p + pat.len() <= s.len() && s.subrange(p, p + pat.len()) == pat
}

/// The first index at or after `p` where `pat` occurs in `s`, if any.
pub open spec fn find_from(s: Seq<char>, pat: Seq<char>, p: int) -> Option<int>
    decreases s.len() + 1 - p,
{
    if p < 0 || p + pat.len() > s.len() {
        None
    } else if matches_at(s, pat, p) {
        Some(p)
    } else {
        find_from(s, pat, p + 1)
    }
}

/// The first index where `pat` occurs in `s`, if any.
pub fn find(s: &Vec<char>, pat: &Vec<char>) -> (r: Option<usize>)
    ensures
        r matches Some(p) ==> find_from(s@, pat@, 0) == Some(p as int),
        r matches Some(p) ==> matches_at(s@, pat@, p as int),
        r matches Some(p) ==> forall|q: int| 0 <= q < p ==> !matches_at(s@, pat@, q),
        r is None ==> find_from(s@, pat@, 0) is None,
        r is None ==> forall|q: int| !matches_at(s@, pat@, q),
{
    let n = s.len();
    let m = pat.len();
    if m > n {
        return None;
    }
    let mut p: usize = 0;
    while p <= n - m
        invariant
            n == s@.len(),
            m == pat@.len(),
            m <= n,
            p <= n - m + 1,
            find_from(s@, pat@, 0) == find_from(s@, pat@, p as int),
            forall|q: int| 0 <= q < p ==> !matches_at(s@, pat@, q),
        decreases n - p,
    {
        let mut j: usize = 0;
        let mut same = true;
        while j < m
            invariant
                j <= m,
                p + m <= n,
                n == s@.len(),
                m == pat@.len(),
                same == (forall|k: int| 0 <= k < j ==> s@[p + k] == pat@[k]),
            decreases m - j,
        {
            if s[p + j] != pat[j] {
                same = false;
            }
            j = j + 1;
        }
        if same {
            assert(s@.subrange(p as int, p + m) =~= pat@);
            return Some(p);
        }
        assert(!matches_at(s@, pat@, p as int)) by {
            if s@.subrange(p as int, p + m) == pat@ {
                assert forall|k: int| 0 <= k < m implies s@[p + k] == pat@[k] by {
                    assert(s@.subrange(p as int, p + m)[k] == s@[p + k]);
                }
            }
        }
        p = p + 1;
    }
    None
}

/// The characters that `char::is_whitespace` accepts: Unicode's
/// `White_Space` property.
pub open spec fn is_white_space(c: char) -> bool {
    let u = c as u32;
    ||| 9 <= u <= 13
    ||| u == 32
    ||| u == 0x85
    ||| u == 0xA0
    ||| u == 0x1680
    ||| 0x2000 <= u <= 0x200A
    ||| u == 0x2028
    ||| u == 0x2029
    ||| u == 0x202F
    ||| u == 0x205F
    ||| u == 0x3000
}

/// Whether `c` is white space.
pub fn white_space(c: char) -> (r: bool)
    ensures
        r == is_white_space(c),
{
    let u = c as u32;
    (9 <= u && u <= 13) || u == 32 || u == 0x85 || u == 0xA0 || u == 0x1680 || (0x2000 <= u && u
        <= 0x200A) || u == 0x2028 || u == 0x2029 || u == 0x202F || u == 0x205F || u == 0x3000
}

/// The end of the run of non-white characters that starts at `i`.
pub open spec fn word_end(s: Seq<char>, i: int) -> int
    decreases s.len() - i,
{
    if i < 0 || i >= s.len() || is_white_space(s[i]) {
        i
    } else {
        word_end(s, i + 1)
    }
}

/// A word runs from its first character to the next white space or the end.
pub proof fn lemma_word_end(s: Seq<char>, i: int)
    requires
        0 <= i <= s.len(),
    ensures
        i <= word_end(s, i) <= s.len(),
        i < s.len() && !is_white_space(s[i]) ==> i < word_end(s, i),
        forall|k: int| i <= k < word_end(s, i) ==> !is_white_space(s[k]),
        word_end(s, i) < s.len() ==> is_white_space(s[word_end(s, i)]),
    decreases s.len() - i,
{
    if i < s.len() && !is_white_space(s[i]) {
        lemma_word_end(s, i + 1);
    }
}

/// The words of `s` from index `i` on: the maximal runs of non-white
/// characters, as `str::split_whitespace` yields them.
pub open spec fn words_from(s: Seq<char>, i: int) -> Seq<Seq<char>>
    decreases s.len() - i,
{
    if i < 0 || i >= s.len() {
        Seq::empty()
    } else if is_white_space(s[i]) {
        words_from(s, i + 1)
    } else {
        let j = word_end(s, i);
        proof {
            lemma_word_end(s, i);
        }
        seq![s.subrange(i, j)] + words_from(s, j)
    }
}

/// The words of `s`.
pub open spec fn words(s: Seq<char>) -> Seq<Seq<char>> {
    words_from(s, 0)
}

/// The `k`-th word of `s`, numbered from 0, if there are that many.
pub open spec fn nth_word(s: Seq<char>, k: int) -> Option<Seq<char>> {
    if 0 <= k < words(s).len() {
        Some(words(s)[k])
    } else {
        None
    }
}

/// The `k`-th word of `s`.
pub fn word_at(s: &Vec<char>, k: usize) -> (r: Option<Vec<char>>)
    ensures
        r matches Some(w) ==> nth_word(s@, k as int) == Some(w@),
        r is None ==> nth_word(s@, k as int) is None,
{
    let n = s.len();
    let mut i: usize = 0;
    let mut left: usize = k;
    loop
        invariant
            n == s@.len(),
            i <= n,
            left <= k,
            i == 0 || i == n || is_white_space(s@[i - 1]) || is_white_space(s@[i as int]),
            words(s@).len() >= k - left,
            words(s@).subrange(k - left, words(s@).len() as int) == words_from(s@, i as int),
        decreases n - i, left,
    {
        let ghost i0 = i;
        // skip white space
        while i < n && white_space(s[i])
            invariant
                i0 <= i <= n,
                n == s@.len(),
                words_from(s@, i0 as int) == words_from(s@, i as int),
            decreases n - i,
        {
            i = i + 1;
        }
        if i >= n {
            return None;
        }
        let start = i;
        let mut j: usize = i;
        proof {
            lemma_word_end(s@, start as int);
        }
        while j < n && !white_space(s[j])
            invariant
                start <= j <= n,
                n == s@.len(),
                word_end(s@, start as int) == word_end(s@, j as int),
            decreases n - j,
        {
            j = j + 1;
        }
        proof {
            lemma_word_end(s@, j as int);
            assert(words_from(s@, start as int) == seq![s@.subrange(start as int, j as int)]
                + words_from(s@, j as int));
        }
        if left == 0 {
            let mut w: Vec<char> = Vec::new();
            let mut q: usize = start;
            while q < j
                invariant
                    start <= q <= j <= n,
                    n == s@.len(),
                    w@ == s@.subrange(start as int, q as int),
                decreases j - q,
            {
                w.push(s[q]);
                q = q + 1;
                assert(w@ =~= s@.subrange(start as int, q as int));
            }
            proof {
                let ws = words(s@);
                assert(ws.subrange(k as int, ws.len() as int)[0] == ws[k as int]);
            }
            return Some(w);
        }
        proof {
            let ws = words(s@);
            assert(ws.subrange(k - left + 1, ws.len() as int) =~= ws.subrange(
                k - left,
                ws.len() as int,
            ).drop_first());
        }
        left = left - 1;
        i = j;
    }
}

/// Whether `c` is an ASCII decimal digit.
pub open spec fn is_digit(c: char) -> bool {
    '0' <= c <= '9'
}

/// Whether every character of `d` is a decimal digit.
pub open spec fn all_digits(d: Seq<char>) -> bool {
    forall|i: int| 0 <= i < d.len() ==> is_digit(#[trigger] d[i])
}

/// The number a sequence of decimal digits stands for.
pub open spec fn digits_value(d: Seq<char>) -> int
    decreases d.len(),
{
    if d.len() == 0 {
        0
    } else {
        digits_value(d.drop_last()) * 10 + ((d.last() as u32) - 48)
    }
}

/// The digits of a number's text: all of it, or all but a leading `+`.
pub open spec fn unsigned_digits(t: Seq<char>) -> Seq<char> {
    if t.len() > 0 && t[0] == '+' {
        t.drop_first()
    } else {
        t
    }
}

/// What `str::parse::<u64>` gives back: the number, when the text is an
/// optional `+` and at least one decimal digit and the number fits a `u64`.
pub open spec fn parse_u64_spec(t: Seq<char>) -> Option<u64> {
    let d = unsigned_digits(t);
    if d.len() == 0 || !all_digits(d) || digits_value(d) > u64::MAX {
        None
    } else {
        Some(digits_value(d) as u64)
    }
}

/// A longer run of digits stands for a number at least as large.
proof fn lemma_digits_value_grows(d: Seq<char>, k: int)
    requires
        0 <= k <= d.len(),
        forall|i: int| 0 <= i < d.len() ==> is_digit(#[trigger] d[i]),
    ensures
        0 <= digits_value(d.take(k)) <= digits_value(d),
    decreases d.len() - k,
{
    if k < d.len() {
        lemma_digits_value_grows(d, k + 1);
        assert(d.take(k + 1).drop_last() =~= d.take(k));
    } else {
        assert(d.take(k) =~= d);
        lemma_digits_value_nonneg(d);
    }
}

proof fn lemma_digits_value_nonneg(d: Seq<char>)
    requires
        forall|i: int| 0 <= i < d.len() ==> is_digit(#[trigger] d[i]),
    ensures
        digits_value(d) >= 0,
    decreases d.len(),
{
    if d.len() > 0 {
        lemma_digits_value_nonneg(d.drop_last());
    }
}

/// Digits whose prefix is already too large for a `u64` are no `u64`.
proof fn lemma_overflow_rejected(d: Seq<char>, j: int)
    requires
        0 < j <= d.len(),
        d.len() > 0,
        digits_value(d.take(j)) > u64::MAX,
    ensures
        !all_digits(d) || digits_value(d) > u64::MAX,
{
    if all_digits(d) {
        lemma_digits_value_grows(d, j);
    }
}

/// Parse a decimal `u64` as `str::parse` does.
pub fn parse_u64(t: &Vec<char>) -> (r: Option<u64>)
    ensures
        r == parse_u64_spec(t@),
{
    let n = t.len();
    let mut start: usize = 0;
    if n > 0 && t[0] == '+' {
        start = 1;
    }
    let ghost d = unsigned_digits(t@);
    assert(d =~= t@.subrange(start as int, n as int));
    if start >= n {
        return None;
    }
    let mut acc: u64 = 0;
    let mut i: usize = start;
    while i < n
        invariant
            start <= i <= n,
            n == t@.len(),
            d == t@.subrange(start as int, n as int),
            d == unsigned_digits(t@),
            forall|k: int| 0 <= k < i - start ==> is_digit(#[trigger] d[k]),
            acc == digits_value(d.take(i - start)),
        decreases n - i,
    {
        let c = t[i];
        if !('0' <= c && c <= '9') {
            assert(!is_digit(d[i - start]));
            return None;
        }
        let digit = (c as u32 - 48) as u64;
        assert(d.take(i - start + 1).drop_last() =~= d.take(i - start));
        assert(d.take(i - start + 1).last() == c);
        match acc.checked_mul(10) {
            Some(a) => match a.checked_add(digit) {
                Some(b) => {
                    acc = b;
                },
                None => {
                    proof {
                        lemma_overflow_rejected(d, (i - start + 1) as int);
                    }
                    return None;
                },
            },
            None => {
                proof {
                    lemma_overflow_rejected(d, (i - start + 1) as int);
                }
                return None;
            },
        }
        i = i + 1;
    }
    assert(d.take(n - start) =~= d);
    Some(acc)
}

} // verus!
