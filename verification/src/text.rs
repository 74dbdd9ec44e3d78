//! Character-level text handling shared by the parsers: whitespace as Unicode
//! defines it, trimming, and splitting into tokens.

use vstd::prelude::*;

use crate::support::string_push;

verus! {

/// The characters of `s`.
pub fn to_chars(s: &str) -> (r: Vec<char>)
    ensures
        r@ == s@,
{
    let mut v: Vec<char> = Vec::new();
    for c in it: s.chars()
        invariant
            v@ == it.seq().take(it.index() as int),
    {
        v.push(c);
    }
    v
}

/// Whether `c` has the Unicode `White_Space` property.
pub open spec fn is_ws(c: char) -> bool {
    ||| '\u{9}' <= c <= '\u{d}'
    ||| c == ' '
    ||| c == '\u{85}'
    ||| c == '\u{a0}'
    ||| c == '\u{1680}'
    ||| '\u{2000}' <= c <= '\u{200a}'
    ||| c == '\u{2028}'
    ||| c == '\u{2029}'
    ||| c == '\u{202f}'
    ||| c == '\u{205f}'
    ||| c == '\u{3000}'
}

/// Whether `c` is whitespace, as `char::is_whitespace` decides it.
pub fn whitespace(c: char) -> (r: bool)
    ensures
        r == is_ws(c),
{
    ('\u{9}' <= c && c <= '\u{d}') || c == ' ' || c == '\u{85}' || c == '\u{a0}' || c == '\u{1680}' || (
    '\u{2000}' <= c && c <= '\u{200a}') || c == '\u{2028}' || c == '\u{2029}' || c == '\u{202f}' || c
        == '\u{205f}' || c == '\u{3000}'
}

/// `s` without its leading whitespace.
pub open spec fn trim_start(s: Seq<char>) -> Seq<char>
    decreases s.len(),
{
    if s.len() > 0 && is_ws(s[0]) {
        trim_start(s.drop_first())
    } else {
        s
    }
}

/// `s` without its trailing whitespace.
pub open spec fn trim_end(s: Seq<char>) -> Seq<char>
    decreases s.len(),
{
    if s.len() > 0 && is_ws(s.last()) {
        trim_end(s.drop_last())
    } else {
        s
    }
}

/// `s` without leading or trailing whitespace.
pub open spec fn trim(s: Seq<char>) -> Seq<char> {
    trim_end(trim_start(s))
}

/// Whether `s` holds nothing but whitespace (or nothing).
pub open spec fn ws_only(s: Seq<char>) -> bool {
    forall|i: int| 0 <= i < s.len() ==> is_ws(#[trigger] s[i])
}

/// Narrows `[lo, hi)` past the leading whitespace of `v`'s characters there.
pub fn skip_ws(v: &[char], lo: usize, hi: usize) -> (r: usize)
    requires
        lo <= hi <= v@.len(),
    ensures
        lo <= r <= hi,
        v@.subrange(r as int, hi as int) == trim_start(v@.subrange(lo as int, hi as int)),
        forall|i: int| lo <= i < r ==> is_ws(#[trigger] v@[i]),
{
    let mut k = lo;
    while k < hi && whitespace(v[k])
        invariant
            lo <= k <= hi <= v@.len(),
            trim_start(v@.subrange(lo as int, hi as int)) == trim_start(v@.subrange(k as int, hi as int)),
            forall|i: int| lo <= i < k ==> is_ws(#[trigger] v@[i]),
        decreases hi - k,
    {
        assert(v@.subrange(k as int, hi as int).drop_first() =~= v@.subrange(k + 1, hi as int));
        k = k + 1;
    }
    k
}

/// Narrows `[lo, hi)` before the trailing whitespace of `v`'s characters there.
pub fn skip_ws_back(v: &[char], lo: usize, hi: usize) -> (r: usize)
    requires
        lo <= hi <= v@.len(),
    ensures
        lo <= r <= hi,
        v@.subrange(lo as int, r as int) == trim_end(v@.subrange(lo as int, hi as int)),
{
    let mut k = hi;
    while k > lo && whitespace(v[k - 1])
        invariant
            lo <= k <= hi <= v@.len(),
            trim_end(v@.subrange(lo as int, hi as int)) == trim_end(v@.subrange(lo as int, k as int)),
        decreases k - lo,
    {
        assert(v@.subrange(lo as int, k as int).drop_last() =~= v@.subrange(lo as int, k - 1));
        k = k - 1;
    }
    k
}

/// The range of `v`'s characters in `[lo, hi)` without surrounding whitespace.
pub fn trim_range(v: &[char], lo: usize, hi: usize) -> (r: (usize, usize))
    requires
        lo <= hi <= v@.len(),
    ensures
        lo <= r.0 <= r.1 <= hi,
        v@.subrange(r.0 as int, r.1 as int) == trim(v@.subrange(lo as int, hi as int)),
{
    let a = skip_ws(v, lo, hi);
    let b = skip_ws_back(v, a, hi);
    (a, b)
}

/// Whether `v`'s characters in `[lo, hi)` are all whitespace.
pub fn is_ws_only(v: &[char], lo: usize, hi: usize) -> (r: bool)
    requires
        lo <= hi <= v@.len(),
    ensures
        r == ws_only(v@.subrange(lo as int, hi as int)),
{
    let mut k = lo;
    while k < hi
        invariant
            lo <= k <= hi <= v@.len(),
            forall|i: int| lo <= i < k ==> is_ws(#[trigger] v@[i]),
        decreases hi - k,
    {
        if !whitespace(v[k]) {
            assert(!is_ws(v@.subrange(lo as int, hi as int)[k - lo]));
            return false;
        }
        k = k + 1;
    }
    assert forall|i: int| 0 <= i < hi - lo implies is_ws(#[trigger] v@.subrange(lo as int, hi as int)[i]) by {
        assert(v@.subrange(lo as int, hi as int)[i] == v@[lo + i]);
    }
    true
}

/// The length of the run of non-whitespace characters that opens `s`.
pub open spec fn word_len(s: Seq<char>) -> nat
    decreases s.len(),
{
    if s.len() == 0 || is_ws(s[0]) {
        0
    } else {
        1 + word_len(s.drop_first())
    }
}

/// The maximal runs of non-whitespace characters in `s`, in order.
pub open spec fn tokens(s: Seq<char>) -> Seq<Seq<char>>
    decreases s.len(),
{
    if s.len() == 0 {
        Seq::empty()
    } else if is_ws(s[0]) {
        tokens(s.drop_first())
    } else {
        let n = word_len(s);
        proof {
            lemma_word_len_bound(s);
        }
        seq![s.take(n as int)] + tokens(s.skip(n as int))
    }
}

pub proof fn lemma_word_len_bound(s: Seq<char>)
    ensures
        word_len(s) <= s.len(),
    decreases s.len(),
{
    if s.len() > 0 && !is_ws(s[0]) {
        lemma_word_len_bound(s.drop_first());
    }
}

/// Finds the end of the run of non-whitespace characters starting at `lo`.
fn word_end(v: &[char], lo: usize, hi: usize) -> (r: usize)
    requires
        lo <= hi <= v@.len(),
    ensures
        lo <= r <= hi,
        r - lo == word_len(v@.subrange(lo as int, hi as int)),
{
    let mut k = lo;
    while k < hi && !whitespace(v[k])
        invariant
            lo <= k <= hi <= v@.len(),
            word_len(v@.subrange(lo as int, hi as int)) == (k - lo) + word_len(v@.subrange(k as int, hi as int)),
        decreases hi - k,
    {
        assert(v@.subrange(k as int, hi as int).drop_first() =~= v@.subrange(k + 1, hi as int));
        k = k + 1;
    }
    k
}

/// The tokens of `v`'s characters in `[lo, hi)`, as ranges of `v`.
pub fn token_ranges(v: &[char], lo: usize, hi: usize) -> (r: Vec<(usize, usize)>)
    requires
        lo <= hi <= v@.len(),
    ensures
        r@.len() == tokens(v@.subrange(lo as int, hi as int)).len(),
        forall|j: int|
            0 <= j < r@.len() ==> {
                let t = #[trigger] r@[j];
                lo <= t.0 <= t.1 <= hi && v@.subrange(t.0 as int, t.1 as int) == tokens(
                    v@.subrange(lo as int, hi as int),
                )[j]
            },
{
    let ghost all = tokens(v@.subrange(lo as int, hi as int));
    let mut out: Vec<(usize, usize)> = Vec::new();
    let mut k = lo;
    while k < hi
        invariant
            lo <= k <= hi <= v@.len(),
            all == tokens(v@.subrange(lo as int, hi as int)),
            all == out@.map_values(|t: (usize, usize)| v@.subrange(t.0 as int, t.1 as int)) + tokens(
                v@.subrange(k as int, hi as int),
            ),
            forall|j: int| 0 <= j < out@.len() ==> lo <= (#[trigger] out@[j]).0 <= out@[j].1 <= k,
        decreases hi - k,
    {
        let ghost rest = v@.subrange(k as int, hi as int);
        let ghost before = out@.map_values(|t: (usize, usize)| v@.subrange(t.0 as int, t.1 as int));
        if whitespace(v[k]) {
            assert(rest.drop_first() =~= v@.subrange(k + 1, hi as int));
            k = k + 1;
        } else {
            let e = word_end(v, k, hi);
            proof {
                lemma_word_len_bound(rest);
                assert(rest.take(word_len(rest) as int) =~= v@.subrange(k as int, e as int));
                assert(rest.skip(word_len(rest) as int) =~= v@.subrange(e as int, hi as int));
            }
            out.push((k, e));
            assert(out@.map_values(|t: (usize, usize)| v@.subrange(t.0 as int, t.1 as int)) =~= before.push(
                v@.subrange(k as int, e as int),
            ));
            k = e;
        }
    }
    assert(v@.subrange(k as int, hi as int).len() == 0);
    assert(all =~= out@.map_values(|t: (usize, usize)| v@.subrange(t.0 as int, t.1 as int)));
    out
}

/// `c` with ASCII capitals made small.
pub open spec fn ascii_lower(c: char) -> char {
    if 'A' <= c <= 'Z' {
        ((c as u8) + 32) as char
    } else {
        c
    }
}

/// Whether `a` and `b` are equal when ASCII letters are compared without case.
pub open spec fn eq_ignore_ascii_case(a: Seq<char>, b: Seq<char>) -> bool {
    a.len() == b.len() && forall|i: int| 0 <= i < a.len() ==> ascii_lower(#[trigger] a[i]) == ascii_lower(b[i])
}

fn lower(c: char) -> (r: char)
    ensures
        r == ascii_lower(c),
{
    if 'A' <= c && c <= 'Z' {
        ((c as u8) + 32) as char
    } else {
        c
    }
}

/// Whether `v`'s characters in `[lo, hi)` equal `word` without regard to ASCII case.
pub fn range_eq_ic(v: &[char], lo: usize, hi: usize, word: &str) -> (r: bool)
    requires
        lo <= hi <= v@.len(),
    ensures
        r == eq_ignore_ascii_case(v@.subrange(lo as int, hi as int), word@),
{
    let w = to_chars(word);
    if hi - lo != w.len() {
        return false;
    }
    let mut k: usize = 0;
    while k < w.len()
        invariant
            lo <= hi <= v@.len(),
            hi - lo == w@.len(),
            w@ == word@,
            k <= w@.len(),
            forall|i: int| 0 <= i < k ==> ascii_lower(#[trigger] v@[lo + i]) == ascii_lower(w@[i]),
        decreases w@.len() - k,
    {
        if lower(v[lo + k]) != lower(w[k]) {
            assert(v@.subrange(lo as int, hi as int)[k as int] == v@[lo + k]);
            return false;
        }
        k = k + 1;
    }
    assert forall|i: int| 0 <= i < w@.len() implies ascii_lower(#[trigger] v@.subrange(lo as int, hi as int)[i])
        == ascii_lower(word@[i]) by {
        assert(v@.subrange(lo as int, hi as int)[i] == v@[lo + i]);
    }
    true
}

/// The characters of `v` in `[lo, hi)`, as a string.
pub fn range_string(v: &[char], lo: usize, hi: usize) -> (r: String)
    requires
        lo <= hi <= v@.len(),
    ensures
        r@ == v@.subrange(lo as int, hi as int),
{
    let mut s = String::new();
    let mut k = lo;
    while k < hi
        invariant
            lo <= k <= hi <= v@.len(),
            s@ == v@.subrange(lo as int, k as int),
        decreases hi - k,
    {
        string_push(&mut s, v[k]);
        assert(v@.subrange(lo as int, k + 1) =~= v@.subrange(lo as int, k as int).push(v@[k as int]));
        k = k + 1;
    }
    s
}

/// The position of the first `c` in `s`, if any.
pub open spec fn first_index(s: Seq<char>, c: char) -> Option<int>
    decreases s.len(),
{
    if s.len() == 0 {
        None
    } else if s[0] == c {
        Some(0)
    } else {
        match first_index(s.drop_first(), c) {
            Some(i) => Some(i + 1),
            None => None,
        }
    }
}

/// `o` moved on by `d`.
pub open spec fn shift(o: Option<int>, d: int) -> Option<int> {
    match o {
        Some(i) => Some(i + d),
        None => None,
    }
}

/// Finds the first `c` among `v`'s characters in `[lo, hi)`; `hi` if there is none.
pub fn find_char(v: &[char], lo: usize, hi: usize, c: char) -> (r: usize)
    requires
        lo <= hi <= v@.len(),
    ensures
        lo <= r <= hi,
        r < hi ==> first_index(v@.subrange(lo as int, hi as int), c) == Some(r - lo),
        r == hi ==> first_index(v@.subrange(lo as int, hi as int), c) is None,
{
    let mut k = lo;
    while k < hi && v[k] != c
        invariant
            lo <= k <= hi <= v@.len(),
            first_index(v@.subrange(lo as int, hi as int), c) == shift(
                first_index(v@.subrange(k as int, hi as int), c),
                k - lo,
            ),
        decreases hi - k,
    {
        assert(v@.subrange(k as int, hi as int).drop_first() =~= v@.subrange(k + 1, hi as int));
        k = k + 1;
    }
    k
}

/// Whether `a` equals `b` without regard to ASCII case.
pub fn str_eq_ic(a: &str, b: &str) -> (r: bool)
    ensures
        r == eq_ignore_ascii_case(a@, b@),
{
    let v = to_chars(a);
    assert(v@.subrange(0, v@.len() as int) =~= v@);
    range_eq_ic(v.as_slice(), 0, v.len(), b)
}

} // verus!
