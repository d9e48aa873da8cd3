//! Character-level text toolkit: whitespace trimming, line splitting,
//! word splitting, decimal parsing and printing, each with its model over
//! `Seq<char>`.
use vstd::prelude::*;

verus! {

// ---------------------------------------------------------------------
// Character classes
// ---------------------------------------------------------------------

/// The Unicode `White_Space` property, as `char::is_whitespace` reads it.
pub open spec fn is_ws(c: char) -> bool {
    let n = c as u32;
    ||| 0x9 <= n <= 0xd
    ||| n == 0x20
    ||| n == 0x85
    ||| n == 0xa0
    ||| n == 0x1680
    ||| 0x2000 <= n <= 0x200a
    ||| n == 0x2028
    ||| n == 0x2029
    ||| n == 0x202f
    ||| n == 0x205f
    ||| n == 0x3000
}

/// ASCII whitespace as `u8::is_ascii_whitespace` reads it (no vertical tab).
pub open spec fn is_ascii_ws(c: char) -> bool {
    c == ' ' || c == '\t' || c == '\n' || c == '\x0C' || c == '\r'
}

pub open spec fn is_digit(c: char) -> bool {
    '0' <= c && c <= '9'
}

pub open spec fn digit_value(c: char) -> int {
    (c as u32) - ('0' as u32)
}

pub fn exec_is_ws(c: char) -> (r: bool)
    ensures
        r == is_ws(c),
{
    let n = c as u32;
    (0x9 <= n && n <= 0xd) || n == 0x20 || n == 0x85 || n == 0xa0 || n == 0x1680 || (0x2000 <= n
        && n <= 0x200a) || n == 0x2028 || n == 0x2029 || n == 0x202f || n == 0x205f || n == 0x3000
}

pub fn exec_is_ascii_ws(c: char) -> (r: bool)
    ensures
        r == is_ascii_ws(c),
{
    c == ' ' || c == '\t' || c == '\n' || c == '\x0C' || c == '\r'
}

// ---------------------------------------------------------------------
// Building strings
// ---------------------------------------------------------------------

/// Appends one character to a string (`String::push`).
#[verifier::external_body]
pub(crate) fn push_char(s: &mut String, c: char)
    ensures
        final(s)@ == old(s)@.push(c),
{
    s.push(c);
}

/// The characters of `s`, in order.
pub fn chars_of(s: &str) -> (v: Vec<char>)
    ensures
        v@ == s@,
{
    let mut v: Vec<char> = Vec::new();
    for c in it: s.chars()
        invariant
            v@ == it.seq().take(it.index() as int),
            it.seq() == s@,
    {
        v.push(c);
    }
    v
}

/// The string made of `v[lo..hi]`.
pub fn string_of(v: &Vec<char>, lo: usize, hi: usize) -> (s: String)
    requires
        lo <= hi <= v.len(),
    ensures
        s@ == v@.subrange(lo as int, hi as int),
{
    let mut s = String::new();
    let mut i = lo;
    while i < hi
        invariant
            lo <= i <= hi <= v.len(),
            s@ == v@.subrange(lo as int, i as int),
        decreases hi - i,
    {
        push_char(&mut s, v[i]);
        proof {
            assert(v@.subrange(lo as int, i + 1) =~= v@.subrange(lo as int, i as int).push(v@[i as int]));
        }
        i += 1;
    }
    s
}

/// Appends the characters of `t` to `s`.
pub fn append_chars(s: &mut String, t: &Vec<char>)
    ensures
        final(s)@ == old(s)@ + t@,
{
    let mut i: usize = 0;
    while i < t.len()
        invariant
            i <= t.len(),
            s@ == old(s)@ + t@.take(i as int),
        decreases t.len() - i,
    {
        push_char(s, t[i]);
        proof {
            assert(t@.take(i + 1) =~= t@.take(i as int).push(t@[i as int]));
        }
        i += 1;
    }
    proof {
        assert(t@.take(t.len() as int) =~= t@);
    }
}

/// Appends a string slice to `s`.
pub fn append_str(s: &mut String, t: &str)
    ensures
        final(s)@ == old(s)@ + t@,
{
    let v = chars_of(t);
    append_chars(s, &v);
}

/// `a@ == b@` on two string slices.
pub fn str_eq(a: &str, b: &str) -> (r: bool)
    ensures
        r == (a@ == b@),
{
    let av = chars_of(a);
    let bv = chars_of(b);
    proof {
        assert(av@.subrange(0, av@.len() as int) =~= av@);
    }
    range_eq(&av, 0, av.len(), &bv)
}

/// Whether `v[lo..hi]` holds exactly the characters of `w`.
pub fn range_eq(v: &Vec<char>, lo: usize, hi: usize, w: &Vec<char>) -> (r: bool)
    requires
        lo <= hi <= v.len(),
    ensures
        r == (v@.subrange(lo as int, hi as int) == w@),
{
    if hi - lo != w.len() {
        return false;
    }
    let mut i: usize = 0;
    while i < w.len()
        invariant
            hi - lo == w.len(),
            lo <= hi <= v.len(),
            i <= w.len(),
            forall|j: int| 0 <= j < i ==> v@[lo + j] == w@[j],
        decreases w.len() - i,
    {
        if v[lo + i] != w[i] {
            assert(v@.subrange(lo as int, hi as int)[i as int] != w@[i as int]);
            return false;
        }
        i += 1;
    }
    assert(v@.subrange(lo as int, hi as int) =~= w@);
    true
}

/// Whether `v[lo..hi]` spells the string `lit`.
pub fn range_is(v: &Vec<char>, lo: usize, hi: usize, lit: &str) -> (r: bool)
    requires
        lo <= hi <= v.len(),
    ensures
        r == (v@.subrange(lo as int, hi as int) == lit@),
{
    let w = chars_of(lit);
    range_eq(v, lo, hi, &w)
}

/// Whether `v[lo..hi]` begins with the characters of `lit`.
pub fn range_starts_with(v: &Vec<char>, lo: usize, hi: usize, lit: &str) -> (r: bool)
    requires
        lo <= hi <= v.len(),
    ensures
        r == lit@.is_prefix_of(v@.subrange(lo as int, hi as int)),
{
    let w = chars_of(lit);
    if w.len() > hi - lo {
        return false;
    }
    let r = range_eq(v, lo, lo + w.len(), &w);
    proof {
        assert(v@.subrange(lo as int, hi as int).subrange(0, w@.len() as int) =~= v@.subrange(
            lo as int,
            lo + w@.len(),
        ));
    }
    r
}

/// Whether `v[lo..hi]` ends with the characters of `lit`.
pub fn range_ends_with(v: &Vec<char>, lo: usize, hi: usize, lit: &str) -> (r: bool)
    requires
        lo <= hi <= v.len(),
    ensures
        r == lit@.is_suffix_of(v@.subrange(lo as int, hi as int)),
{
    let w = chars_of(lit);
    if w.len() > hi - lo {
        return false;
    }
    let r = range_eq(v, hi - w.len(), hi, &w);
    proof {
        let s = v@.subrange(lo as int, hi as int);
        assert(s.subrange(s.len() - w@.len(), s.len() as int) =~= v@.subrange(
            hi - w@.len(),
            hi as int,
        ));
    }
    r
}

// ---------------------------------------------------------------------
// Trimming
// ---------------------------------------------------------------------

/// Number of whitespace characters at the start of `s`.
pub open spec fn leading_ws(s: Seq<char>) -> nat
    decreases s.len(),
{
    if s.len() > 0 && is_ws(s[0]) {
        1 + leading_ws(s.drop_first())
    } else {
        0
    }
}

/// Number of whitespace characters at the end of `s`.
pub open spec fn trailing_ws(s: Seq<char>) -> nat
    decreases s.len(),
{
    if s.len() > 0 && is_ws(s.last()) {
        1 + trailing_ws(s.drop_last())
    } else {
        0
    }
}

/// `str::trim_start`.
pub open spec fn trim_start(s: Seq<char>) -> Seq<char> {
    s.skip(leading_ws(s) as int)
}

/// `str::trim_end`.
pub open spec fn trim_end(s: Seq<char>) -> Seq<char> {
    s.take(s.len() - trailing_ws(s))
}

/// `str::trim`.
pub open spec fn trim(s: Seq<char>) -> Seq<char> {
    trim_end(trim_start(s))
}

pub proof fn lemma_leading_ws_bound(s: Seq<char>)
    ensures
        leading_ws(s) <= s.len(),
    decreases s.len(),
{
    if s.len() > 0 && is_ws(s[0]) {
        lemma_leading_ws_bound(s.drop_first());
    }
}

pub proof fn lemma_trailing_ws_bound(s: Seq<char>)
    ensures
        trailing_ws(s) <= s.len(),
    decreases s.len(),
{
    if s.len() > 0 && is_ws(s.last()) {
        lemma_trailing_ws_bound(s.drop_last());
    }
}

/// `leading_ws` is the length of the whitespace run that starts `s`.
pub proof fn lemma_leading_ws_is(s: Seq<char>, k: int)
    requires
        0 <= k <= s.len(),
        forall|j: int| 0 <= j < k ==> is_ws(#[trigger] s[j]),
        k == s.len() || !is_ws(s[k]),
    ensures
        leading_ws(s) == k,
    decreases k,
{
    if k > 0 {
        lemma_leading_ws_is(s.drop_first(), k - 1);
    }
}

/// `trailing_ws` is the length of the whitespace run that ends `s`.
pub proof fn lemma_trailing_ws_is(s: Seq<char>, k: int)
    requires
        0 <= k <= s.len(),
        forall|j: int| s.len() - k <= j < s.len() ==> is_ws(#[trigger] s[j]),
        k == s.len() || !is_ws(s[s.len() - k - 1]),
    ensures
        trailing_ws(s) == k,
    decreases k,
{
    if k > 0 {
        let t = s.drop_last();
        assert forall|j: int| t.len() - (k - 1) <= j < t.len() implies is_ws(#[trigger] t[j]) by {
            assert(t[j] == s[j]);
        }
        lemma_trailing_ws_is(t, k - 1);
    }
}

/// The bounds of `trim_start(v[lo..hi])` inside `v`.
pub fn trim_start_from(v: &Vec<char>, lo: usize, hi: usize) -> (a: usize)
    requires
        lo <= hi <= v.len(),
    ensures
        lo <= a <= hi,
        v@.subrange(a as int, hi as int) == trim_start(v@.subrange(lo as int, hi as int)),
        a - lo == leading_ws(v@.subrange(lo as int, hi as int)),
{
    let mut a = lo;
    while a < hi && exec_is_ws(v[a])
        invariant
            lo <= a <= hi <= v.len(),
            forall|j: int| lo <= j < a ==> is_ws(#[trigger] v@[j]),
        decreases hi - a,
    {
        a += 1;
    }
    proof {
        let s = v@.subrange(lo as int, hi as int);
        assert forall|j: int| 0 <= j < a - lo implies is_ws(#[trigger] s[j]) by {
            assert(s[j] == v@[lo + j]);
        }
        lemma_leading_ws_is(s, a - lo);
        assert(s.skip(a - lo) =~= v@.subrange(a as int, hi as int));
    }
    a
}

/// The bounds of `trim_end(v[lo..hi])` inside `v`.
pub fn trim_end_to(v: &Vec<char>, lo: usize, hi: usize) -> (b: usize)
    requires
        lo <= hi <= v.len(),
    ensures
        lo <= b <= hi,
        v@.subrange(lo as int, b as int) == trim_end(v@.subrange(lo as int, hi as int)),
{
    let mut b = hi;
    while b > lo && exec_is_ws(v[b - 1])
        invariant
            lo <= b <= hi <= v.len(),
            forall|j: int| b <= j < hi ==> is_ws(#[trigger] v@[j]),
        decreases b - lo,
    {
        b -= 1;
    }
    proof {
        let s = v@.subrange(lo as int, hi as int);
        assert forall|j: int| s.len() - (hi - b) <= j < s.len() implies is_ws(#[trigger] s[j]) by {
            assert(s[j] == v@[lo + j]);
        }
        if b > lo {
            assert(s[s.len() - (hi - b) - 1] == v@[b - 1]);
        }
        lemma_trailing_ws_is(s, hi - b);
        assert(s.take(s.len() - (hi - b)) =~= v@.subrange(lo as int, b as int));
    }
    b
}

/// The bounds of `trim(v[lo..hi])` inside `v`.
pub fn trim_bounds(v: &Vec<char>, lo: usize, hi: usize) -> (r: (usize, usize))
    requires
        lo <= hi <= v.len(),
    ensures
        lo <= r.0 <= r.1 <= hi,
        v@.subrange(r.0 as int, r.1 as int) == trim(v@.subrange(lo as int, hi as int)),
{
    let a = trim_start_from(v, lo, hi);
    let b = trim_end_to(v, a, hi);
    (a, b)
}

// ---------------------------------------------------------------------
// Lines
// ---------------------------------------------------------------------

/// Index of the first `'\n'` in `s`, or its length when there is none.
pub open spec fn line_end(s: Seq<char>) -> nat
    decreases s.len(),
{
    if s.len() == 0 {
        0
    } else if s[0] == '\n' {
        0
    } else {
        1 + line_end(s.drop_first())
    }
}

/// A line as `str::lines` yields it: a line that a `'\n'` ends loses a
/// `'\r'` just before that `'\n'`.
pub open spec fn strip_cr(line: Seq<char>) -> Seq<char> {
    if line.len() > 0 && line.last() == '\r' {
        line.drop_last()
    } else {
        line
    }
}

/// `str::lines`: the text split at `'\n'`, each line without its line
/// ending (`"\n"` or `"\r\n"`), no empty line after a final `'\n'`.
pub open spec fn lines(s: Seq<char>) -> Seq<Seq<char>>
    decreases s.len(),
{
    if s.len() == 0 {
        seq![]
    } else {
        let e = line_end(s) as int;
        if e < s.len() {
            seq![strip_cr(s.take(e))] + lines(s.skip(e + 1))
        } else {
            seq![s]
        }
    }
}

pub proof fn lemma_line_end_is(s: Seq<char>, k: int)
    requires
        0 <= k <= s.len(),
        forall|j: int| 0 <= j < k ==> #[trigger] s[j] != '\n',
        k == s.len() || s[k] == '\n',
    ensures
        line_end(s) == k,
    decreases k,
{
    if k > 0 {
        lemma_line_end_is(s.drop_first(), k - 1);
    }
}

/// The views of a vector of character vectors.
pub open spec fn views(v: Seq<Vec<char>>) -> Seq<Seq<char>> {
    v.map_values(|x: Vec<char>| x@)
}

/// `str::lines` on `v`, each line as a character vector.
pub fn split_lines(v: &Vec<char>) -> (r: Vec<Vec<char>>)
    ensures
        views(r@) == lines(v@),
{
    let mut out: Vec<Vec<char>> = Vec::new();
    let mut start: usize = 0;
    let mut i: usize = 0;
    proof {
        assert(v@.skip(0) =~= v@);
        assert(views(out@) + lines(v@) =~= lines(v@));
    }
    while i < v.len()
        invariant
            start <= i <= v.len(),
            forall|j: int| start <= j < i ==> #[trigger] v@[j] != '\n',
            views(out@) + lines(v@.skip(start as int)) == lines(v@),
        decreases v.len() - i,
    {
        if v[i] == '\n' {
            let ghost rest = v@.skip(start as int);
            proof {
                assert forall|j: int| 0 <= j < i - start implies #[trigger] rest[j] != '\n' by {
                    assert(rest[j] == v@[start + j]);
                }
                lemma_line_end_is(rest, i - start);
                assert(rest.skip(i - start + 1) =~= v@.skip(i + 1));
                assert(rest.take(i - start) =~= v@.subrange(start as int, i as int));
            }
            let end = if i > start && v[i - 1] == '\r' {
                i - 1
            } else {
                i
            };
            let mut line: Vec<char> = Vec::new();
            let mut k = start;
            while k < end
                invariant
                    start <= k <= end <= i < v.len(),
                    line@ == v@.subrange(start as int, k as int),
                decreases end - k,
            {
                line.push(v[k]);
                proof {
                    assert(v@.subrange(start as int, k + 1) =~= v@.subrange(
                        start as int,
                        k as int,
                    ).push(v@[k as int]));
                }
                k += 1;
            }
            proof {
                let t = v@.subrange(start as int, i as int);
                assert(strip_cr(t) =~= line@);
                assert(views(out@.push(line)) =~= views(out@).push(line@));
                assert(views(out@) + lines(rest) =~= views(out@).push(line@) + lines(
                    v@.skip(i + 1),
                ));
            }
            out.push(line);
            start = i + 1;
        }
        i += 1;
    }
    if start < v.len() {
        let ghost rest = v@.skip(start as int);
        proof {
            assert forall|j: int| 0 <= j < rest.len() implies #[trigger] rest[j] != '\n' by {
                assert(rest[j] == v@[start + j]);
            }
            lemma_line_end_is(rest, rest.len() as int);
        }
        let mut line: Vec<char> = Vec::new();
        let mut k = start;
        while k < v.len()
            invariant
                start <= k <= v.len(),
                line@ == v@.subrange(start as int, k as int),
            decreases v.len() - k,
        {
            line.push(v[k]);
            proof {
                assert(v@.subrange(start as int, k + 1) =~= v@.subrange(
                    start as int,
                    k as int,
                ).push(v@[k as int]));
            }
            k += 1;
        }
        proof {
            assert(line@ =~= rest);
            assert(views(out@.push(line)) =~= views(out@).push(line@));
            assert(views(out@) + lines(rest) =~= views(out@).push(line@));
        }
        out.push(line);
    } else {
        proof {
            assert(v@.skip(start as int) =~= Seq::<char>::empty());
            assert(views(out@) + lines(v@.skip(start as int)) =~= views(out@));
        }
    }
    out
}

/// Index of the first `c` in `s`, or its length when there is none.
pub open spec fn index_of_char(s: Seq<char>, c: char) -> nat
    decreases s.len(),
{
    if s.len() == 0 {
        0
    } else if s[0] == c {
        0
    } else {
        1 + index_of_char(s.drop_first(), c)
    }
}

pub proof fn lemma_index_of_char_is(s: Seq<char>, c: char, k: int)
    requires
        0 <= k <= s.len(),
        forall|j: int| 0 <= j < k ==> #[trigger] s[j] != c,
        k == s.len() || s[k] == c,
    ensures
        index_of_char(s, c) == k,
    decreases k,
{
    if k > 0 {
        lemma_index_of_char_is(s.drop_first(), c, k - 1);
    }
}

/// The position of the first `c` in `v[lo..hi]`, or `hi`.
pub fn find_char(v: &Vec<char>, lo: usize, hi: usize, c: char) -> (r: usize)
    requires
        lo <= hi <= v.len(),
    ensures
        lo <= r <= hi,
        r - lo == index_of_char(v@.subrange(lo as int, hi as int), c),
{
    let mut i = lo;
    while i < hi && v[i] != c
        invariant
            lo <= i <= hi <= v.len(),
            forall|j: int| lo <= j < i ==> #[trigger] v@[j] != c,
        decreases hi - i,
    {
        i += 1;
    }
    proof {
        let s = v@.subrange(lo as int, hi as int);
        assert forall|j: int| 0 <= j < i - lo implies #[trigger] s[j] != c by {
            assert(s[j] == v@[lo + j]);
        }
        lemma_index_of_char_is(s, c, i - lo);
    }
    i
}

// ---------------------------------------------------------------------
// Words
// ---------------------------------------------------------------------

/// Index of the first whitespace character in `s`, or its length.
pub open spec fn word_end(s: Seq<char>) -> nat
    decreases s.len(),
{
    if s.len() == 0 {
        0
    } else if is_ws(s[0]) {
        0
    } else {
        1 + word_end(s.drop_first())
    }
}

/// The first item of `str::split_whitespace`, if any.
pub open spec fn first_word(s: Seq<char>) -> Option<Seq<char>> {
    let t = trim_start(s);
    if t.len() == 0 {
        None
    } else {
        Some(t.take(word_end(t) as int))
    }
}

/// What `str::split_whitespace` has not yet consumed after its first item.
pub open spec fn after_first_word(s: Seq<char>) -> Seq<char> {
    let t = trim_start(s);
    t.skip(word_end(t) as int)
}

pub proof fn lemma_word_end_is(s: Seq<char>, k: int)
    requires
        0 <= k <= s.len(),
        forall|j: int| 0 <= j < k ==> !is_ws(#[trigger] s[j]),
        k == s.len() || is_ws(s[k]),
    ensures
        word_end(s) == k,
    decreases k,
{
    if k > 0 {
        lemma_word_end_is(s.drop_first(), k - 1);
    }
}

/// The bounds of the first whitespace-separated word of `v[lo..hi]`:
/// `(a, b)` with `a == b == hi` when there is none.
pub fn next_word(v: &Vec<char>, lo: usize, hi: usize) -> (r: (usize, usize))
    requires
        lo <= hi <= v.len(),
    ensures
        lo <= r.0 <= r.1 <= hi,
        first_word(v@.subrange(lo as int, hi as int)) == (if r.0 == hi {
            None::<Seq<char>>
        } else {
            Some(v@.subrange(r.0 as int, r.1 as int))
        }),
        r.0 == hi ==> r.1 == hi,
        after_first_word(v@.subrange(lo as int, hi as int)) == v@.subrange(r.1 as int, hi as int),
{
    let a = trim_start_from(v, lo, hi);
    let mut b = a;
    while b < hi && !exec_is_ws(v[b])
        invariant
            a <= b <= hi <= v.len(),
            forall|j: int| a <= j < b ==> !is_ws(#[trigger] v@[j]),
        decreases hi - b,
    {
        b += 1;
    }
    proof {
        let t = v@.subrange(a as int, hi as int);
        assert forall|j: int| 0 <= j < b - a implies !is_ws(#[trigger] t[j]) by {
            assert(t[j] == v@[a + j]);
        }
        lemma_word_end_is(t, b - a);
        assert(t.take(b - a) =~= v@.subrange(a as int, b as int));
        assert(t.skip(b - a) =~= v@.subrange(b as int, hi as int));
    }
    (a, b)
}

// ---------------------------------------------------------------------
// Decimal numbers
// ---------------------------------------------------------------------

pub open spec fn all_digits(s: Seq<char>) -> bool {
    forall|i: int| 0 <= i < s.len() ==> is_digit(#[trigger] s[i])
}

/// The value of a run of decimal digits.
pub open spec fn digits_value(s: Seq<char>) -> int
    decreases s.len(),
{
    if s.len() == 0 {
        0
    } else {
        digits_value(s.drop_last()) * 10 + digit_value(s.last())
    }
}

/// `u64::from_str` / `u32::from_str` with the bound `max`: an optional `'+'`
/// followed by one or more ASCII digits whose value is at most `max`.
pub open spec fn parse_uint(s: Seq<char>, max: int) -> Option<int> {
    let d = if s.len() > 0 && s[0] == '+' {
        s.drop_first()
    } else {
        s
    };
    if d.len() > 0 && all_digits(d) && digits_value(d) <= max {
        Some(digits_value(d))
    } else {
        None
    }
}

pub proof fn lemma_digits_value_nonneg(s: Seq<char>)
    requires
        all_digits(s),
    ensures
        digits_value(s) >= 0,
    decreases s.len(),
{
    if s.len() > 0 {
        lemma_digits_value_nonneg(s.drop_last());
    }
}

/// Appending digits never makes the value smaller.
pub proof fn lemma_digits_value_prefix(s: Seq<char>, k: int)
    requires
        all_digits(s),
        0 <= k <= s.len(),
    ensures
        digits_value(s.take(k)) <= digits_value(s),
    decreases s.len() - k,
{
    if k < s.len() {
        lemma_digits_value_prefix(s, k + 1);
        let t = s.take(k + 1);
        assert(t.drop_last() =~= s.take(k));
        lemma_digits_value_nonneg(s.take(k));
    } else {
        assert(s.take(k) =~= s);
    }
}

/// Parses `v[lo..hi]` as `u64::from_str` does.
pub fn parse_u64_range(v: &Vec<char>, lo: usize, hi: usize) -> (r: Option<u64>)
    requires
        lo <= hi <= v.len(),
    ensures
        match parse_uint(v@.subrange(lo as int, hi as int), u64::MAX as int) {
            Some(n) => r is Some && r.unwrap() == n,
            None => r is None,
        },
{
    let ghost s = v@.subrange(lo as int, hi as int);
    let start = if lo < hi && v[lo] == '+' {
        lo + 1
    } else {
        lo
    };
    let ghost d = v@.subrange(start as int, hi as int);
    proof {
        if lo < hi && v@[lo as int] == '+' {
            assert(s.drop_first() =~= d);
        } else {
            assert(s =~= d);
        }
    }
    if start == hi {
        return None;
    }
    let mut acc: u64 = 0;
    let mut i = start;
    while i < hi
        invariant
            lo <= start < hi <= v.len(),
            start <= i <= hi,
            d == v@.subrange(start as int, hi as int),
            s == v@.subrange(lo as int, hi as int),
            d == (if s.len() > 0 && s[0] == '+' {
                s.drop_first()
            } else {
                s
            }),
            all_digits(d.take(i - start)),
            acc == digits_value(d.take(i - start)),
        decreases hi - i,
    {
        let c = v[i];
        if !('0' <= c && c <= '9') {
            proof {
                assert(d[i - start] == c);
                assert(!is_digit(d[i - start]));
            }
            return None;
        }
        let dv = (c as u32 - '0' as u32) as u64;
        proof {
            assert(d.take(i - start + 1).drop_last() =~= d.take(i - start));
            assert(d.take(i - start + 1).last() == c);
            assert forall|j: int| 0 <= j < i - start + 1 implies is_digit(
                #[trigger] d.take(i - start + 1)[j],
            ) by {
                if j < i - start {
                    assert(d.take(i - start + 1)[j] == d.take(i - start)[j]);
                }
            }
        }
        match acc.checked_mul(10) {
            Some(m) => match m.checked_add(dv) {
                Some(n) => {
                    acc = n;
                },
                None => {
                    proof {
                        assert(digits_value(d.take(i - start + 1)) == digits_value(
                            d.take(i - start),
                        ) * 10 + digit_value(c));
                        lemma_rest_all_digits_or_not(d, i - start + 1);
                    }
                    return None;
                },
            },
            None => {
                proof {
                    assert(digits_value(d.take(i - start + 1)) == digits_value(
                        d.take(i - start),
                    ) * 10 + digit_value(c));
                    assert(acc * 10 > u64::MAX);
                    lemma_rest_all_digits_or_not(d, i - start + 1);
                }
                return None;
            },
        }
        i += 1;
    }
    proof {
        assert(d.take(hi - start) =~= d);
    }
    Some(acc)
}

/// When the digits read so far already exceed the bound, the whole text
/// either is not all digits or exceeds the bound too.
proof fn lemma_rest_all_digits_or_not(d: Seq<char>, k: int)
    requires
        0 <= k <= d.len(),
        all_digits(d.take(k)),
        digits_value(d.take(k)) > u64::MAX,
    ensures
        !(all_digits(d) && digits_value(d) <= u64::MAX),
{
    if all_digits(d) {
        lemma_digits_value_prefix(d, k);
    }
}

/// Parses `v[lo..hi]` as `u32::from_str` does.
pub fn parse_u32_range(v: &Vec<char>, lo: usize, hi: usize) -> (r: Option<u32>)
    requires
        lo <= hi <= v.len(),
    ensures
        match parse_uint(v@.subrange(lo as int, hi as int), u32::MAX as int) {
            Some(n) => r is Some && r.unwrap() == n,
            None => r is None,
        },
{
    let ghost s = v@.subrange(lo as int, hi as int);
    let ghost d = if s.len() > 0 && s[0] == '+' {
        s.drop_first()
    } else {
        s
    };
    proof {
        if d.len() > 0 && all_digits(d) {
            lemma_digits_value_nonneg(d);
        }
    }
    match parse_u64_range(v, lo, hi) {
        Some(n) => {
            if n <= u32::MAX as u64 {
                Some(n as u32)
            } else {
                None
            }
        },
        None => None,
    }
}

// ---------------------------------------------------------------------
// Floating-point literals
// ---------------------------------------------------------------------

/// The code of `c` with ASCII upper-case letters lowered.
pub open spec fn ascii_lower(c: char) -> u32 {
    if 'A' <= c && c <= 'Z' {
        ((c as u32) + 32) as u32
    } else {
        c as u32
    }
}

/// `s` equals the lower-case `lit` ignoring ASCII case.
pub open spec fn eq_ignore_ascii_case(s: Seq<char>, lit: Seq<char>) -> bool {
    s.len() == lit.len() && forall|i: int| 0 <= i < s.len() ==> ascii_lower(#[trigger] s[i]) == lit[i] as u32
}

/// `s` without one leading `+` or `-`.
pub open spec fn without_sign(s: Seq<char>) -> Seq<char> {
    if s.len() > 0 && (s[0] == '+' || s[0] == '-') {
        s.drop_first()
    } else {
        s
    }
}

/// `Digit+ | Digit+ '.' Digit* | Digit* '.' Digit+`.
pub open spec fn is_mantissa(m: Seq<char>) -> bool {
    let d = index_of_char(m, '.') as int;
    if d == m.len() {
        m.len() > 0 && all_digits(m)
    } else {
        all_digits(m.take(d)) && all_digits(m.skip(d + 1)) && (d > 0 || m.len() > d + 1)
    }
}

/// Position of the first `e` or `E`, or the length.
pub open spec fn exponent_mark(b: Seq<char>) -> int {
    let e = index_of_char(b, 'e') as int;
    let f = index_of_char(b, 'E') as int;
    if e <= f {
        e
    } else {
        f
    }
}

/// `Mantissa Exp?` where `Exp ::= ('e' | 'E') Sign? Digit+`.
pub open spec fn is_decimal_float(b: Seq<char>) -> bool {
    let k = exponent_mark(b);
    &&& is_mantissa(b.take(k))
    &&& (k == b.len() || {
        let r = without_sign(b.skip(k + 1));
        r.len() > 0 && all_digits(r)
    })
}

/// The text that `f32::from_str` accepts: an optional sign, then `inf`,
/// `infinity` or `nan` in any ASCII case, or a decimal number with an
/// optional exponent.
pub open spec fn is_float_text(s: Seq<char>) -> bool {
    let b = without_sign(s);
    ||| eq_ignore_ascii_case(b, "inf"@)
    ||| eq_ignore_ascii_case(b, "infinity"@)
    ||| eq_ignore_ascii_case(b, "nan"@)
    ||| is_decimal_float(b)
}

fn exec_ascii_lower(c: char) -> (r: u32)
    ensures
        r == ascii_lower(c),
{
    if 'A' <= c && c <= 'Z' {
        (c as u32) + 32
    } else {
        c as u32
    }
}

/// Whether `v[lo..hi]` equals `lit` (lower case) ignoring ASCII case.
fn range_eq_ignore_ascii_case(v: &Vec<char>, lo: usize, hi: usize, lit: &str) -> (r: bool)
    requires
        lo <= hi <= v.len(),
    ensures
        r == eq_ignore_ascii_case(v@.subrange(lo as int, hi as int), lit@),
{
    let w = chars_of(lit);
    if hi - lo != w.len() {
        return false;
    }
    let ghost s = v@.subrange(lo as int, hi as int);
    let mut i: usize = 0;
    while i < w.len()
        invariant
            i <= w.len(),
            hi - lo == w.len(),
            lo <= hi <= v.len(),
            w@ == lit@,
            s == v@.subrange(lo as int, hi as int),
            forall|j: int| 0 <= j < i ==> ascii_lower(#[trigger] s[j]) == w@[j] as u32,
        decreases w.len() - i,
    {
        if exec_ascii_lower(v[lo + i]) != w[i] as u32 {
            proof {
                assert(s[i as int] == v@[lo + i]);
            }
            return false;
        }
        proof {
            assert(s[i as int] == v@[lo + i]);
        }
        i += 1;
    }
    true
}

/// Whether every character of `v[lo..hi]` is a decimal digit.
pub fn all_digits_range(v: &Vec<char>, lo: usize, hi: usize) -> (r: bool)
    requires
        lo <= hi <= v.len(),
    ensures
        r == all_digits(v@.subrange(lo as int, hi as int)),
{
    let ghost s = v@.subrange(lo as int, hi as int);
    let mut i = lo;
    while i < hi
        invariant
            lo <= i <= hi <= v.len(),
            s == v@.subrange(lo as int, hi as int),
            forall|j: int| 0 <= j < i - lo ==> is_digit(#[trigger] s[j]),
        decreases hi - i,
    {
        if !('0' <= v[i] && v[i] <= '9') {
            proof {
                assert(s[i - lo] == v@[i as int]);
            }
            return false;
        }
        proof {
            assert(s[i - lo] == v@[i as int]);
        }
        i += 1;
    }
    true
}

/// Whether `v[lo..hi]` is text that `f32::from_str` accepts.
#[verifier::spinoff_prover]
#[verifier::rlimit(40)]
pub fn is_float_text_range(v: &Vec<char>, lo: usize, hi: usize) -> (r: bool)
    requires
        lo <= hi <= v.len(),
    ensures
        r == is_float_text(v@.subrange(lo as int, hi as int)),
{
    let ghost s = v@.subrange(lo as int, hi as int);
    let a = if lo < hi && (v[lo] == '+' || v[lo] == '-') {
        lo + 1
    } else {
        lo
    };
    let ghost b = v@.subrange(a as int, hi as int);
    proof {
        if lo < hi && (v@[lo as int] == '+' || v@[lo as int] == '-') {
            assert(s.drop_first() =~= b);
        } else {
            assert(s =~= b);
        }
    }
    if range_eq_ignore_ascii_case(v, a, hi, "inf") || range_eq_ignore_ascii_case(v, a, hi, "infinity")
        || range_eq_ignore_ascii_case(v, a, hi, "nan") {
        return true;
    }
    // The exponent mark.
    let e = find_char(v, a, hi, 'e');
    let f = find_char(v, a, hi, 'E');
    let k = if e <= f {
        e
    } else {
        f
    };
    proof {
        assert(k - a == exponent_mark(b));
        assert(b.take(k - a) =~= v@.subrange(a as int, k as int));
    }
    // The mantissa.
    let d = find_char(v, a, k, '.');
    let ghost m = v@.subrange(a as int, k as int);
    let mantissa_ok = if d == k {
        k > a && all_digits_range(v, a, k)
    } else {
        proof {
            assert(m.take(d - a) =~= v@.subrange(a as int, d as int));
            assert(m.skip(d - a + 1) =~= v@.subrange(d + 1, k as int));
        }
        all_digits_range(v, a, d) && all_digits_range(v, d + 1, k) && (d > a || k > d + 1)
    };
    if !mantissa_ok {
        return false;
    }
    if k == hi {
        return true;
    }
    let x = if k + 1 < hi && (v[k + 1] == '+' || v[k + 1] == '-') {
        k + 2
    } else {
        k + 1
    };
    proof {
        let t = b.skip(k - a + 1);
        assert(t =~= v@.subrange(k + 1, hi as int));
        if k + 1 < hi && (v@[k + 1] == '+' || v@[k + 1] == '-') {
            assert(t.drop_first() =~= v@.subrange(x as int, hi as int));
        } else {
            assert(t =~= v@.subrange(x as int, hi as int));
        }
    }
    x < hi && all_digits_range(v, x, hi)
}

/// The decimal digit `d`.
pub open spec fn digit_char(d: int) -> char {
    ((d + ('0' as u32)) as u32) as char
}

/// The decimal text of `n`, as `u64::to_string` prints it.
pub open spec fn decimal(n: nat) -> Seq<char>
    decreases n,
{
    if n < 10 {
        seq![digit_char(n as int)]
    } else {
        decimal(n / 10).push(digit_char((n % 10) as int))
    }
}

/// Appends the decimal text of `n` to `s`.
pub fn push_decimal(s: &mut String, n: u128)
    ensures
        final(s)@ == old(s)@ + decimal(n as nat),
{
    // digits, least significant first
    let mut digits: Vec<char> = Vec::new();
    let mut q = n;
    let ghost mut tail: Seq<char> = Seq::empty();
    while q >= 10
        invariant
            q <= n,
            decimal(n as nat) == decimal(q as nat) + tail,
            digits@.len() == tail.len(),
            forall|j: int| 0 <= j < tail.len() ==> #[trigger] tail[j] == digits@[tail.len() - 1 - j],
        decreases q,
    {
        let d = (q % 10) as u32;
        let c = char_from_digit(d);
        proof {
            assert(decimal(q as nat) == decimal((q / 10) as nat).push(c));
            assert(decimal((q / 10) as nat) + seq![c] + tail =~= decimal((q / 10) as nat).push(c)
                + tail);
            tail = seq![c] + tail;
        }
        digits.push(c);
        q = q / 10;
    }
    let c0 = char_from_digit(q as u32);
    proof {
        assert(decimal(q as nat) =~= seq![c0]);
    }
    push_char(s, c0);
    let mut k = digits.len();
    let ghost base = s@;
    while k > 0
        invariant
            k <= digits.len(),
            digits@.len() == tail.len(),
            forall|j: int| 0 <= j < tail.len() ==> #[trigger] tail[j] == digits@[tail.len() - 1 - j],
            s@ == base + tail.take(digits.len() - k),
        decreases k,
    {
        k -= 1;
        push_char(s, digits[k]);
        proof {
            let t = tail.take(digits.len() - k);
            assert(t =~= tail.take(digits.len() - k - 1).push(tail[digits.len() - k - 1]));
        }
    }
    proof {
        assert(tail.take(tail.len() as int) =~= tail);
        assert(decimal(n as nat) =~= seq![c0] + tail);
    }
}

/// The decimal text of a signed `n`, as `i64::to_string` prints it.
pub open spec fn signed_decimal(n: int) -> Seq<char> {
    if n < 0 {
        seq!['-'] + decimal((-n) as nat)
    } else {
        decimal(n as nat)
    }
}

/// Appends the decimal text of the signed `n` to `s`.
pub fn push_signed_decimal(s: &mut String, n: i64)
    ensures
        final(s)@ == old(s)@ + signed_decimal(n as int),
{
    if n < 0 {
        push_char(s, '-');
        let m: u128 = (0i128 - (n as i128)) as u128;
        push_decimal(s, m);
        proof {
            assert(final(s)@ =~= old(s)@ + signed_decimal(n as int));
        }
    } else {
        push_decimal(s, n as u128);
    }
}

/// The character of the decimal digit `d`.
pub fn char_from_digit(d: u32) -> (c: char)
    requires
        d < 10,
    ensures
        c == digit_char(d as int),
{
    let r = if d == 0 {
        '0'
    } else if d == 1 {
        '1'
    } else if d == 2 {
        '2'
    } else if d == 3 {
        '3'
    } else if d == 4 {
        '4'
    } else if d == 5 {
        '5'
    } else if d == 6 {
        '6'
    } else if d == 7 {
        '7'
    } else if d == 8 {
        '8'
    } else {
        '9'
    };
    r
}

} // verus!
