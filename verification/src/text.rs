//! Character-level text helpers shared by the rest of the library.
//!
//! Text is handled as sequences of `char`. The few behaviours that come from
//! Unicode tables (case mapping, the White_Space and alphanumeric properties)
//! are taken from std and named here; everything built on them is verified.

use vstd::prelude::*;
use vstd::string::*;

verus! {

/// `pat` occurs in `s` starting at position `i`.
pub open spec fn occurs_at(s: Seq<char>, pat: Seq<char>, i: int) -> bool {
    0 <= i && i + pat.len() <= s.len() && s.subrange(i, i + pat.len()) == pat
}

/// `pat` occurs somewhere in `s` (an empty pattern occurs everywhere).
pub open spec fn contains(s: Seq<char>, pat: Seq<char>) -> bool {
    exists|i: int| occurs_at(s, pat, i)
}

/// `i` is the first position at which `pat` occurs in `s`.
pub open spec fn first_occurrence(s: Seq<char>, pat: Seq<char>, i: int) -> bool {
    occurs_at(s, pat, i) && forall|j: int| 0 <= j < i ==> !occurs_at(s, pat, j)
}

/// The predicate "differs from `x`".
pub open spec fn other_than(x: Seq<char>) -> spec_fn(Seq<char>) -> bool {
    |q: Seq<char>| q != x
}

/// `s` begins with `pat`.
pub open spec fn starts_with(s: Seq<char>, pat: Seq<char>) -> bool {
    occurs_at(s, pat, 0)
}

/// The characters of a string slice, in order.
pub fn chars_of(s: &str) -> (v: Vec<char>)
    ensures
        v@ == s@,
{
    let mut v: Vec<char> = Vec::new();
    for c in it: s.chars()
        invariant
            v@ == it.seq().take(it.index() as int),
    {
        v.push(c);
    }
    v
}

/// Appends one character to a string (`String::push`).
#[verifier::external_body]
fn push_char(s: &mut String, c: char)
    ensures
        final(s)@ == old(s)@.push(c),
{
    s.push(c);
}

/// The string holding exactly the given characters.
pub fn string_of(v: &[char]) -> (s: String)
    ensures
        s@ == v@,
{
    let mut s = String::new();
    let mut i: usize = 0;
    while i < v.len()
        invariant
            i <= v@.len(),
            s@ == v@.take(i as int),
        decreases v@.len() - i,
    {
        push_char(&mut s, v[i]);
        assert(v@.take(i as int).push(v@[i as int]) =~= v@.take(i + 1));
        i += 1;
    }
    assert(v@.take(v@.len() as int) =~= v@);
    s
}

/// Appends the characters of `t` to `s`.
pub fn append_str(s: &mut String, t: &str)
    ensures
        final(s)@ == old(s)@ + t@,
{
    let cs = chars_of(t);
    let mut i: usize = 0;
    while i < cs.len()
        invariant
            i <= cs@.len(),
            cs@ == t@,
            s@ == old(s)@ + cs@.take(i as int),
        decreases cs@.len() - i,
    {
        push_char(s, cs[i]);
        assert(cs@.take(i as int).push(cs@[i as int]) =~= cs@.take(i + 1));
        assert((old(s)@ + cs@.take(i as int)).push(cs@[i as int]) =~= old(s)@ + cs@.take(i + 1));
        i += 1;
    }
    assert(cs@.take(cs@.len() as int) =~= cs@);
}

/// The two strings one after the other.
pub fn concat(a: &str, b: &str) -> (r: String)
    ensures
        r@ == a@ + b@,
{
    let mut r = owned(a);
    append_str(&mut r, b);
    r
}

/// An owned copy of a string slice.
pub fn owned(s: &str) -> (r: String)
    ensures
        r@ == s@,
{
    String::from_str(s)
}

/// The lowercase mapping of a string as std computes it (`str::to_lowercase`,
/// which follows the Unicode case tables).
pub uninterp spec fn lowercase(s: Seq<char>) -> Seq<char>;

/// Lowercases a string with `str::to_lowercase`. The result is named, not
/// described: it is whatever the Unicode lowercase mapping of `s` is.
#[verifier::external_body]
pub(crate) fn to_lowercase(s: &str) -> (r: String)
    ensures
        r@ == lowercase(s@),
{
    s.to_lowercase()
}

/// The Unicode White_Space property, which `char::is_whitespace` tests: the
/// 25 code points U+0009 to U+000D, U+0020, U+0085, U+00A0, U+1680, U+2000
/// to U+200A, U+2028, U+2029, U+202F, U+205F and U+3000.
pub open spec fn white_space(c: char) -> bool {
    let n = c as u32;
    ||| 0x09 <= n <= 0x0d
    ||| n == 0x20
    ||| n == 0x85
    ||| n == 0xa0
    ||| n == 0x1680
    ||| 0x2000 <= n <= 0x200a
    ||| n == 0x2028
    ||| n == 0x2029
    ||| n == 0x202f
    ||| n == 0x205f
    ||| n == 0x3000
}

/// Whether a character is white space in the Unicode sense, as
/// `char::is_whitespace` decides it.
pub(crate) fn is_whitespace(c: char) -> (r: bool)
    ensures
        r == white_space(c),
{
    let n = c as u32;
    (0x09 <= n && n <= 0x0d) || n == 0x20 || n == 0x85 || n == 0xa0 || n == 0x1680 || (0x2000 <= n && n <= 0x200a)
        || n == 0x2028 || n == 0x2029 || n == 0x202f || n == 0x205f || n == 0x3000
}

/// Whether std classifies a character as alphabetic or numeric
/// (`char::is_alphanumeric`).
pub uninterp spec fn alphanumeric(c: char) -> bool;

/// An ASCII letter or digit.
pub open spec fn ascii_alphanumeric(c: char) -> bool {
    ('a' <= c <= 'z') || ('A' <= c <= 'Z') || ('0' <= c <= '9')
}

/// `char::is_alphanumeric`: the Unicode Alphabetic or Numeric property of
/// `c`. Among ASCII characters, as its documentation and the Unicode tables
/// give, exactly the letters and digits have it.
#[verifier::external_body]
pub(crate) fn is_alphanumeric(c: char) -> (r: bool)
    ensures
        r == alphanumeric(c),
        (c as u32) < 128 ==> (r <==> ascii_alphanumeric(c)),
{
    c.is_alphanumeric()
}

/// Whether `pat` occurs in `s` at position `i`, checked character by character.
pub fn matches_at(s: &[char], pat: &[char], i: usize) -> (r: bool)
    ensures
        r == occurs_at(s@, pat@, i as int),
{
    if i > s.len() || pat.len() > s.len() - i {
        return false;
    }
    let mut k: usize = 0;
    while k < pat.len()
        invariant
            i + pat@.len() <= s@.len(),
            s@.len() == s.len(),
            pat@.len() == pat.len(),
            k <= pat@.len(),
            forall|j: int| 0 <= j < k ==> s@[i + j] == pat@[j],
        decreases pat@.len() - k,
    {
        if s[i + k] != pat[k] {
            assert(s@.subrange(i as int, i + pat@.len())[k as int] != pat@[k as int]);
            return false;
        }
        k += 1;
    }
    assert(s@.subrange(i as int, i + pat@.len()) =~= pat@);
    true
}

/// The first position at or after `from` where `pat` occurs in `s`.
pub fn find_from(s: &[char], pat: &[char], from: usize) -> (r: Option<usize>)
    ensures
        match r {
            Some(i) => from <= i && occurs_at(s@, pat@, i as int) && forall|j: int|
                from <= j < i ==> !occurs_at(s@, pat@, j),
            None => forall|j: int| from <= j ==> !occurs_at(s@, pat@, j),
        },
{
    if pat.len() > s.len() {
        return None;
    }
    let last = s.len() - pat.len();
    if from > last {
        return None;
    }
    let mut i = from;
    loop
        invariant
            last + pat@.len() == s@.len(),
            from <= i <= last,
            forall|j: int| from <= j < i ==> !occurs_at(s@, pat@, j),
        decreases last - i,
    {
        if matches_at(s, pat, i) {
            return Some(i);
        }
        if i == last {
            return None;
        }
        i += 1;
    }
}

/// The first position where `pat` occurs in `s`.
pub fn find(s: &[char], pat: &[char]) -> (r: Option<usize>)
    ensures
        match r {
            Some(i) => first_occurrence(s@, pat@, i as int),
            None => !contains(s@, pat@),
        },
{
    find_from(s, pat, 0)
}

/// Whether `pat` occurs in `s`.
pub fn contains_chars(s: &[char], pat: &[char]) -> (r: bool)
    ensures
        r == contains(s@, pat@),
{
    match find(s, pat) {
        Some(i) => true,
        None => false,
    }
}

/// Whether the string `s` contains the string `pat`.
pub fn str_contains(s: &str, pat: &str) -> (r: bool)
    ensures
        r == contains(s@, pat@),
{
    let a = chars_of(s);
    let b = chars_of(pat);
    contains_chars(a.as_slice(), b.as_slice())
}

/// Whether `s` begins with `pat`.
pub fn str_starts_with(s: &str, pat: &str) -> (r: bool)
    ensures
        r == starts_with(s@, pat@),
{
    let a = chars_of(s);
    let b = chars_of(pat);
    matches_at(a.as_slice(), b.as_slice(), 0)
}

/// Whether two character sequences are equal.
pub fn chars_equal(a: &[char], b: &[char]) -> (r: bool)
    ensures
        r == (a@ == b@),
{
    if a.len() != b.len() {
        return false;
    }
    let r = matches_at(a, b, 0);
    assert(a@.subrange(0, b@.len() as int) =~= a@);
    r
}

/// Whether two strings hold the same characters.
pub fn str_equals(a: &str, b: &str) -> (r: bool)
    ensures
        r == (a@ == b@),
{
    let x = chars_of(a);
    let y = chars_of(b);
    chars_equal(x.as_slice(), y.as_slice())
}

/// Whether the lowercase form of `text` contains `pat`.
pub fn lower_contains(lower: &[char], pat: &str) -> (r: bool)
    ensures
        r == contains(lower@, pat@),
{
    let b = chars_of(pat);
    contains_chars(lower, b.as_slice())
}


/// The maximal runs of non-white-space characters of `s`, in order
/// (what `str::split_whitespace` yields).
pub open spec fn words(s: Seq<char>) -> Seq<Seq<char>>
    decreases s.len(),
{
    if s.len() == 0 {
        seq![]
    } else {
        let p = words(s.drop_last());
        let c = s.last();
        if white_space(c) {
            p
        } else if s.len() >= 2 && !white_space(s[s.len() - 2]) {
            p.update(p.len() - 1, p.last().push(c))
        } else {
            p.push(seq![c])
        }
    }
}

/// A text whose last character is not white space has at least one word.
pub proof fn lemma_words_nonempty(s: Seq<char>)
    requires
        s.len() > 0,
        !white_space(s.last()),
    ensures
        words(s).len() > 0,
    decreases s.len(),
{
    if s.len() >= 2 && !white_space(s[s.len() - 2]) {
        lemma_words_nonempty(s.drop_last());
    }
}

/// The number of white-space separated words of `s`.
pub fn word_count(s: &[char]) -> (n: usize)
    ensures
        n == words(s@).len(),
{
    let mut n: usize = 0;
    let mut i: usize = 0;
    let mut in_word = false;
    while i < s.len()
        invariant
            i <= s@.len(),
            n == words(s@.take(i as int)).len(),
            n <= i,
            in_word == (i > 0 && !white_space(s@[i - 1])),
        decreases s@.len() - i,
    {
        let c = s[i];
        let ghost t = s@.take(i + 1);
        assert(t.drop_last() =~= s@.take(i as int));
        if is_whitespace(c) {
            in_word = false;
        } else {
            if in_word {
                proof { lemma_words_nonempty(s@.take(i as int)); }
            } else {
                n += 1;
            }
            in_word = true;
        }
        i += 1;
    }
    assert(s@.take(s@.len() as int) =~= s@);
    n
}

/// Splits `s` into its white-space separated words.
pub fn split_words(s: &[char]) -> (out: Vec<Vec<char>>)
    ensures
        out@.len() == words(s@).len(),
        forall|k: int| 0 <= k < out@.len() ==> #[trigger] out@[k]@ == words(s@)[k],
{
    let mut out: Vec<Vec<char>> = Vec::new();
    let mut i: usize = 0;
    let mut in_word = false;
    while i < s.len()
        invariant
            i <= s@.len(),
            out@.len() == words(s@.take(i as int)).len(),
            forall|k: int| 0 <= k < out@.len() ==> #[trigger] out@[k]@ == words(s@.take(i as int))[k],
            in_word == (i > 0 && !white_space(s@[i - 1])),
        decreases s@.len() - i,
    {
        let c = s[i];
        let ghost prev = words(s@.take(i as int));
        let ghost t = s@.take(i + 1);
        assert(t.drop_last() =~= s@.take(i as int));
        assert(t.last() == c);
        if is_whitespace(c) {
            in_word = false;
        } else {
            if in_word {
                proof { lemma_words_nonempty(s@.take(i as int)); }
                let mut w = out.pop().unwrap();
                w.push(c);
                out.push(w);
                assert forall|k: int| 0 <= k < out@.len() implies #[trigger] out@[k]@ == words(t)[k] by {
                    if k < out@.len() - 1 {
                    } else {
                    }
                }
            } else {
                out.push(vec![c]);
                assert(out@.last()@ =~= seq![c]);
                assert forall|k: int| 0 <= k < out@.len() implies #[trigger] out@[k]@ == words(t)[k] by {
                    if k < out@.len() - 1 {
                    } else {
                    }
                }
            }
            in_word = true;
        }
        i += 1;
    }
    assert(s@.take(s@.len() as int) =~= s@);
    out
}

/// The number of white-space characters at the start of `s`.
pub open spec fn leading_space(s: Seq<char>) -> nat
    decreases s.len(),
{
    if s.len() == 0 || !white_space(s[0]) {
        0
    } else {
        1 + leading_space(s.drop_first())
    }
}

/// The number of white-space characters at the end of `s`.
pub open spec fn trailing_space(s: Seq<char>) -> nat
    decreases s.len(),
{
    if s.len() == 0 || !white_space(s.last()) {
        0
    } else {
        1 + trailing_space(s.drop_last())
    }
}

/// `s` without leading and trailing white space (what `str::trim` returns).
pub open spec fn trim(s: Seq<char>) -> Seq<char> {
    let rest = s.skip(leading_space(s) as int);
    rest.take(rest.len() - trailing_space(rest))
}

proof fn lemma_leading_space_bound(s: Seq<char>)
    ensures
        leading_space(s) <= s.len(),
        forall|j: int| 0 <= j < leading_space(s) ==> white_space(#[trigger] s[j]),
        leading_space(s) < s.len() ==> !white_space(s[leading_space(s) as int]),
    decreases s.len(),
{
    if s.len() > 0 && white_space(s[0]) {
        lemma_leading_space_bound(s.drop_first());
        assert forall|j: int| 0 <= j < leading_space(s) implies white_space(#[trigger] s[j]) by {
            if j > 0 {
                assert(s[j] == s.drop_first()[j - 1]);
            }
        }
    }
}

proof fn lemma_trailing_space_bound(s: Seq<char>)
    ensures
        trailing_space(s) <= s.len(),
        forall|j: int| s.len() - trailing_space(s) <= j < s.len() ==> white_space(#[trigger] s[j]),
        trailing_space(s) < s.len() ==> !white_space(s[s.len() - 1 - trailing_space(s)]),
    decreases s.len(),
{
    if s.len() > 0 && white_space(s.last()) {
        lemma_trailing_space_bound(s.drop_last());
        assert forall|j: int| s.len() - trailing_space(s) <= j < s.len() implies white_space(#[trigger] s[j]) by {
            if j < s.len() - 1 {
                assert(s[j] == s.drop_last()[j]);
            }
        }
    }
}

/// Leading white-space count, computed.
fn count_leading_space(s: &[char]) -> (n: usize)
    ensures
        n == leading_space(s@),
        n <= s@.len(),
{
    proof { lemma_leading_space_bound(s@); }
    let mut n: usize = 0;
    while n < s.len() && is_whitespace(s[n])
        invariant
            n <= leading_space(s@),
            leading_space(s@) <= s@.len(),
            forall|j: int| 0 <= j < leading_space(s@) ==> white_space(#[trigger] s@[j]),
            leading_space(s@) < s@.len() ==> !white_space(s@[leading_space(s@) as int]),
        decreases s@.len() - n,
    {
        n += 1;
    }
    n
}

/// Trailing white-space count, computed.
fn count_trailing_space(s: &[char]) -> (n: usize)
    ensures
        n == trailing_space(s@),
        n <= s@.len(),
{
    proof { lemma_trailing_space_bound(s@); }
    let mut n: usize = 0;
    while n < s.len() && is_whitespace(s[s.len() - 1 - n])
        invariant
            n <= trailing_space(s@),
            trailing_space(s@) <= s@.len(),
            forall|j: int| s@.len() - trailing_space(s@) <= j < s@.len() ==> white_space(#[trigger] s@[j]),
            trailing_space(s@) < s@.len() ==> !white_space(s@[s@.len() - 1 - trailing_space(s@)]),
        decreases s@.len() - n,
    {
        n += 1;
    }
    n
}

/// `s` without leading and trailing white space.
pub fn trim_chars(s: &[char]) -> (r: Vec<char>)
    ensures
        r@ == trim(s@),
{
    let a = count_leading_space(s);
    let ghost rest = s@.skip(a as int);
    let mut tail: Vec<char> = Vec::new();
    let mut i = a;
    while i < s.len()
        invariant
            a <= i <= s@.len(),
            rest == s@.skip(a as int),
            tail@ == rest.take(i - a),
        decreases s@.len() - i,
    {
        tail.push(s[i]);
        assert(rest.take(i - a).push(s@[i as int]) =~= rest.take(i + 1 - a));
        i += 1;
    }
    assert(tail@ =~= rest);
    let b = count_trailing_space(tail.as_slice());
    let keep = tail.len() - b;
    let mut r: Vec<char> = Vec::new();
    let mut j: usize = 0;
    while j < keep
        invariant
            keep <= tail@.len(),
            j <= keep,
            r@ == tail@.take(j as int),
        decreases keep - j,
    {
        r.push(tail[j]);
        assert(tail@.take(j as int).push(tail@[j as int]) =~= tail@.take(j + 1));
        j += 1;
    }
    r
}

/// The pieces of `s` between `'\n'` characters; there is always at least one.
pub open spec fn newline_segments(s: Seq<char>) -> Seq<Seq<char>>
    decreases s.len(),
{
    if s.len() == 0 {
        seq![seq![]]
    } else {
        let p = newline_segments(s.drop_last());
        if s.last() == '\n' {
            p.push(seq![])
        } else {
            p.update(p.len() - 1, p.last().push(s.last()))
        }
    }
}

proof fn lemma_segments_nonempty(s: Seq<char>)
    ensures
        newline_segments(s).len() >= 1,
    decreases s.len(),
{
    if s.len() > 0 {
        lemma_segments_nonempty(s.drop_last());
    }
}

/// `seg` with one trailing `'\r'` removed, when it has one.
pub open spec fn strip_cr(seg: Seq<char>) -> Seq<char> {
    if seg.len() > 0 && seg.last() == '\r' {
        seg.drop_last()
    } else {
        seg
    }
}

/// The lines of `s` as `str::lines` yields them: split at `'\n'`, a `'\r'`
/// just before a `'\n'` dropped, and no empty last line after a final
/// line ending.
pub open spec fn lines(s: Seq<char>) -> Seq<Seq<char>> {
    let seg = newline_segments(s);
    let n = if s.len() == 0 || s.last() == '\n' { seg.len() - 1 } else { seg.len() as int };
    Seq::new(
        n as nat,
        |i: int|
            if i < seg.len() - 1 {
                strip_cr(seg[i])
            } else {
                seg[i]
            },
    )
}

/// Splits `s` into its lines.
pub fn split_lines(s: &[char]) -> (out: Vec<Vec<char>>)
    ensures
        out@.len() == lines(s@).len(),
        forall|k: int| 0 <= k < out@.len() ==> #[trigger] out@[k]@ == lines(s@)[k],
{
    let mut segs: Vec<Vec<char>> = Vec::new();
    segs.push(Vec::new());
    let mut i: usize = 0;
    assert(s@.take(0) =~= Seq::<char>::empty());
    assert(segs@[0]@ =~= Seq::<char>::empty());
    while i < s.len()
        invariant
            i <= s@.len(),
            segs@.len() == newline_segments(s@.take(i as int)).len(),
            segs@.len() >= 1,
            forall|k: int| 0 <= k < segs@.len() ==> #[trigger] segs@[k]@ == newline_segments(s@.take(i as int))[k],
        decreases s@.len() - i,
    {
        let c = s[i];
        let ghost t = s@.take(i + 1);
        assert(t.drop_last() =~= s@.take(i as int));
        assert(t.last() == c);
        if c == '\n' {
            segs.push(Vec::new());
            assert forall|k: int| 0 <= k < segs@.len() implies #[trigger] segs@[k]@ == newline_segments(t)[k] by {
                if k < segs@.len() - 1 {
                } else {
                    assert(segs@[k]@ =~= seq![]);
                }
            }
        } else {
            let mut w = segs.pop().unwrap();
            w.push(c);
            segs.push(w);
            assert forall|k: int| 0 <= k < segs@.len() implies #[trigger] segs@[k]@ == newline_segments(t)[k] by {
                if k < segs@.len() - 1 {
                } else {
                }
            }
        }
        i += 1;
    }
    assert(s@.take(s@.len() as int) =~= s@);
    let ghost seg = newline_segments(s@);
    let n: usize = if s.len() == 0 || s[s.len() - 1] == '\n' {
        segs.len() - 1
    } else {
        segs.len()
    };
    let mut out: Vec<Vec<char>> = Vec::new();
    let mut k: usize = 0;
    while k < n
        invariant
            n <= segs@.len(),
            segs@.len() == seg.len(),
            seg == newline_segments(s@),
            forall|m: int| 0 <= m < segs@.len() ==> #[trigger] segs@[m]@ == seg[m],
            n == lines(s@).len(),
            k <= n,
            out@.len() == k,
            forall|m: int| 0 <= m < k ==> #[trigger] out@[m]@ == lines(s@)[m],
        decreases n - k,
    {
        let seg_k = &segs[k];
        let mut line: Vec<char> = Vec::new();
        let mut len = seg_k.len();
        if k + 1 < segs.len() && len > 0 && seg_k[len - 1] == '\r' {
            len = len - 1;
        }
        let mut j: usize = 0;
        while j < len
            invariant
                len <= seg_k@.len(),
                j <= len,
                line@ == seg_k@.take(j as int),
            decreases len - j,
        {
            line.push(seg_k[j]);
            assert(seg_k@.take(j as int).push(seg_k@[j as int]) =~= seg_k@.take(j + 1));
            j += 1;
        }
        assert(line@ =~= lines(s@)[k as int]);
        out.push(line);
        k += 1;
    }
    out
}

/// The pieces of `parts` joined with `sep` between consecutive pieces.
pub open spec fn join(parts: Seq<Seq<char>>, sep: Seq<char>) -> Seq<char>
    decreases parts.len(),
{
    if parts.len() == 0 {
        seq![]
    } else if parts.len() == 1 {
        parts[0]
    } else {
        join(parts.drop_last(), sep) + sep + parts.last()
    }
}

/// Joins texts with a separator.
pub fn join_texts(parts: &Vec<String>, sep: &str) -> (r: String)
    ensures
        r@ == join(parts@.map_values(|p: String| p@), sep@),
{
    let ghost pv = parts@.map_values(|p: String| p@);
    let mut r = String::new();
    let mut i: usize = 0;
    while i < parts.len()
        invariant
            i <= parts@.len(),
            pv == parts@.map_values(|p: String| p@),
            r@ == join(pv.take(i as int), sep@),
        decreases parts@.len() - i,
    {
        if i > 0 {
            append_str(&mut r, sep);
        }
        append_str(&mut r, parts[i].as_str());
        proof {
            let after = pv.take(i + 1);
            assert(after.drop_last() =~= pv.take(i as int));
            assert(after.last() == parts@[i as int]@);
            assert(r@ =~= join(after, sep@));
        }
        i += 1;
    }
    assert(pv.take(parts@.len() as int) =~= pv);
    r
}

/// A copy of a list of strings.
pub fn copy_strings(v: &Vec<String>) -> (r: Vec<String>)
    ensures
        r@ == v@,
{
    let mut r: Vec<String> = Vec::new();
    let mut i: usize = 0;
    while i < v.len()
        invariant
            i <= v@.len(),
            r@ == v@.take(i as int),
        decreases v@.len() - i,
    {
        r.push(v[i].clone());
        assert(v@.take(i + 1) =~= v@.take(i as int).push(v@[i as int]));
        i += 1;
    }
    assert(v@.take(v@.len() as int) =~= v@);
    r
}

/// The character of a digit below sixteen (lowercase for ten and up).
pub open spec fn digit_char(d: nat) -> char {
    if d == 0 { '0' } else if d == 1 { '1' } else if d == 2 { '2' } else if d == 3 { '3' }
    else if d == 4 { '4' } else if d == 5 { '5' } else if d == 6 { '6' } else if d == 7 { '7' }
    else if d == 8 { '8' } else if d == 9 { '9' } else if d == 10 { 'a' } else if d == 11 { 'b' }
    else if d == 12 { 'c' } else if d == 13 { 'd' } else if d == 14 { 'e' } else { 'f' }
}

/// The decimal numeral of `n`, without leading zeros.
pub open spec fn decimal_digits(n: nat) -> Seq<char>
    decreases n,
{
    if n < 10 {
        seq![digit_char(n)]
    } else {
        decimal_digits(n / 10).push(digit_char(n % 10))
    }
}

/// The lowercase hexadecimal numeral of `n`, without leading zeros.
pub open spec fn hex_digits(n: nat) -> Seq<char>
    decreases n,
{
    if n < 16 {
        seq![digit_char(n)]
    } else {
        hex_digits(n / 16).push(digit_char(n % 16))
    }
}

fn digit(d: u64) -> (c: char)
    requires
        d < 16,
    ensures
        c == digit_char(d as nat),
{
    if d == 0 { '0' } else if d == 1 { '1' } else if d == 2 { '2' } else if d == 3 { '3' }
    else if d == 4 { '4' } else if d == 5 { '5' } else if d == 6 { '6' } else if d == 7 { '7' }
    else if d == 8 { '8' } else if d == 9 { '9' } else if d == 10 { 'a' } else if d == 11 { 'b' }
    else if d == 12 { 'c' } else if d == 13 { 'd' } else if d == 14 { 'e' } else { 'f' }
}

/// Appends the decimal numeral of `n`.
pub fn push_decimal(s: &mut String, n: u64)
    ensures
        final(s)@ == old(s)@ + decimal_digits(n as nat),
    decreases n,
{
    if n < 10 {
        push_char(s, digit(n));
        assert(decimal_digits(n as nat) =~= seq![digit_char(n as nat)]);
    } else {
        push_decimal(s, n / 10);
        push_char(s, digit(n % 10));
        assert(old(s)@ + decimal_digits(n as nat) =~= (old(s)@ + decimal_digits((n / 10) as nat)).push(
            digit_char((n % 10) as nat),
        ));
    }
}

/// Appends the lowercase hexadecimal numeral of `n`.
pub fn push_hex(s: &mut String, n: u64)
    ensures
        final(s)@ == old(s)@ + hex_digits(n as nat),
    decreases n,
{
    if n < 16 {
        push_char(s, digit(n));
        assert(hex_digits(n as nat) =~= seq![digit_char(n as nat)]);
    } else {
        push_hex(s, n / 16);
        push_char(s, digit(n % 16));
        assert(old(s)@ + hex_digits(n as nat) =~= (old(s)@ + hex_digits((n / 16) as nat)).push(
            digit_char((n % 16) as nat),
        ));
    }
}

/// The decimal numeral of `n`.
pub fn decimal(n: u64) -> (r: String)
    ensures
        r@ == decimal_digits(n as nat),
{
    let mut r = String::new();
    push_decimal(&mut r, n);
    assert(r@ =~= decimal_digits(n as nat));
    r
}

/// The pieces one after the other.
pub open spec fn concat_views(parts: Seq<&str>) -> Seq<char>
    decreases parts.len(),
{
    if parts.len() == 0 {
        seq![]
    } else {
        concat_views(parts.drop_last()) + parts.last()@
    }
}

/// The pieces one after the other, as one string.
pub fn concat_parts(parts: &[&str]) -> (r: String)
    ensures
        r@ == concat_views(parts@),
{
    let mut r = String::new();
    let mut i: usize = 0;
    assert(r@ =~= concat_views(parts@.take(0)));
    while i < parts.len()
        invariant
            i <= parts@.len(),
            r@ == concat_views(parts@.take(i as int)),
        decreases parts@.len() - i,
    {
        append_str(&mut r, parts[i]);
        assert(parts@.take(i + 1).drop_last() =~= parts@.take(i as int));
        i += 1;
    }
    assert(parts@.take(parts@.len() as int) =~= parts@);
    r
}

} // verus!
