//! Editor support: the word and the text around a place in a document, the
//! fallback diagnostics and completions, the prompts for hover text and
//! completions, and the cache of analyses by document content.
//!
//! Positions count lines from 0 and, within a line, characters; where the
//! editor's character index is compared with or used to cut a line, it is
//! taken as a byte offset, so a line is cut only where a character starts.

use vstd::prelude::*;
use vstd::utf8::{decode_utf8, encode_utf8, is_char_boundary, valid_utf8};
use vstd::string::StringSliceAdditionalSpecFns;
use crate::code_analysis::{CodeAnalysisResponse, Position, Range, Severity};
use crate::files::{language_of_path, detect_language};
use crate::health::opt_view;
use crate::keyed::StrMap;
use crate::text::{
    alphanumeric, append_str, chars_of, concat, concat_parts, concat_views, digit_char, is_alphanumeric, join,
    lines, owned, split_lines, string_of, trim, trim_chars,
};

verus! {

/// A character that belongs to a word: alphanumeric or an underscore.
pub open spec fn word_char(c: char) -> bool {
    alphanumeric(c) || c == '_'
}

/// Where the word around character `k` of `line` starts.
pub open spec fn word_start(line: Seq<char>, k: int) -> int
    decreases k,
{
    if k > 0 && k - 1 < line.len() && word_char(line[k - 1]) {
        word_start(line, k - 1)
    } else {
        k
    }
}

/// Where the word around character `k` of `line` ends.
pub open spec fn word_end(line: Seq<char>, k: int) -> int
    decreases line.len() - k,
{
    if 0 <= k < line.len() && word_char(line[k]) {
        word_end(line, k + 1)
    } else {
        k
    }
}

/// The word at a place: `None` past the last line, past the end of the
/// line (in bytes), or where no word character touches the place; else the
/// text of the line between the word's start and end.
pub open spec fn word_at(document: Seq<char>, position: Position) -> Option<Seq<char>> {
    let ls = lines(document);
    if position.line >= ls.len() {
        None
    } else {
        let line = ls[position.line as int];
        let bytes = encode_utf8(line);
        let k = position.character as int;
        if k > bytes.len() {
            None
        } else {
            let s = word_start(line, k);
            let e = word_end(line, k);
            if s == e {
                None
            } else {
                Some(decode_utf8(bytes.subrange(s, e)))
            }
        }
    }
}

/// The word at a place can be cut out of its line: its ends are where
/// characters start (else the cut would fail).
pub open spec fn word_cut_defined(document: Seq<char>, position: Position) -> bool {
    let ls = lines(document);
    position.line < ls.len() && position.character <= encode_utf8(ls[position.line as int]).len() ==> {
        let line = ls[position.line as int];
        let bytes = encode_utf8(line);
        let s = word_start(line, position.character as int);
        let e = word_end(line, position.character as int);
        s < e ==> is_char_boundary(bytes, s) && is_char_boundary(bytes, e)
    }
}

proof fn lemma_word_bounds(line: Seq<char>, k: int)
    requires
        0 <= k,
    ensures
        0 <= word_start(line, k) <= k,
        k <= word_end(line, k),
        k <= line.len() ==> word_end(line, k) <= line.len(),
    decreases k,
{
    if k > 0 && k - 1 < line.len() && word_char(line[k - 1]) {
        lemma_word_bounds(line, k - 1);
    }
    lemma_word_end_bound(line, k);
}

proof fn lemma_word_end_bound(line: Seq<char>, k: int)
    requires
        0 <= k,
    ensures
        k <= word_end(line, k),
        k <= line.len() ==> word_end(line, k) <= line.len(),
    decreases line.len() - k,
{
    if 0 <= k < line.len() && word_char(line[k]) {
        lemma_word_end_bound(line, k + 1);
    }
}

/// An underscore never splits a word: the word around the place just
/// before an underscore is the word around the place just after it.
pub proof fn law_underscore_joins_words(line: Seq<char>, i: int)
    requires
        0 <= i < line.len(),
        line[i] == '_',
    ensures
        word_start(line, i + 1) == word_start(line, i),
        word_end(line, i) == word_end(line, i + 1),
        word_start(line, i + 1) <= i < word_end(line, i),
{
    lemma_word_bounds(line, i);
    lemma_word_end_bound(line, i + 1);
}

/// The word at a place inside an identifier (a run of alphanumeric
/// characters and underscores, with neither kind of character just before
/// or just after it) is the whole identifier.
pub proof fn law_word_is_whole_identifier(line: Seq<char>, a: int, b: int, k: int)
    requires
        0 <= a <= k <= b <= line.len(),
        forall|i: int| a <= i < b ==> alphanumeric(#[trigger] line[i]) || line[i] == '_',
        a > 0 ==> !(alphanumeric(line[a - 1]) || line[a - 1] == '_'),
        b < line.len() ==> !(alphanumeric(line[b]) || line[b] == '_'),
    ensures
        word_start(line, k) == a,
        word_end(line, k) == b,
{
    lemma_start_of_run(line, a, b, k);
    lemma_end_of_run(line, a, b, k);
}

proof fn lemma_start_of_run(line: Seq<char>, a: int, b: int, k: int)
    requires
        0 <= a <= k <= b <= line.len(),
        forall|i: int| a <= i < b ==> alphanumeric(#[trigger] line[i]) || line[i] == '_',
        a > 0 ==> !(alphanumeric(line[a - 1]) || line[a - 1] == '_'),
    ensures
        word_start(line, k) == a,
    decreases k - a,
{
    if k > a {
        assert(word_char(line[k - 1]));
        lemma_start_of_run(line, a, b, k - 1);
    }
}

proof fn lemma_end_of_run(line: Seq<char>, a: int, b: int, k: int)
    requires
        0 <= a <= k <= b <= line.len(),
        forall|i: int| a <= i < b ==> alphanumeric(#[trigger] line[i]) || line[i] == '_',
        b < line.len() ==> !(alphanumeric(line[b]) || line[b] == '_'),
    ensures
        word_end(line, k) == b,
    decreases b - k,
{
    if k < b {
        assert(word_char(line[k]));
        lemma_end_of_run(line, a, b, k + 1);
    }
}

/// In a document, the word at a place inside an identifier of its line is
/// that whole identifier.
pub proof fn law_word_at_is_whole_identifier(document: Seq<char>, position: Position, a: int, b: int)
    requires
        position.line < lines(document).len(),
        ({
            let line = lines(document)[position.line as int];
            &&& position.character <= encode_utf8(line).len()
            &&& 0 <= a <= position.character <= b <= line.len()
            &&& a < b
            &&& forall|i: int| a <= i < b ==> alphanumeric(#[trigger] line[i]) || line[i] == '_'
            &&& a > 0 ==> !(alphanumeric(line[a - 1]) || line[a - 1] == '_')
            &&& b < line.len() ==> !(alphanumeric(line[b]) || line[b] == '_')
        }),
    ensures
        word_at(document, position) == Some(
            decode_utf8(encode_utf8(lines(document)[position.line as int]).subrange(a, b)),
        ),
{
    let line = lines(document)[position.line as int];
    law_word_is_whole_identifier(line, a, b, position.character as int);
}

/// The number of characters of a text does not exceed its UTF-8 length.
proof fn lemma_chars_within_bytes(chars: Seq<char>)
    ensures
        chars.len() <= encode_utf8(chars).len(),
    decreases chars.len(),
{
    if chars.len() > 0 {
        vstd::utf8::encode_utf8_first_scalar(chars);
        lemma_chars_within_bytes(chars.drop_first());
        assert(vstd::utf8::pop_first_scalar(encode_utf8(chars)) =~= encode_utf8(chars.drop_first()));
    }
}

/// Cuts bytes `[s, e)` out of a string at character boundaries.
fn cut(text: &str, s: usize, e: usize) -> (r: String)
    requires
        s <= e <= text.spec_bytes().len(),
        is_char_boundary(text.spec_bytes(), s as int),
        is_char_boundary(text.spec_bytes(), e as int),
    ensures
        r@ == decode_utf8(text.spec_bytes().subrange(s as int, e as int)),
{
    let ghost b = text.spec_bytes();
    proof {
        vstd::utf8::encode_utf8_valid_utf8(text@);
        vstd::utf8::valid_utf8_split(b, s as int);
    }
    let (_head, rest) = text.split_at(s);
    let ghost rb = rest.spec_bytes();
    proof {
        assert(rb =~= b.subrange(s as int, b.len() as int));
        assert(valid_utf8(rb));
        let d = e - s;
        if d == 0 {
        } else if e as int == b.len() {
            vstd::utf8::is_char_boundary_start_end_of_seq(rb);
        } else {
            vstd::utf8::is_char_boundary_iff_not_is_continuation_byte(b, e as int);
            vstd::utf8::is_char_boundary_iff_not_is_continuation_byte(rb, d as int);
            assert(rb[d as int] == b[e as int]);
        }
    }
    let (word, _tail) = rest.split_at(e - s);
    proof {
        assert(word.spec_bytes() =~= b.subrange(s as int, e as int));
        vstd::utf8::encode_utf8_decode_utf8(word@);
    }
    owned(word)
}

/// The lines of a document, each as a string.
fn document_lines(document: &str) -> (r: Vec<String>)
    ensures
        r@.len() == lines(document@).len(),
        forall|i: int| 0 <= i < r@.len() ==> #[trigger] r@[i]@ == lines(document@)[i],
{
    let cs = chars_of(document);
    let ls = split_lines(cs.as_slice());
    let mut r: Vec<String> = Vec::new();
    let mut i: usize = 0;
    while i < ls.len()
        invariant
            i <= ls@.len(),
            ls@.len() == lines(document@).len(),
            forall|j: int| 0 <= j < ls@.len() ==> #[trigger] ls@[j]@ == lines(document@)[j],
            r@.len() == i,
            forall|j: int| 0 <= j < i ==> #[trigger] r@[j]@ == lines(document@)[j],
        decreases ls@.len() - i,
    {
        r.push(string_of(ls[i].as_slice()));
        i += 1;
    }
    r
}

/// Whether a character belongs to a word.
fn is_word_char(c: char) -> (r: bool)
    ensures
        r == word_char(c),
{
    is_alphanumeric(c) || c == '_'
}

/// The word at a place in a document.
pub fn get_word_at_position(document: &str, position: Position) -> (r: Option<String>)
    requires
        word_cut_defined(document@, position),
    ensures
        match r {
            Some(w) => word_at(document@, position) == Some(w@),
            None => word_at(document@, position) is None,
        },
{
    let ls = document_lines(document);
    let idx = position.line as usize;
    if idx >= ls.len() {
        return None;
    }
    let line = ls[idx].as_str();
    assert(line@ == lines(document@)[idx as int]);
    assert(line.spec_bytes() == encode_utf8(line@));
    let k = position.character as usize;
    let blen = line.as_bytes().len();
    if k > blen {
        return None;
    }
    let cs = chars_of(line);
    proof {
        lemma_chars_within_bytes(line@);
    }
    let mut s: usize = k;
    while s > 0 && s - 1 < cs.len() && is_word_char(cs[s - 1])
        invariant
            s <= k,
            cs@ == line@,
            word_start(line@, k as int) == word_start(line@, s as int),
        decreases s,
    {
        s -= 1;
    }
    let mut e: usize = k;
    while e < cs.len() && is_word_char(cs[e])
        invariant
            k <= e,
            e <= cs@.len() || e == k,
            cs@ == line@,
            word_end(line@, k as int) == word_end(line@, e as int),
        decreases cs@.len() - e,
    {
        e += 1;
    }
    if s == e {
        return None;
    }
    proof {
        lemma_word_bounds(line@, k as int);
        assert(s < e);
        assert(e <= cs@.len());
    }
    Some(cut(line, s, e))
}

/// The text of a line before a place: empty past the last line, the whole
/// line when the place is past its end (in bytes), else its bytes up to
/// the place.
pub open spec fn text_before(document: Seq<char>, position: Position) -> Seq<char> {
    let ls = lines(document);
    if position.line >= ls.len() {
        seq![]
    } else {
        let line = ls[position.line as int];
        let bytes = encode_utf8(line);
        if position.character > bytes.len() {
            line
        } else {
            decode_utf8(bytes.subrange(0, position.character as int))
        }
    }
}

/// The line of a place can be cut at the place: the place is where a
/// character starts (else the cut would fail).
pub open spec fn cut_before_defined(document: Seq<char>, position: Position) -> bool {
    let ls = lines(document);
    position.line < ls.len() && position.character <= encode_utf8(ls[position.line as int]).len()
        ==> is_char_boundary(encode_utf8(ls[position.line as int]), position.character as int)
}

/// The text of the line before a place.
pub fn get_context_before_position(document: &str, position: Position) -> (r: String)
    requires
        cut_before_defined(document@, position),
    ensures
        r@ == text_before(document@, position),
{
    let ls = document_lines(document);
    let idx = position.line as usize;
    if idx >= ls.len() {
        return String::new();
    }
    let line = ls[idx].as_str();
    assert(line@ == lines(document@)[idx as int]);
    assert(line.spec_bytes() == encode_utf8(line@));
    let k = position.character as usize;
    let blen = line.as_bytes().len();
    if k > blen {
        return owned(line);
    }
    proof {
        vstd::utf8::encode_utf8_valid_utf8(line@);
        vstd::utf8::is_char_boundary_start_end_of_seq(line.spec_bytes());
    }
    cut(line, 0, k)
}

/// The lines within `context_lines` of a place, joined by newlines.
pub open spec fn text_around(document: Seq<char>, position: Position, context_lines: u32) -> Seq<char> {
    let ls = lines(document);
    let start = if position.line >= context_lines { position.line - context_lines } else { 0 };
    let end = if position.line + context_lines + 1 < ls.len() {
        position.line + context_lines + 1
    } else {
        ls.len() as int
    };
    join(ls.subrange(start, end), "\n"@)
}

/// The lines within `context_lines` of a place, joined by newlines. The
/// place must not lie further below the last line than the context reaches.
pub fn get_context_around_position(document: &str, position: Position, context_lines: u32) -> (r: String)
    requires
        position.line - context_lines <= lines(document@).len(),
        position.line + context_lines + 1 <= usize::MAX,
    ensures
        r@ == text_around(document@, position, context_lines),
{
    let ls = document_lines(document);
    let line = position.line as usize;
    let n = context_lines as usize;
    let start = if line >= n { line - n } else { 0 };
    let end = if line + n + 1 < ls.len() { line + n + 1 } else { ls.len() };
    let ghost parts = lines(document@).subrange(start as int, end as int);
    let mut r = String::new();
    let mut i: usize = start;
    while i < end
        invariant
            start <= i <= end <= ls@.len(),
            ls@.len() == lines(document@).len(),
            forall|j: int| 0 <= j < ls@.len() ==> #[trigger] ls@[j]@ == lines(document@)[j],
            parts == lines(document@).subrange(start as int, end as int),
            r@ == join(parts.take(i - start), "\n"@),
        decreases end - i,
    {
        let ghost before = parts.take(i - start);
        if i > start {
            append_str(&mut r, "\n");
        }
        append_str(&mut r, ls[i].as_str());
        proof {
            let after = parts.take(i + 1 - start);
            assert(after.drop_last() =~= before);
            assert(after.last() == ls@[i as int]@);
            if i == start {
                assert(r@ =~= join(after, "\n"@));
            } else {
                assert(r@ =~= join(after, "\n"@));
            }
        }
        i += 1;
    }
    assert(parts.take(end - start) =~= parts);
    r
}

/// A place flagged in a document without the model's help.
#[derive(Clone, Copy, Debug, PartialEq, Eq, Structural)]
pub struct TodoMarker {
    pub range: Range,
}

/// `pat` occurs in `bytes` at offset `i`.
pub open spec fn occurs_in(bytes: Seq<u8>, pat: Seq<u8>, i: int) -> bool {
    0 <= i && i + pat.len() <= bytes.len() && bytes.subrange(i, i + pat.len()) == pat
}

/// The byte offset at which `pat` first occurs in `bytes`, if it does.
#[verifier::opaque]
pub open spec fn first_at(bytes: Seq<u8>, pat: Seq<u8>) -> Option<int> {
    if exists|i: int| #[trigger] occurs_in(bytes, pat, i) {
        Some(choose|i: int| #[trigger] occurs_in(bytes, pat, i) && forall|j: int| 0 <= j < i ==> !occurs_in(bytes, pat, j))
    } else {
        None
    }
}

/// The bytes of `TODO`.
pub open spec fn todo_bytes() -> Seq<u8> {
    seq![84u8, 79u8, 68u8, 79u8]
}

/// The TODO markers of a document: on each line whose bytes contain
/// `TODO`, the four bytes of its first occurrence (line numbers and
/// offsets taken modulo 2^32, as the editor's positions are 32-bit).
pub open spec fn todo_markers(document: Seq<char>) -> Seq<TodoMarker>
{
    let ls = lines(document);
    todo_markers_of(ls, ls.len())
}

/// The TODO markers of the first `n` lines.
#[verifier::opaque]
pub open spec fn todo_markers_of(ls: Seq<Seq<char>>, n: nat) -> Seq<TodoMarker>
    decreases n,
{
    if n == 0 {
        seq![]
    } else {
        let p = todo_markers_of(ls, (n - 1) as nat);
        match first_at(encode_utf8(ls[n - 1]), todo_bytes()) {
            Some(at) => p.push(
                TodoMarker {
                    range: Range {
                        start: Position { line: (n - 1) as u32, character: at as u32 },
                        end: Position { line: (n - 1) as u32, character: (at + 4) as u32 },
                    },
                },
            ),
            None => p,
        }
    }
}

proof fn lemma_markers_step(ls: Seq<Seq<char>>, n: nat)
    ensures
        todo_markers_of(ls, n + 1) == match first_at(encode_utf8(ls[n as int]), todo_bytes()) {
            Some(at) => todo_markers_of(ls, n).push(
                TodoMarker {
                    range: Range {
                        start: Position { line: n as u32, character: at as u32 },
                        end: Position { line: n as u32, character: (at + 4) as u32 },
                    },
                },
            ),
            None => todo_markers_of(ls, n),
        },
{
    reveal(todo_markers_of);
}

/// Where `TODO` first occurs in `bytes`.
fn find_todo(bytes: &[u8]) -> (r: Option<usize>)
    ensures
        match r {
            Some(i) => first_at(bytes@, todo_bytes()) == Some(i as int) && i + 4 <= bytes@.len(),
            None => first_at(bytes@, todo_bytes()) is None,
        },
{
    let mut i: usize = 0;
    while bytes.len() >= 4 && i <= bytes.len() - 4
        invariant
            forall|j: int| 0 <= j < i ==> !occurs_in(bytes@, todo_bytes(), j),
        decreases bytes@.len() - i,
    {
        if bytes[i] == 84u8 && bytes[i + 1] == 79u8 && bytes[i + 2] == 68u8 && bytes[i + 3] == 79u8 {
            proof {
                assert(bytes@.subrange(i as int, i + 4) =~= todo_bytes());
                assert(occurs_in(bytes@, todo_bytes(), i as int));
                let c = choose|c: int| #[trigger] occurs_in(bytes@, todo_bytes(), c) && forall|j: int| 0 <= j < c ==> !occurs_in(bytes@, todo_bytes(), j);
                assert(occurs_in(bytes@, todo_bytes(), c) && forall|j: int| 0 <= j < c ==> !occurs_in(bytes@, todo_bytes(), j));
                if c < i {
                } else if c > i {
                    assert(!occurs_in(bytes@, todo_bytes(), i as int));
                }
            }
            proof {
                reveal(first_at);
            }
            assert(first_at(bytes@, todo_bytes()) == Some(i as int));
            return Some(i);
        }
        proof {
            if occurs_in(bytes@, todo_bytes(), i as int) {
                let sub = bytes@.subrange(i as int, i + 4);
                assert(sub[0] == bytes@[i as int]);
                assert(sub[1] == bytes@[i + 1]);
                assert(sub[2] == bytes@[i + 2]);
                assert(sub[3] == bytes@[i + 3]);
            }
        }
        i += 1;
    }
    proof {
        reveal(first_at);
        assert forall|j: int| !#[trigger] occurs_in(bytes@, todo_bytes(), j) by {
            if j >= i {
            }
        }
    }
    None
}

/// The TODO markers of a document, one per line that has `TODO`.
pub fn fallback_diagnostics(document: &str) -> (r: Vec<TodoMarker>)
    ensures
        r@ == todo_markers(document@),
{
    let ls = document_lines(document);
    let mut r: Vec<TodoMarker> = Vec::new();
    proof {
        reveal(todo_markers_of);
    }
    let mut i: usize = 0;
    while i < ls.len()
        invariant
            i <= ls@.len(),
            ls@.len() == lines(document@).len(),
            forall|j: int| 0 <= j < ls@.len() ==> #[trigger] ls@[j]@ == lines(document@)[j],
            r@ == todo_markers_of(lines(document@), i as nat),
        decreases ls@.len() - i,
    {
        let line = ls[i].as_str();
        let bytes = line.as_bytes();
        let blen = bytes.len();
        let ghost ln_chars = lines(document@)[i as int];
        assert(bytes@ == encode_utf8(ln_chars));
        let ghost prev = r@;
        match find_todo(bytes) {
            Some(at) => {
                assert(at + 4 <= blen);
                #[verifier::truncate]
                let ln = i as u32;
                #[verifier::truncate]
                let a = at as u32;
                #[verifier::truncate]
                let b = (at as u64 + 4) as u32;
                let m = TodoMarker {
                    range: Range { start: Position { line: ln, character: a }, end: Position { line: ln, character: b } },
                };
                r.push(m);
                proof {
                    assert(first_at(encode_utf8(ln_chars), todo_bytes()) == Some(at as int));
                    assert(b == (at + 4) as u32) by (bit_vector)
                        requires
                            b == (at as u64 + 4) as u32;
                    lemma_markers_step(lines(document@), i as nat);
                    assert(todo_markers_of(lines(document@), (i + 1) as nat) == prev.push(m));
                }
            },
            None => {
                proof {
                    lemma_markers_step(lines(document@), i as nat);
                }
            },
        }
        i += 1;
    }
    r
}

/// What kind of completion an item is.
#[derive(Clone, Copy, Debug, PartialEq, Eq, Structural)]
pub enum CompletionKind {
    /// Plain text suggested by the model.
    Text,
    /// A snippet with placeholders.
    Snippet,
}

/// One completion offered to the editor.
#[derive(Debug)]
pub struct CompletionSuggestion {
    pub label: String,
    pub kind: CompletionKind,
    pub detail: String,
    pub documentation: Option<String>,
    pub insert_text: String,
    pub sort_text: Option<String>,
    pub is_snippet: bool,
}

/// The model's completions: for each of the first ten lines of its answer
/// that is not blank, the trimmed line and its index.
pub open spec fn ai_lines(ls: Seq<Seq<char>>, k: nat) -> Seq<(Seq<char>, nat)>
    decreases k,
{
    if k == 0 {
        seq![]
    } else {
        let p = ai_lines(ls, (k - 1) as nat);
        let t = trim(ls[k - 1]);
        if t.len() > 0 {
            p.push((t, (k - 1) as nat))
        } else {
            p
        }
    }
}

/// The index of a suggestion as two digits.
pub open spec fn two_digits(i: nat) -> Seq<char> {
    seq![digit_char(i / 10), digit_char(i % 10)]
}

/// `item` is the model's suggestion `text`, sorted by `index`.
pub open spec fn ai_item(item: CompletionSuggestion, text: Seq<char>, index: nat) -> bool {
    &&& item.label@ == text
    &&& item.kind == CompletionKind::Text
    &&& item.detail@ == "AI Suggestion"@
    &&& item.documentation matches Some(d) && d@ == "AI-generated suggestion: "@ + text
    &&& item.insert_text@ == text
    &&& item.sort_text matches Some(st) && st@ == two_digits(index)
    &&& !item.is_snippet
}

/// The number of lines the model's answer is read for.
pub open spec fn ai_line_count(generated: Seq<char>) -> nat {
    if lines(generated).len() < 10 {
        lines(generated).len()
    } else {
        10
    }
}

/// Turns the model's answer into completions, one per non-blank line among
/// its first ten.
pub fn ai_completions(generated: &str) -> (r: Vec<CompletionSuggestion>)
    ensures
        r@.len() == ai_lines(lines(generated@), ai_line_count(generated@)).len(),
        forall|j: int| 0 <= j < r@.len() ==> {
            let p = ai_lines(lines(generated@), ai_line_count(generated@))[j];
            ai_item(#[trigger] r@[j], p.0, p.1)
        },
{
    let cs = chars_of(generated);
    let ls = split_lines(cs.as_slice());
    let n = if ls.len() < 10 { ls.len() } else { 10 };
    let ghost lv = lines(generated@);
    let mut r: Vec<CompletionSuggestion> = Vec::new();
    let mut i: usize = 0;
    while i < n
        invariant
            n <= ls@.len(),
            n <= 10,
            ls@.len() == lv.len(),
            lv == lines(generated@),
            n == ai_line_count(generated@),
            forall|j: int| 0 <= j < ls@.len() ==> #[trigger] ls@[j]@ == lv[j],
            i <= n,
            r@.len() == ai_lines(lv, i as nat).len(),
            forall|j: int| 0 <= j < r@.len() ==> {
                let p = ai_lines(lv, i as nat)[j];
                ai_item(#[trigger] r@[j], p.0, p.1)
            },
        decreases n - i,
    {
        let t = trim_chars(ls[i].as_slice());
        if t.len() > 0 {
            let text = string_of(t.as_slice());
            let doc = concat("AI-generated suggestion: ", text.as_str());
            let mut st = String::new();
            let tens = i as u64 / 10;
            let ones = i as u64 % 10;
            crate::text::push_decimal(&mut st, tens);
            crate::text::push_decimal(&mut st, ones);
            proof {
                reveal_with_fuel(crate::text::decimal_digits, 2);
                assert(st@ =~= two_digits(i as nat));
            }
            let item = CompletionSuggestion {
                label: text.clone(),
                kind: CompletionKind::Text,
                detail: owned("AI Suggestion"),
                documentation: Some(doc),
                insert_text: text,
                sort_text: Some(st),
                is_snippet: false,
            };
            let ghost prev = r@;
            r.push(item);
            proof {
                assert(ai_lines(lv, (i + 1) as nat) == ai_lines(lv, i as nat).push((trim(lv[i as int]), i as nat)));
                assert forall|j: int| 0 <= j < r@.len() implies {
                    let p = ai_lines(lv, (i + 1) as nat)[j];
                    ai_item(#[trigger] r@[j], p.0, p.1)
                } by {
                    if j < prev.len() {
                        assert(r@[j] == prev[j]);
                    }
                }
            }
        }
        i += 1;
    }
    r
}

/// The built-in snippets for a language: label, description and text.
pub open spec fn fallback_table(language: Seq<char>) -> Seq<(Seq<char>, Seq<char>, Seq<char>)> {
    if language == "javascript"@ || language == "typescript"@ || language == "jsx"@ || language == "tsx"@ {
        seq![
            ("function"@, "Create a new function"@, "function ${1:name}(${2:params}) {\n\t${0}\n}"@),
            ("class"@, "Create a new class"@, "class ${1:Name} {\n\tconstructor(${2:params}) {\n\t\t${0}\n\t}\n}"@),
            ("if"@, "Create an if statement"@, "if (${1:condition}) {\n\t${0}\n}"@),
        ]
    } else if language == "rust"@ {
        seq![
            ("fn"@, "Create a new function"@, "fn ${1:name}(${2:params}) ${3:-> ReturnType} {\n\t${0}\n}"@),
            ("struct"@, "Create a new struct"@, "struct ${1:Name} {\n\t${0}\n}"@),
            ("impl"@, "Create an impl block"@, "impl ${1:Name} {\n\t${0}\n}"@),
        ]
    } else if language == "python"@ {
        seq![
            ("def"@, "Create a new function"@, "def ${1:name}(${2:params}):\n\t${0}"@),
            ("class"@, "Create a new class"@, "class ${1:Name}:\n\tdef __init__(self${2:, params}):\n\t\t${0}"@),
            ("if"@, "Create an if statement"@, "if ${1:condition}:\n\t${0}"@),
        ]
    } else {
        seq![("if"@, "Create an if statement"@, "if ${1:condition} {\n\t${0}\n}"@)]
    }
}

/// `item` is the built-in snippet `entry`.
pub open spec fn snippet_item(item: CompletionSuggestion, entry: (Seq<char>, Seq<char>, Seq<char>)) -> bool {
    &&& item.label@ == entry.0
    &&& item.kind == CompletionKind::Snippet
    &&& item.detail@ == entry.1
    &&& item.documentation is None
    &&& item.insert_text@ == entry.2
    &&& item.sort_text is None
    &&& item.is_snippet
}

fn snippet(label: &str, detail: &str, text: &str) -> (r: CompletionSuggestion)
    ensures
        snippet_item(r, (label@, detail@, text@)),
{
    CompletionSuggestion {
        label: owned(label),
        kind: CompletionKind::Snippet,
        detail: owned(detail),
        documentation: None,
        insert_text: owned(text),
        sort_text: None,
        is_snippet: true,
    }
}

/// The built-in snippets for a language.
pub fn fallback_completions(language: &str) -> (r: Vec<CompletionSuggestion>)
    ensures
        r@.len() == fallback_table(language@).len(),
        forall|j: int| 0 <= j < r@.len() ==> snippet_item(#[trigger] r@[j], fallback_table(language@)[j]),
{
    let lc = chars_of(language);
    let js = crate::text::str_equals(language, "javascript") || crate::text::str_equals(language, "typescript")
        || crate::text::str_equals(language, "jsx") || crate::text::str_equals(language, "tsx");
    if js {
        let r = vec![
            snippet("function", "Create a new function", "function ${1:name}(${2:params}) {\n\t${0}\n}"),
            snippet("class", "Create a new class", "class ${1:Name} {\n\tconstructor(${2:params}) {\n\t\t${0}\n\t}\n}"),
            snippet("if", "Create an if statement", "if (${1:condition}) {\n\t${0}\n}"),
        ];
        return r;
    }
    if crate::text::str_equals(language, "rust") {
        let r = vec![
            snippet("fn", "Create a new function", "fn ${1:name}(${2:params}) ${3:-> ReturnType} {\n\t${0}\n}"),
            snippet("struct", "Create a new struct", "struct ${1:Name} {\n\t${0}\n}"),
            snippet("impl", "Create an impl block", "impl ${1:Name} {\n\t${0}\n}"),
        ];
        return r;
    }
    if crate::text::str_equals(language, "python") {
        let r = vec![
            snippet("def", "Create a new function", "def ${1:name}(${2:params}):\n\t${0}"),
            snippet("class", "Create a new class", "class ${1:Name}:\n\tdef __init__(self${2:, params}):\n\t\t${0}"),
            snippet("if", "Create an if statement", "if ${1:condition}:\n\t${0}"),
        ];
        return r;
    }
    vec![snippet("if", "Create an if statement", "if ${1:condition} {\n\t${0}\n}")]
}

/// The completions offered: the model's (or, if it failed, the built-in
/// ones), then the built-in ones, at most twenty.
pub fn completion_list(ai: Option<Vec<CompletionSuggestion>>, language: &str) -> (r: Vec<CompletionSuggestion>)
    ensures
        ({
            let first = match ai {
                Some(v) => v@,
                None => Seq::empty(),
            };
            let all_len = first.len() + fallback_table(language@).len() * if ai is Some { 1int } else { 2int };
            &&& r@.len() == if all_len < 20 { all_len } else { 20 }
            &&& forall|j: int| 0 <= j < r@.len() && j < first.len() ==> #[trigger] r@[j] == first[j]
        }),
{
    let mut items = match ai {
        Some(v) => v,
        None => fallback_completions(language),
    };
    let ghost first = items@;
    let mut more = fallback_completions(language);
    items.append(&mut more);
    if items.len() > 20 {
        items.truncate(20);
    }
    items
}

/// The hover text when the model cannot help.
pub open spec fn fallback_hover(word: Seq<char>) -> Seq<char> {
    "**"@ + word + "**\n\nAuto-Coder can provide more information about this code. Use the command palette to analyze or explain this code."@
}

/// The hover text when the model cannot help.
pub fn fallback_hover_text(word: &str) -> (r: String)
    ensures
        r@ == fallback_hover(word@),
{
    let parts = [
        "**",
        word,
        "**\n\nAuto-Coder can provide more information about this code. Use the command palette to analyze or explain this code.",
    ];
    let r = concat_parts(&parts);
    proof {
        reveal_with_fuel(concat_views, 4);
    }
    r
}

/// The hover text made of the model's explanation.
pub fn ai_hover_text(word: &str, explanation: &str) -> (r: String)
    ensures
        r@ == "**"@ + word@ + "**\n\n"@ + explanation@,
{
    let parts = ["**", word, "**\n\n", explanation];
    let r = concat_parts(&parts);
    proof {
        reveal_with_fuel(concat_views, 5);
    }
    r
}

/// What the model is asked for hover text.
pub open spec fn hover_prompt(word: Seq<char>, context: Seq<char>, language: Seq<char>) -> Seq<char> {
    "Explain the "@ + language + " identifier '"@ + word
        + "' in the following context. Provide a concise explanation suitable for an IDE hover tooltip:\n\n```"@
        + language + "\n"@ + context + "\n```\n\nFocus on what '"@ + word + "' is, its purpose, and relevant details."@
}

/// What the model is asked for hover text.
pub fn hover_prompt_text(word: &str, context: &str, language: &str) -> (r: String)
    ensures
        r@ == hover_prompt(word@, context@, language@),
{
    let parts = [
        "Explain the ",
        language,
        " identifier '",
        word,
        "' in the following context. Provide a concise explanation suitable for an IDE hover tooltip:\n\n```",
        language,
        "\n",
        context,
        "\n```\n\nFocus on what '",
        word,
        "' is, its purpose, and relevant details.",
    ];
    let r = concat_parts(&parts);
    proof {
        reveal_with_fuel(concat_views, 12);
        assert(r@ =~= hover_prompt(word@, context@, language@));
    }
    r
}

/// What the model is asked for completions, by the character that
/// triggered them.
pub open spec fn completion_prompt(context: Seq<char>, language: Seq<char>, trigger: Option<Seq<char>>) -> Seq<char> {
    let ask = if trigger == Some("."@) {
        "suggest appropriate method/property completions after the dot"@
    } else if trigger == Some(":"@) {
        "suggest appropriate type or namespace completions after the colon"@
    } else {
        "suggest appropriate code completions"@
    };
    let ending = if trigger == Some("."@) || trigger == Some(":"@) {
        "Return a list of completions with descriptions."@
    } else {
        "Return a list of relevant completions with descriptions."@
    };
    "Given this "@ + language + " code context, "@ + ask + ":\n\n```"@ + language + "\n"@ + context + "\n```\n\n"@ + ending
}

/// What the model is asked for completions.
pub fn completion_prompt_text(context: &str, language: &str, trigger: Option<&str>) -> (r: String)
    ensures
        r@ == completion_prompt(context@, language@, match trigger {
            Some(t) => Some(t@),
            None => None,
        }),
{
    let (ask, ending) = match trigger {
        Some(t) => {
            if crate::text::str_equals(t, ".") {
                ("suggest appropriate method/property completions after the dot", "Return a list of completions with descriptions.")
            } else if crate::text::str_equals(t, ":") {
                ("suggest appropriate type or namespace completions after the colon", "Return a list of completions with descriptions.")
            } else {
                ("suggest appropriate code completions", "Return a list of relevant completions with descriptions.")
            }
        },
        None => ("suggest appropriate code completions", "Return a list of relevant completions with descriptions."),
    };
    let parts = ["Given this ", language, " code context, ", ask, ":\n\n```", language, "\n", context, "\n```\n\n", ending];
    let r = concat_parts(&parts);
    proof {
        reveal_with_fuel(concat_views, 11);
        assert(r@ =~= completion_prompt(context@, language@, match trigger {
            Some(t) => Some(t@),
            None => None,
        }));
    }
    r
}

/// What kind of code action an offered action is.
#[derive(Clone, Copy, Debug, PartialEq, Eq, Structural)]
pub enum ActionKind {
    QuickFix,
    Source,
}

/// A code action offered for an open document: its title, the command it
/// runs (with the command's title), its kind, and the diagnostic it fixes (by its index among those
/// given), if any.
#[derive(Debug)]
pub struct CodeActionPlan {
    pub title: String,
    pub command_title: String,
    pub command: String,
    pub kind: ActionKind,
    pub diagnostic: Option<usize>,
}

/// The code actions offered: for each diagnostic, in order, a quick fix
/// titled `Fix: ` and its message that runs the fix command on it; then the
/// source actions that analyse and explain the code.
pub fn code_actions(diagnostic_messages: &Vec<String>) -> (r: Vec<CodeActionPlan>)
    ensures
        r@.len() == diagnostic_messages@.len() + 2,
        forall|j: int| 0 <= j < diagnostic_messages@.len() ==> {
            let a = #[trigger] r@[j];
            &&& a.title@ == "Fix: "@ + diagnostic_messages@[j]@
            &&& a.command_title@ == "Fix Error"@
            &&& a.command@ == "auto-coder.fixError"@
            &&& a.kind == ActionKind::QuickFix
            &&& a.diagnostic == Some(j as usize)
        },
        r@[r@.len() - 2].title@ == "Analyze Code"@,
        r@[r@.len() - 2].command_title@ == "Analyze Code"@,
        r@[r@.len() - 2].command@ == "auto-coder.analyzeCode"@,
        r@[r@.len() - 2].kind == ActionKind::Source,
        r@[r@.len() - 2].diagnostic is None,
        r@[r@.len() - 1].title@ == "Explain Code"@,
        r@[r@.len() - 1].command_title@ == "Explain Code"@,
        r@[r@.len() - 1].command@ == "auto-coder.explainCode"@,
        r@[r@.len() - 1].kind == ActionKind::Source,
        r@[r@.len() - 1].diagnostic is None,
{
    let mut r: Vec<CodeActionPlan> = Vec::new();
    let mut i: usize = 0;
    while i < diagnostic_messages.len()
        invariant
            i <= diagnostic_messages@.len(),
            r@.len() == i,
            forall|j: int| 0 <= j < i ==> {
                let a = #[trigger] r@[j];
                &&& a.title@ == "Fix: "@ + diagnostic_messages@[j]@
                &&& a.command_title@ == "Fix Error"@
                &&& a.command@ == "auto-coder.fixError"@
                &&& a.kind == ActionKind::QuickFix
                &&& a.diagnostic == Some(j as usize)
            },
        decreases diagnostic_messages@.len() - i,
    {
        r.push(CodeActionPlan {
            title: concat("Fix: ", diagnostic_messages[i].as_str()),
            command_title: owned("Fix Error"),
            command: owned("auto-coder.fixError"),
            kind: ActionKind::QuickFix,
            diagnostic: Some(i),
        });
        i += 1;
    }
    r.push(CodeActionPlan {
        title: owned("Analyze Code"),
        command_title: owned("Analyze Code"),
        command: owned("auto-coder.analyzeCode"),
        kind: ActionKind::Source,
        diagnostic: None,
    });
    r.push(CodeActionPlan {
        title: owned("Explain Code"),
        command_title: owned("Explain Code"),
        command: owned("auto-coder.explainCode"),
        kind: ActionKind::Source,
        diagnostic: None,
    });
    r
}


/// What a command from the editor does.
#[derive(Debug)]
pub enum CommandReply {
    /// Analyse the document at the given address, if it is open.
    Analyze,
    /// Tell the user the named work is under way.
    Inform { message: String },
    /// Log that the command is not known.
    Unknown { message: String },
}

/// How the server answers a command.
pub fn command_reply(command: &str) -> (r: CommandReply)
    ensures
        command@ == "auto-coder.analyzeCode"@ ==> r is Analyze,
        command@ == "auto-coder.fixError"@ ==> (r matches CommandReply::Inform { message } && message@ == "Fixing error..."@),
        command@ == "auto-coder.explainCode"@ ==> (r matches CommandReply::Inform { message } && message@ == "Explaining code..."@),
        command@ == "auto-coder.generateCode"@ ==> (r matches CommandReply::Inform { message } && message@ == "Generating code..."@),
        command@ != "auto-coder.analyzeCode"@ && command@ != "auto-coder.fixError"@ && command@ != "auto-coder.explainCode"@
            && command@ != "auto-coder.generateCode"@ ==> (r matches CommandReply::Unknown { message } && message@
            == "Unknown command: "@ + command@),
{
    proof {
        reveal_strlit("auto-coder.analyzeCode");
        reveal_strlit("auto-coder.fixError");
        reveal_strlit("auto-coder.explainCode");
        reveal_strlit("auto-coder.generateCode");
        assert("auto-coder.fixError"@.len() != "auto-coder.analyzeCode"@.len());
        assert("auto-coder.explainCode"@[11] != "auto-coder.analyzeCode"@[11]);
        assert("auto-coder.explainCode"@.len() != "auto-coder.fixError"@.len());
        assert("auto-coder.generateCode"@.len() != "auto-coder.analyzeCode"@.len());
        assert("auto-coder.generateCode"@.len() != "auto-coder.fixError"@.len());
        assert("auto-coder.generateCode"@.len() != "auto-coder.explainCode"@.len());
    }
    if crate::text::str_equals(command, "auto-coder.analyzeCode") {
        CommandReply::Analyze
    } else if crate::text::str_equals(command, "auto-coder.fixError") {
        CommandReply::Inform { message: owned("Fixing error...") }
    } else if crate::text::str_equals(command, "auto-coder.explainCode") {
        CommandReply::Inform { message: owned("Explaining code...") }
    } else if crate::text::str_equals(command, "auto-coder.generateCode") {
        CommandReply::Inform { message: owned("Generating code...") }
    } else {
        CommandReply::Unknown { message: concat("Unknown command: ", command) }
    }
}

/// The MD5 digest of a byte sequence (`md5::compute`): sixteen bytes.
pub uninterp spec fn md5_of(bytes: Seq<u8>) -> Seq<u8>;

/// Computes the MD5 digest of `bytes` with `md5::compute`. The digest is
/// named, not described; that it has sixteen bytes is the type's.
#[verifier::external_body]
fn md5_digest(bytes: &[u8]) -> (r: Vec<u8>)
    ensures
        r@ == md5_of(bytes@),
        r@.len() == 16,
{
    md5::compute(bytes).0.to_vec()
}

/// Bytes in lowercase hexadecimal, two digits each.
pub open spec fn hex_pairs(bytes: Seq<u8>) -> Seq<char>
    decreases bytes.len(),
{
    if bytes.len() == 0 {
        seq![]
    } else {
        hex_pairs(bytes.drop_last()) + seq![
            digit_char((bytes.last() / 16) as nat),
            digit_char((bytes.last() % 16) as nat),
        ]
    }
}

fn hex_digit(d: u8) -> (c: char)
    requires
        d < 16,
    ensures
        c == digit_char(d as nat),
{
    if d == 0 { '0' } else if d == 1 { '1' } else if d == 2 { '2' } else if d == 3 { '3' }
    else if d == 4 { '4' } else if d == 5 { '5' } else if d == 6 { '6' } else if d == 7 { '7' }
    else if d == 8 { '8' } else if d == 9 { '9' } else if d == 10 { 'a' } else if d == 11 { 'b' }
    else if d == 12 { 'c' } else if d == 13 { 'd' } else if d == 14 { 'e' } else { 'f' }
}

/// The key under which an analysis of a document's text is cached: the
/// document's address, an underscore, and the MD5 digest of the text in
/// hexadecimal.
pub open spec fn analysis_key(uri: Seq<char>, text: Seq<char>) -> Seq<char> {
    uri + "_"@ + hex_pairs(md5_of(encode_utf8(text)))
}

/// The cache key of an analysis of `text` at `uri`.
pub fn analysis_cache_key(uri: &str, text: &str) -> (r: String)
    ensures
        r@ == analysis_key(uri@, text@),
{
    let d = md5_digest(text.as_bytes());
    let mut cs: Vec<char> = Vec::new();
    let mut i: usize = 0;
    while i < d.len()
        invariant
            i <= d@.len(),
            cs@ == hex_pairs(d@.take(i as int)),
        decreases d@.len() - i,
    {
        let b = d[i];
        cs.push(hex_digit(b / 16));
        cs.push(hex_digit(b % 16));
        assert(d@.take(i + 1).drop_last() =~= d@.take(i as int));
        assert(cs@ =~= hex_pairs(d@.take(i + 1)));
        i += 1;
    }
    assert(d@.take(d@.len() as int) =~= d@);
    let mut r = concat(uri, "_");
    let h = string_of(cs.as_slice());
    append_str(&mut r, h.as_str());
    r
}

/// A cached analysis and when it was made, in milliseconds.
pub struct CachedAnalysis {
    pub result: CodeAnalysisResponse,
    pub stored_at_ms: u64,
}

/// The cache of analyses, each kept for a time to live.
pub struct AIResponseCache {
    pub entries: StrMap<CachedAnalysis>,
    pub ttl_ms: u64,
}

/// An analysis is still fresh at `now_ms`: less than the time to live has
/// passed since it was stored (time before storing counts as none).
pub open spec fn fresh(e: CachedAnalysis, now_ms: u64, ttl_ms: u64) -> bool {
    now_ms.saturating_sub(e.stored_at_ms) < ttl_ms
}

fn copy_analysis(a: &CodeAnalysisResponse) -> (r: CodeAnalysisResponse)
    ensures
        r.analysis == a.analysis,
        r.suggestions@ == a.suggestions@,
        r.errors@ == a.errors@,
{
    let mut suggestions: Vec<crate::code_analysis::CodeSuggestion> = Vec::new();
    let mut i: usize = 0;
    while i < a.suggestions.len()
        invariant
            i <= a.suggestions@.len(),
            suggestions@ == a.suggestions@.take(i as int),
        decreases a.suggestions@.len() - i,
    {
        let x = &a.suggestions[i];
        suggestions.push(crate::code_analysis::CodeSuggestion {
            range: x.range,
            suggestion: x.suggestion.clone(),
            description: x.description.clone(),
            severity: x.severity,
        });
        assert(a.suggestions@.take(i + 1) =~= a.suggestions@.take(i as int).push(a.suggestions@[i as int]));
        i += 1;
    }
    assert(a.suggestions@.take(a.suggestions@.len() as int) =~= a.suggestions@);
    let mut errors: Vec<crate::code_analysis::CodeError> = Vec::new();
    let mut j: usize = 0;
    while j < a.errors.len()
        invariant
            j <= a.errors@.len(),
            errors@ == a.errors@.take(j as int),
        decreases a.errors@.len() - j,
    {
        let x = &a.errors[j];
        errors.push(crate::code_analysis::CodeError { range: x.range, message: x.message.clone(), severity: x.severity });
        assert(a.errors@.take(j + 1) =~= a.errors@.take(j as int).push(a.errors@[j as int]));
        j += 1;
    }
    assert(a.errors@.take(a.errors@.len() as int) =~= a.errors@);
    CodeAnalysisResponse { analysis: a.analysis.clone(), suggestions, errors }
}

impl AIResponseCache {
    /// Keys are distinct.
    pub open spec fn wf(&self) -> bool {
        self.entries.wf()
    }

    /// An empty cache keeping analyses for `ttl_seconds`.
    pub fn new(ttl_seconds: u64) -> (r: Self)
        ensures
            r.wf(),
            r.entries@ == Map::<Seq<char>, CachedAnalysis>::empty(),
            r.ttl_ms == crate::query_cache::seconds_to_ms(ttl_seconds),
    {
        AIResponseCache { entries: StrMap::new(), ttl_ms: crate::query_cache::ttl_ms_of(ttl_seconds) }
    }

    /// A copy of the fresh analysis under `key`; a stale one is dropped.
    pub fn get(&mut self, key: &str, now_ms: u64) -> (r: Option<CodeAnalysisResponse>)
        requires
            old(self).wf(),
        ensures
            final(self).wf(),
            final(self).ttl_ms == old(self).ttl_ms,
            old(self).entries@.contains_key(key@) && fresh(old(self).entries@[key@], now_ms, old(self).ttl_ms) ==> (r matches Some(a)
                && a.analysis == old(self).entries@[key@].result.analysis
                && a.suggestions@ == old(self).entries@[key@].result.suggestions@
                && a.errors@ == old(self).entries@[key@].result.errors@)
                && final(self).entries@ == old(self).entries@,
            !(old(self).entries@.contains_key(key@) && fresh(old(self).entries@[key@], now_ms, old(self).ttl_ms)) ==> r is None
                && final(self).entries@ == old(self).entries@.remove(key@),
    {
        match self.entries.get(key) {
            Some(e) => {
                if now_ms.saturating_sub(e.stored_at_ms) < self.ttl_ms {
                    return Some(copy_analysis(&e.result));
                }
                let _ = self.entries.remove(key);
                None
            },
            None => {
                assert(old(self).entries@.remove(key@) =~= old(self).entries@);
                None
            },
        }
    }

    /// Stores an analysis under `key` at `now_ms`.
    pub fn insert(&mut self, key: String, result: CodeAnalysisResponse, now_ms: u64)
        requires
            old(self).wf(),
        ensures
            final(self).wf(),
            final(self).ttl_ms == old(self).ttl_ms,
            final(self).entries@ == old(self).entries@.insert(key@, CachedAnalysis { result, stored_at_ms: now_ms }),
    {
        self.entries.insert(key, CachedAnalysis { result, stored_at_ms: now_ms });
    }

    /// Drops every analysis that is no longer fresh at `now_ms`.
    pub fn cleanup_expired(&mut self, now_ms: u64)
        requires
            old(self).wf(),
        ensures
            final(self).wf(),
            final(self).ttl_ms == old(self).ttl_ms,
            final(self).entries@ == old(self).entries@.remove_keys(crate::keyed::marked_keys(
                old(self).entries.keys(),
                Seq::new(old(self).entries.keys().len(), |i: int| !fresh(old(self).entries.values()[i], now_ms, old(self).ttl_ms)),
            )),
    {
        let n = self.entries.len();
        proof { self.entries.lemma_view(); }
        let mut flags: Vec<bool> = Vec::new();
        let mut i: usize = 0;
        while i < n
            invariant
                self.wf(),
                n == self.entries.keys().len(),
                n == self.entries.values().len(),
                i <= n,
                flags@ == Seq::new(i as nat, |j: int| !fresh(self.entries.values()[j], now_ms, self.ttl_ms)),
            decreases n - i,
        {
            let (_k, e) = self.entries.entry_at(i);
            flags.push(!(now_ms.saturating_sub(e.stored_at_ms) < self.ttl_ms));
            assert(flags@ =~= Seq::new((i + 1) as nat, |j: int| !fresh(self.entries.values()[j], now_ms, self.ttl_ms)));
            i += 1;
        }
        let ks = self.entries.keys_marked(&flags);
        self.entries.remove_all(&ks);
    }
}


/// The path of a document address, as the `url` crate parses it (none when
/// the address does not parse).
pub uninterp spec fn url_path(uri: Seq<char>) -> Option<Seq<char>>;

/// Parses a document address with `url::Url::parse` and gives its path
/// (`Url::path`); none when it does not parse. The result is named, not
/// described.
#[verifier::external_body]
fn parse_url_path(uri: &str) -> (r: Option<String>)
    ensures
        opt_view(r) == url_path(uri@),
{
    url::Url::parse(uri).ok().map(|u| u.path().to_string())
}

/// The language of an open document, from the extension of its address's
/// path; plain text when the address does not parse.
pub fn detect_language_from_uri(uri: &str) -> (r: String)
    ensures
        r@ == match url_path(uri@) {
            Some(p) => language_of_path(p),
            None => "plaintext"@,
        },
{
    match parse_url_path(uri) {
        Some(p) => detect_language(p.as_str()),
        None => owned("plaintext"),
    }
}

/// A finding shown in the editor.
#[derive(Debug)]
pub struct EditorDiagnostic {
    pub range: Range,
    pub severity: Severity,
    pub source: String,
    pub message: String,
}

/// The findings of an analysis as the editor shows them: each suggestion
/// with its description, then each error with its message, all at their
/// ranges and severities and from the assistant.
pub fn ai_diagnostics(analysis: &CodeAnalysisResponse) -> (r: Vec<EditorDiagnostic>)
    ensures
        r@.len() == analysis.suggestions@.len() + analysis.errors@.len(),
        forall|i: int| 0 <= i < analysis.suggestions@.len() ==> {
            let d = #[trigger] r@[i];
            &&& d.range == analysis.suggestions@[i].range
            &&& d.severity == analysis.suggestions@[i].severity
            &&& d.source@ == "Auto-Coder AI"@
            &&& d.message == analysis.suggestions@[i].description
        },
        forall|j: int| 0 <= j < analysis.errors@.len() ==> {
            let d = #[trigger] r@[analysis.suggestions@.len() + j];
            &&& d.range == analysis.errors@[j].range
            &&& d.severity == analysis.errors@[j].severity
            &&& d.source@ == "Auto-Coder AI"@
            &&& d.message == analysis.errors@[j].message
        },
{
    let mut r: Vec<EditorDiagnostic> = Vec::new();
    let mut i: usize = 0;
    while i < analysis.suggestions.len()
        invariant
            i <= analysis.suggestions@.len(),
            r@.len() == i,
            forall|k: int| 0 <= k < i ==> {
                let d = #[trigger] r@[k];
                &&& d.range == analysis.suggestions@[k].range
                &&& d.severity == analysis.suggestions@[k].severity
                &&& d.source@ == "Auto-Coder AI"@
                &&& d.message == analysis.suggestions@[k].description
            },
        decreases analysis.suggestions@.len() - i,
    {
        let s = &analysis.suggestions[i];
        r.push(EditorDiagnostic {
            range: s.range,
            severity: s.severity,
            source: owned("Auto-Coder AI"),
            message: s.description.clone(),
        });
        i += 1;
    }
    let n = r.len();
    let mut j: usize = 0;
    while j < analysis.errors.len()
        invariant
            j <= analysis.errors@.len(),
            n == analysis.suggestions@.len(),
            r@.len() == n + j,
            forall|k: int| 0 <= k < n ==> {
                let d = #[trigger] r@[k];
                &&& d.range == analysis.suggestions@[k].range
                &&& d.severity == analysis.suggestions@[k].severity
                &&& d.source@ == "Auto-Coder AI"@
                &&& d.message == analysis.suggestions@[k].description
            },
            forall|k: int| 0 <= k < j ==> {
                let d = #[trigger] r@[n + k];
                &&& d.range == analysis.errors@[k].range
                &&& d.severity == analysis.errors@[k].severity
                &&& d.source@ == "Auto-Coder AI"@
                &&& d.message == analysis.errors@[k].message
            },
        decreases analysis.errors@.len() - j,
    {
        let e = &analysis.errors[j];
        r.push(EditorDiagnostic {
            range: e.range,
            severity: e.severity,
            source: owned("Auto-Coder AI"),
            message: e.message.clone(),
        });
        j += 1;
    }
    r
}

/// The text of each open document, by address.
pub struct OpenDocuments {
    pub documents: StrMap<String>,
}

impl OpenDocuments {
    /// The texts are held once per address.
    pub open spec fn wf(&self) -> bool {
        self.documents.wf()
    }

    /// No document open.
    pub fn new() -> (r: Self)
        ensures
            r.wf(),
            r.documents@ == Map::<Seq<char>, String>::empty(),
    {
        OpenDocuments { documents: StrMap::new() }
    }

    /// A document is opened with its text.
    pub fn open(&mut self, uri: String, text: String)
        requires
            old(self).wf(),
        ensures
            final(self).wf(),
            final(self).documents@ == old(self).documents@.insert(uri@, text),
    {
        self.documents.insert(uri, text);
    }

    /// A document changed: its text becomes that of the last change, if the
    /// change list had one. Whether it did (and the document is to be
    /// analysed again).
    pub fn apply_change(&mut self, uri: String, last_change: Option<String>) -> (changed: bool)
        requires
            old(self).wf(),
        ensures
            final(self).wf(),
            changed == last_change is Some,
            match last_change {
                Some(t) => final(self).documents@ == old(self).documents@.insert(uri@, t),
                None => final(self).documents@ == old(self).documents@,
            },
    {
        match last_change {
            Some(t) => {
                self.documents.insert(uri, t);
                true
            },
            None => false,
        }
    }

    /// A document is closed and forgotten.
    pub fn close(&mut self, uri: &str)
        requires
            old(self).wf(),
        ensures
            final(self).wf(),
            final(self).documents@ == old(self).documents@.remove(uri@),
    {
        let _ = self.documents.remove(uri);
    }

    /// The text of an open document.
    pub fn text_of(&self, uri: &str) -> (r: Option<&String>)
        requires
            self.wf(),
        ensures
            match r {
                Some(t) => self.documents@.contains_key(uri@) && *t == self.documents@[uri@],
                None => !self.documents@.contains_key(uri@),
            },
    {
        self.documents.get(uri)
    }
}

} // verus!
