//! Text primitives over `Seq<char>`.
//!
//! A `str` is modelled by the sequence of its characters. Every function here
//! has an exact contract in terms of one of the spec functions of this module.

use vstd::prelude::*;
use vstd::string::StrSliceExecFns;
use vstd::string::StringExecFns;

verus! {

/// `String::push` appends one character to the end of the string.
pub assume_specification[ String::push ](target: &mut String, character: char)
    ensures
        final(target)@ == old(target)@.push(character),
;

/// The characters of `text`, in order.
pub fn chars_of(text: &str) -> (out: Vec<char>)
    ensures
        out@ == text@,
{
    let mut out: Vec<char> = Vec::new();
    for c in it: text.chars()
        invariant
            it.seq() == text@,
            out@ == text@.take(it.index()),
    {
        out.push(c);
        assert(text@.take(it.index() + 1) == text@.take(it.index()).push(c));
    }
    assert(text@.take(text@.len() as int) == text@);
    out
}

/// The string made of `chars`.
pub fn string_of(chars: &[char]) -> (out: String)
    ensures
        out@ == chars@,
{
    let mut out = String::new();
    let mut i: usize = 0;
    while i < chars.len()
        invariant
            i <= chars@.len(),
            out@ == chars@.take(i as int),
        decreases chars.len() - i,
    {
        out.push(chars[i]);
        assert(chars@.take(i + 1) == chars@.take(i as int).push(chars@[i as int]));
        i = i + 1;
    }
    assert(chars@.take(i as int) == chars@);
    out
}

/// Whether two strings hold the same characters.
pub fn same(left: &str, right: &str) -> (out: bool)
    ensures
        out == (left@ == right@),
{
    left.to_owned() == right.to_owned()
}

/// Whether `wanted` is one of `list`.
pub fn list_contains(list: &Vec<String>, wanted: &str) -> (out: bool)
    ensures
        out == list.deep_view().contains(wanted@),
{
    let mut i: usize = 0;
    while i < list.len()
        invariant
            i <= list@.len(),
            forall|j: int| 0 <= j < i ==> (#[trigger] list.deep_view()[j]) != wanted@,
        decreases list.len() - i,
    {
        assert(list.deep_view()[i as int] == list@[i as int]@);
        if same(list[i].as_str(), wanted) {
            return true;
        }
        i = i + 1;
    }
    false
}

/// `list` with one text more, where there is one.
pub open spec fn with_text(list: Seq<Seq<char>>, value: Option<Seq<char>>) -> Seq<Seq<char>> {
    match value {
        Some(value) => list.push(value),
        None => list,
    }
}

/// Adds a text, where there is one.
pub fn push_text(list: &mut Vec<String>, value: Option<String>)
    ensures
        final(list).deep_view() == with_text(old(list).deep_view(), value.deep_view()),
{
    if let Some(value) = value {
        let ghost before = list.deep_view();
        let ghost added = value@;
        list.push(value);
        assert(list.deep_view() == before.push(added));
    }
}

/// Adds a text.
pub fn push_line(list: &mut Vec<String>, value: String)
    ensures
        final(list).deep_view() == old(list).deep_view().push(value@),
{
    let ghost before = list.deep_view();
    let ghost added = value@;
    list.push(value);
    assert(list.deep_view() == before.push(added));
}

// ----------------------------------------------------------------------
// Concatenation

/// `a` followed by `b`.
pub fn cat2(a: &str, b: &str) -> (out: String)
    ensures
        out@ == a@ + b@,
{
    let mut out = a.to_owned();
    out.append(b);
    out
}

/// `a`, `b` and `c`, one after the other.
pub fn cat3(a: &str, b: &str, c: &str) -> (out: String)
    ensures
        out@ == a@ + b@ + c@,
{
    let mut out = cat2(a, b);
    out.append(c);
    out
}

/// `a`, `b`, `c` and `d`, one after the other.
pub fn cat4(a: &str, b: &str, c: &str, d: &str) -> (out: String)
    ensures
        out@ == a@ + b@ + c@ + d@,
{
    let mut out = cat3(a, b, c);
    out.append(d);
    out
}

/// `a`, `b`, `c`, `d` and `e`, one after the other.
pub fn cat5(a: &str, b: &str, c: &str, d: &str, e: &str) -> (out: String)
    ensures
        out@ == a@ + b@ + c@ + d@ + e@,
{
    let mut out = cat4(a, b, c, d);
    out.append(e);
    out
}

/// The parts one after the other, with `sep` between neighbours.
pub open spec fn join(parts: Seq<Seq<char>>, sep: Seq<char>) -> Seq<char>
    decreases parts.len(),
{
    if parts.len() == 0 {
        Seq::empty()
    } else if parts.len() == 1 {
        parts[0]
    } else {
        join(parts.drop_last(), sep) + sep + parts.last()
    }
}

/// Joins `parts` with `sep` between neighbours.
pub fn join_strings(parts: &[String], sep: &str) -> (out: String)
    ensures
        out@ == join(parts.deep_view(), sep@),
{
    let mut out = String::new();
    let mut i: usize = 0;
    let ghost model = parts.deep_view();
    while i < parts.len()
        invariant
            i <= parts@.len(),
            model == parts.deep_view(),
            model.len() == parts@.len(),
            out@ == join(model.take(i as int), sep@),
        decreases parts.len() - i,
    {
        assert(model.take(i + 1).drop_last() == model.take(i as int));
        assert(model[i as int] == parts@[i as int]@);
        if i > 0 {
            out.append(sep);
        }
        let ghost before = out@;
        out.append(parts[i].as_str());
        if i == 0 {
            assert(before == Seq::<char>::empty());
            assert(out@ == model[0]);
        }
        i = i + 1;
    }
    assert(model.take(i as int) == model);
    out
}

/// `text` repeated `count` times.
pub open spec fn repeat(text: Seq<char>, count: nat) -> Seq<char>
    decreases count,
{
    if count == 0 {
        Seq::empty()
    } else {
        repeat(text, (count - 1) as nat) + text
    }
}

/// Repeats `text` `count` times.
pub fn repeated(text: &str, count: usize) -> (out: String)
    ensures
        out@ == repeat(text@, count as nat),
{
    let mut out = String::new();
    let mut i: usize = 0;
    while i < count
        invariant
            i <= count,
            out@ == repeat(text@, i as nat),
        decreases count - i,
    {
        out.append(text);
        i = i + 1;
    }
    out
}

// ----------------------------------------------------------------------
// Trimming

/// The characters with the Unicode property `White_Space`.
pub open spec fn is_whitespace(c: char) -> bool {
    ||| '\u{9}' <= c <= '\u{d}'
    ||| c == ' '
    ||| c == '\u{85}'
    ||| c == '\u{a0}'
    ||| c == '\u{1680}'
    ||| '\u{2000}' <= c <= '\u{200a}'
    ||| c == '\u{2028}'
    ||| c == '\u{2029}'
    ||| c == '\u{202f}'
    ||| c == '\u{205f}'
    ||| c == '\u{3000}'
}

/// Decides `is_whitespace`.
pub fn char_is_whitespace(c: char) -> (out: bool)
    ensures
        out == is_whitespace(c),
{
    ('\u{9}' <= c && c <= '\u{d}') || c == ' ' || c == '\u{85}' || c == '\u{a0}' || c == '\u{1680}'
        || ('\u{2000}' <= c && c <= '\u{200a}') || c == '\u{2028}' || c == '\u{2029}' || c
        == '\u{202f}' || c == '\u{205f}' || c == '\u{3000}'
}

/// The predicate "is white space".
pub open spec fn white() -> spec_fn(char) -> bool {
    |c: char| is_whitespace(c)
}

/// The predicate "is one of `set`".
pub open spec fn among(set: Seq<char>) -> spec_fn(char) -> bool {
    |c: char| set.contains(c)
}

/// `s` without its longest suffix of characters that satisfy `p`.
pub open spec fn trim_end_by(s: Seq<char>, p: spec_fn(char) -> bool) -> Seq<char>
    decreases s.len(),
{
    if s.len() > 0 && p(s.last()) {
        trim_end_by(s.drop_last(), p)
    } else {
        s
    }
}

/// `s` without its longest prefix of characters that satisfy `p`.
pub open spec fn trim_start_by(s: Seq<char>, p: spec_fn(char) -> bool) -> Seq<char>
    decreases s.len(),
{
    if s.len() > 0 && p(s[0]) {
        trim_start_by(s.drop_first(), p)
    } else {
        s
    }
}

/// `s` trimmed on both sides of the characters that satisfy `p`.
pub open spec fn trim_by(s: Seq<char>, p: spec_fn(char) -> bool) -> Seq<char> {
    trim_end_by(trim_start_by(s, p), p)
}

/// `s` without leading and trailing white space.
pub open spec fn trim(s: Seq<char>) -> Seq<char> {
    trim_by(s, white())
}

/// `s` without trailing white space.
pub open spec fn trim_end(s: Seq<char>) -> Seq<char> {
    trim_end_by(s, white())
}

/// Whether `s` holds nothing but white space.
pub open spec fn is_blank(s: Seq<char>) -> bool {
    trim(s).len() == 0
}

/// Trims trailing white space.
pub fn trim_end_text(text: &str) -> (out: &str)
    ensures
        out@ == trim_end(text@),
{
    let chars = chars_of(text);
    let mut end: usize = chars.len();
    assert(text@.take(end as int) == text@);
    while end > 0 && char_is_whitespace(chars[end - 1])
        invariant
            end <= chars@.len(),
            chars@ == text@,
            trim_end(text@) == trim_end(text@.take(end as int)),
        decreases end,
    {
        assert(text@.take(end as int).drop_last() == text@.take(end - 1));
        end = end - 1;
    }
    text.substring_char(0, end)
}

/// Trims leading white space.
fn trim_start_text(text: &str) -> (out: &str)
    ensures
        out@ == trim_start_by(text@, white()),
{
    let chars = chars_of(text);
    let mut start: usize = 0;
    assert(text@.skip(0) == text@);
    while start < chars.len() && char_is_whitespace(chars[start])
        invariant
            start <= chars@.len(),
            chars@ == text@,
            trim_start_by(text@, white()) == trim_start_by(text@.skip(start as int), white()),
        decreases chars.len() - start,
    {
        assert(text@.skip(start as int).drop_first() == text@.skip(start + 1));
        start = start + 1;
    }
    text.substring_char(start, chars.len())
}

/// Trims white space on both sides.
pub fn trim_text(text: &str) -> (out: &str)
    ensures
        out@ == trim(text@),
{
    trim_end_text(trim_start_text(text))
}

/// Decides `is_blank`.
pub fn blank(text: &str) -> (out: bool)
    ensures
        out == is_blank(text@),
{
    trim_text(text).is_empty()
}

/// Whether `c` is one of `set`.
pub fn char_among(c: char, set: &[char]) -> (out: bool)
    ensures
        out == set@.contains(c),
{
    let mut i: usize = 0;
    while i < set.len()
        invariant
            i <= set@.len(),
            forall|j: int| 0 <= j < i ==> set@[j] != c,
        decreases set.len() - i,
    {
        if set[i] == c {
            return true;
        }
        i = i + 1;
    }
    false
}

/// Trims trailing characters of `set`.
pub fn trim_end_set<'a>(text: &'a str, set: &[char]) -> (out: &'a str)
    ensures
        out@ == trim_end_by(text@, among(set@)),
{
    let chars = chars_of(text);
    let mut end: usize = chars.len();
    assert(text@.take(end as int) == text@);
    while end > 0 && char_among(chars[end - 1], set)
        invariant
            end <= chars@.len(),
            chars@ == text@,
            trim_end_by(text@, among(set@)) == trim_end_by(text@.take(end as int), among(set@)),
        decreases end,
    {
        assert(text@.take(end as int).drop_last() == text@.take(end - 1));
        end = end - 1;
    }
    text.substring_char(0, end)
}

/// Trims leading characters of `set`.
pub fn trim_start_set<'a>(text: &'a str, set: &[char]) -> (out: &'a str)
    ensures
        out@ == trim_start_by(text@, among(set@)),
{
    let chars = chars_of(text);
    let mut start: usize = 0;
    assert(text@.skip(0) == text@);
    while start < chars.len() && char_among(chars[start], set)
        invariant
            start <= chars@.len(),
            chars@ == text@,
            trim_start_by(text@, among(set@)) == trim_start_by(
                text@.skip(start as int),
                among(set@),
            ),
        decreases chars.len() - start,
    {
        assert(text@.skip(start as int).drop_first() == text@.skip(start + 1));
        start = start + 1;
    }
    text.substring_char(start, chars.len())
}

// ----------------------------------------------------------------------
// Searching and replacing

/// Whether `pattern` stands in `s` at position `at`.
pub open spec fn occurs_at(s: Seq<char>, pattern: Seq<char>, at: int) -> bool {
    0 <= at && at + pattern.len() <= s.len() && s.subrange(at, at + pattern.len()) == pattern
}

/// The first position from `from` on at which `pattern` stands in `s`.
pub open spec fn find_from(s: Seq<char>, pattern: Seq<char>, from: int) -> Option<int>
    decreases s.len() + 1 - from,
{
    if from < 0 || from + pattern.len() > s.len() {
        None
    } else if occurs_at(s, pattern, from) {
        Some(from)
    } else {
        find_from(s, pattern, from + 1)
    }
}

/// The first position at which `pattern` stands in `s`.
pub open spec fn find(s: Seq<char>, pattern: Seq<char>) -> Option<int> {
    find_from(s, pattern, 0)
}

/// Whether `pattern` stands anywhere in `s`.
pub open spec fn contains(s: Seq<char>, pattern: Seq<char>) -> bool {
    exists|at: int| occurs_at(s, pattern, at)
}

/// What `find_from` finds is the first occurrence.
pub proof fn lemma_find_from(s: Seq<char>, pattern: Seq<char>, from: int)
    requires
        0 <= from,
    ensures
        match find_from(s, pattern, from) {
            Some(at) => from <= at && occurs_at(s, pattern, at) && forall|j: int|
                from <= j < at ==> !occurs_at(s, pattern, j),
            None => forall|j: int| from <= j ==> !occurs_at(s, pattern, j),
        },
    decreases s.len() + 1 - from,
{
    if from + pattern.len() <= s.len() && !occurs_at(s, pattern, from) {
        lemma_find_from(s, pattern, from + 1);
    }
}

/// `contains` says that there is a first occurrence.
pub proof fn lemma_contains(s: Seq<char>, pattern: Seq<char>)
    ensures
        contains(s, pattern) == find(s, pattern) is Some,
{
    lemma_find_from(s, pattern, 0);
}

/// Whether the characters at `at` are those of `pattern`.
fn matches_at(chars: &[char], pattern: &[char], at: usize) -> (out: bool)
    requires
        at + pattern@.len() <= chars@.len(),
    ensures
        out == occurs_at(chars@, pattern@, at as int),
{
    let total: usize = chars.len();
    let mut i: usize = 0;
    while i < pattern.len()
        invariant
            i <= pattern@.len(),
            total == chars@.len(),
            at + pattern@.len() <= chars@.len(),
            forall|j: int| 0 <= j < i ==> chars@[at + j] == pattern@[j],
        decreases pattern.len() - i,
    {
        if chars[at + i] != pattern[i] {
            assert(chars@.subrange(at as int, at + pattern@.len())[i as int] != pattern@[i as int]);
            return false;
        }
        i = i + 1;
    }
    assert(chars@.subrange(at as int, at + pattern@.len()) == pattern@);
    true
}

/// Finds the first occurrence of `pattern` from `from` on.
pub fn find_chars(chars: &[char], pattern: &[char], from: usize) -> (out: Option<usize>)
    ensures
        match out {
            Some(at) => find_from(chars@, pattern@, from as int) == Some(at as int),
            None => find_from(chars@, pattern@, from as int) is None,
        },
{
    if pattern.len() > chars.len() {
        return None;
    }
    let last: usize = chars.len() - pattern.len();
    let mut at: usize = from;
    while at <= last
        invariant
            from <= at,
            last + pattern@.len() == chars@.len(),
            find_from(chars@, pattern@, from as int) == find_from(chars@, pattern@, at as int),
        decreases last + 1 - at,
    {
        if matches_at(chars, pattern, at) {
            return Some(at);
        }
        if at == last {
            assert(find_from(chars@, pattern@, at + 1) is None);
            return None;
        }
        at = at + 1;
    }
    None
}

/// Decides `contains`.
pub fn text_contains(text: &str, pattern: &str) -> (out: bool)
    ensures
        out == contains(text@, pattern@),
{
    proof {
        lemma_contains(text@, pattern@);
    }
    let chars = chars_of(text);
    let wanted = chars_of(pattern);
    find_chars(chars.as_slice(), wanted.as_slice(), 0).is_some()
}

/// Whether `s` begins with `prefix`.
pub open spec fn starts_with(s: Seq<char>, prefix: Seq<char>) -> bool {
    occurs_at(s, prefix, 0)
}

/// Whether `s` ends with `suffix`.
pub open spec fn ends_with(s: Seq<char>, suffix: Seq<char>) -> bool {
    occurs_at(s, suffix, s.len() - suffix.len())
}

/// Decides `starts_with`.
pub fn text_starts_with(text: &str, prefix: &str) -> (out: bool)
    ensures
        out == starts_with(text@, prefix@),
{
    let chars = chars_of(text);
    let wanted = chars_of(prefix);
    wanted.len() <= chars.len() && matches_at(chars.as_slice(), wanted.as_slice(), 0)
}

/// Decides `ends_with`.
pub fn text_ends_with(text: &str, suffix: &str) -> (out: bool)
    ensures
        out == ends_with(text@, suffix@),
{
    let chars = chars_of(text);
    let wanted = chars_of(suffix);
    wanted.len() <= chars.len() && matches_at(
        chars.as_slice(),
        wanted.as_slice(),
        chars.len() - wanted.len(),
    )
}

/// What follows `prefix`, where `s` begins with it.
pub open spec fn strip_prefix(s: Seq<char>, prefix: Seq<char>) -> Option<Seq<char>> {
    if starts_with(s, prefix) {
        Some(s.skip(prefix.len() as int))
    } else {
        None
    }
}

/// Strips `prefix` from the front.
pub fn text_strip_prefix<'a>(text: &'a str, prefix: &str) -> (out: Option<&'a str>)
    ensures
        out.deep_view() == strip_prefix(text@, prefix@),
{
    if text_starts_with(text, prefix) {
        let skip: usize = prefix.unicode_len();
        let len: usize = text.unicode_len();
        let rest = text.substring_char(skip, len);
        assert(rest@ == text@.skip(prefix@.len() as int));
        Some(rest)
    } else {
        None
    }
}

/// `to` between all the characters of `s`, and at both ends.
pub open spec fn interleave(s: Seq<char>, to: Seq<char>) -> Seq<char>
    decreases s.len(),
{
    if s.len() == 0 {
        to
    } else {
        interleave(s.drop_last(), to).push(s.last()) + to
    }
}

/// `s` with every occurrence of `pattern`, found from the left and without
/// overlap, replaced by `to`. The empty pattern stands at every boundary.
pub open spec fn replace(s: Seq<char>, pattern: Seq<char>, to: Seq<char>) -> Seq<char>
    decreases s.len(),
{
    if pattern.len() == 0 {
        interleave(s, to)
    } else {
        match find(s, pattern) {
            Some(at) => if 0 <= at && at + pattern.len() <= s.len() {
                s.take(at) + to + replace(s.skip(at + pattern.len()), pattern, to)
            } else {
                s
            },
            None => s,
        }
    }
}

/// Finding in a suffix is finding from its start on.
proof fn lemma_find_skip(s: Seq<char>, pattern: Seq<char>, skip: int, from: int)
    requires
        0 <= skip <= s.len(),
        0 <= from,
    ensures
        match find_from(s.skip(skip), pattern, from) {
            Some(at) => find_from(s, pattern, skip + from) == Some(skip + at),
            None => find_from(s, pattern, skip + from) is None,
        },
    decreases s.len() + 1 - skip - from,
{
    let tail = s.skip(skip);
    if from + pattern.len() <= tail.len() {
        assert(tail.subrange(from, from + pattern.len()) == s.subrange(
            skip + from,
            skip + from + pattern.len(),
        ));
        if !occurs_at(tail, pattern, from) {
            lemma_find_skip(s, pattern, skip, from + 1);
        }
    }
}

/// Replaces every occurrence of `pattern` by `to`.
pub fn replace_text(text: &str, pattern: &str, to: &str) -> (out: String)
    ensures
        out@ == replace(text@, pattern@, to@),
{
    let chars = chars_of(text);
    let wanted = chars_of(pattern);
    if wanted.len() == 0 {
        let mut out = to.to_owned();
        let mut i: usize = 0;
        while i < chars.len()
            invariant
                i <= chars@.len(),
                out@ == interleave(chars@.take(i as int), to@),
            decreases chars.len() - i,
        {
            assert(chars@.take(i + 1).drop_last() == chars@.take(i as int));
            out.push(chars[i]);
            out.append(to);
            i = i + 1;
        }
        assert(chars@.take(i as int) == chars@);
        return out;
    }
    let mut out = String::new();
    let mut at: usize = 0;
    assert(chars@.skip(0) == chars@);
    loop
        invariant
            at <= chars@.len(),
            chars@ == text@,
            wanted@ == pattern@,
            wanted@.len() > 0,
            replace(text@, pattern@, to@) == out@ + replace(text@.skip(at as int), pattern@, to@),
        decreases chars.len() - at,
    {
        proof {
            lemma_find_skip(text@, pattern@, at as int, 0);
            lemma_find_from(text@, pattern@, at as int);
        }
        let ghost tail = text@.skip(at as int);
        match find_chars(chars.as_slice(), wanted.as_slice(), at) {
            Some(next) => {
                let ghost before = out@;
                let middle = text.substring_char(at, next);
                out.append(middle);
                out.append(to);
                proof {
                    let offset = next - at;
                    assert(find(tail, pattern@) == Some(offset as int));
                    assert(tail.take(offset as int) == middle@);
                    assert(tail.skip(offset + pattern@.len()) == text@.skip(
                        next + pattern@.len(),
                    ));
                    let rest = replace(text@.skip(next + pattern@.len()), pattern@, to@);
                    assert(before + (middle@ + to@ + rest) == out@ + rest);
                }
                at = next + wanted.len();
            },
            None => {
                let rest = text.substring_char(at, chars.len());
                assert(tail == rest@);
                out.append(rest);
                return out;
            },
        }
    }
}

// ----------------------------------------------------------------------
// Splitting

/// The pieces of `s` between the occurrences of `sep`; there is always at least one.
pub open spec fn split(s: Seq<char>, sep: char) -> Seq<Seq<char>>
    decreases s.len(),
{
    if s.len() == 0 {
        seq![Seq::empty()]
    } else {
        let before = split(s.drop_last(), sep);
        if s.last() == sep {
            before.push(Seq::empty())
        } else {
            before.drop_last().push(before.last().push(s.last()))
        }
    }
}

/// Splitting takes a text apart and loses nothing: joining the pieces gives
/// the text back, and no piece holds the separator.
pub proof fn law_split_join(s: Seq<char>, sep: char)
    ensures
        split(s, sep).len() > 0,
        join(split(s, sep), seq![sep]) == s,
        forall|i: int|
            0 <= i < split(s, sep).len() ==> !(#[trigger] split(s, sep)[i]).contains(sep),
    decreases s.len(),
{
    if s.len() > 0 {
        law_split_join(s.drop_last(), sep);
        let before = split(s.drop_last(), sep);
        let after = split(s, sep);
        if s.last() == sep {
            assert(after.drop_last() == before);
            assert(join(after, seq![sep]) == join(before, seq![sep]) + seq![sep]
                + Seq::<char>::empty());
            assert(s == s.drop_last() + seq![sep] + Seq::<char>::empty());
        } else {
            assert(after.drop_last() == before.drop_last());
            assert(after.last() == before.last().push(s.last()));
            assert(s == s.drop_last().push(s.last()));
            if before.len() == 1 {
                assert(join(after, seq![sep]) == after[0]);
            } else {
                assert(join(after, seq![sep]) == join(before.drop_last(), seq![sep]) + seq![sep]
                    + before.last().push(s.last()));
            }
            assert forall|i: int| 0 <= i < after.len() implies !(#[trigger] after[i]).contains(
                sep,
            ) by {
                if i < after.len() - 1 {
                    assert(after[i] == before[i]);
                } else {
                    assert(!before[i].contains(sep));
                    if after[i].contains(sep) {
                        let k = choose|k: int| 0 <= k < after[i].len() && after[i][k] == sep;
                        assert(before[i][k] == sep);
                    }
                }
            }
        }
    }
}

/// Splits `text` at every `sep`.
pub fn split_text(text: &str, sep: char) -> (out: Vec<String>)
    ensures
        out.deep_view() == split(text@, sep),
        out@.len() > 0,
{
    let chars = chars_of(text);
    let mut out: Vec<String> = Vec::new();
    let mut piece = String::new();
    let mut i: usize = 0;
    assert(out.deep_view().push(piece@) == split(chars@.take(0), sep));
    while i < chars.len()
        invariant
            i <= chars@.len(),
            out.deep_view().push(piece@) == split(chars@.take(i as int), sep),
        decreases chars.len() - i,
    {
        let c = chars[i];
        let ghost before = out.deep_view().push(piece@);
        assert(chars@.take(i + 1).drop_last() == chars@.take(i as int));
        assert(before.drop_last() == out.deep_view());
        if c == sep {
            out.push(piece);
            piece = String::new();
            assert(out.deep_view() == before);
        } else {
            piece.push(c);
        }
        i = i + 1;
    }
    assert(chars@.take(i as int) == chars@);
    let ghost before = out.deep_view().push(piece@);
    out.push(piece);
    assert(out.deep_view() == before);
    out
}

/// `s` without one carriage return at its end.
pub open spec fn strip_return(s: Seq<char>) -> Seq<char> {
    if s.len() > 0 && s.last() == '\r' {
        s.drop_last()
    } else {
        s
    }
}

/// `strip_return` on every piece.
pub open spec fn strip_returns(pieces: Seq<Seq<char>>) -> Seq<Seq<char>> {
    pieces.map_values(|piece: Seq<char>| strip_return(piece))
}

/// The lines of `s`: a line ends at `\n` or `\r\n`, and the last line ending is optional.
pub open spec fn lines(s: Seq<char>) -> Seq<Seq<char>> {
    let pieces = split(s, '\n');
    let ended = strip_returns(pieces.drop_last());
    if pieces.last().len() == 0 {
        ended
    } else {
        ended.push(pieces.last())
    }
}

/// The lines of `text`.
pub fn lines_of(text: &str) -> (out: Vec<String>)
    ensures
        out.deep_view() == lines(text@),
{
    let pieces = split_text(text, '\n');
    let ghost model = pieces.deep_view();
    let last: usize = pieces.len() - 1;
    let mut out: Vec<String> = Vec::new();
    let mut i: usize = 0;
    while i < last
        invariant
            i <= last,
            last + 1 == pieces@.len(),
            model == pieces.deep_view(),
            model.len() == pieces@.len(),
            out.deep_view() == strip_returns(model.take(i as int)),
        decreases last - i,
    {
        let ghost before = out.deep_view();
        let piece = pieces[i].as_str();
        assert(piece@ == model[i as int]);
        let len: usize = piece.unicode_len();
        let stripped = if len > 0 && piece.get_char(len - 1) == '\r' {
            piece.substring_char(0, len - 1)
        } else {
            piece
        };
        assert(stripped@ == strip_return(piece@));
        out.push(stripped.to_owned());
        assert(out.deep_view() == before.push(stripped@));
        assert(strip_returns(model.take(i + 1)) == strip_returns(model.take(i as int)).push(
            strip_return(model[i as int]),
        ));
        i = i + 1;
    }
    assert(model.take(last as int) == model.drop_last());
    assert(model.last() == pieces@[last as int]@);
    if !pieces[last].as_str().is_empty() {
        let ghost before = out.deep_view();
        out.push(pieces[last].clone());
        assert(out.deep_view() == before.push(model.last()));
    }
    out
}

/// `pieces` without the empty ones.
pub open spec fn drop_empty(pieces: Seq<Seq<char>>) -> Seq<Seq<char>>
    decreases pieces.len(),
{
    if pieces.len() == 0 {
        Seq::empty()
    } else {
        let before = drop_empty(pieces.drop_last());
        if pieces.last().len() == 0 {
            before
        } else {
            before.push(pieces.last())
        }
    }
}

/// Nothing empty is left, and a list without anything empty stays as it is.
pub proof fn lemma_drop_empty(pieces: Seq<Seq<char>>)
    ensures
        forall|i: int|
            0 <= i < drop_empty(pieces).len() ==> (#[trigger] drop_empty(pieces)[i]).len() > 0,
        (forall|i: int| 0 <= i < pieces.len() ==> (#[trigger] pieces[i]).len() > 0)
            ==> drop_empty(pieces) == pieces,
    decreases pieces.len(),
{
    if pieces.len() > 0 {
        let rest = pieces.drop_last();
        lemma_drop_empty(rest);
        let before = drop_empty(rest);
        assert forall|i: int| 0 <= i < drop_empty(pieces).len() implies (
        #[trigger] drop_empty(pieces)[i]).len() > 0 by {
            if i < before.len() {
                assert(drop_empty(pieces)[i] == before[i]);
            }
        }
        assert forall|i: int| 0 <= i < rest.len() implies #[trigger] pieces[i] == rest[i] by {}
        assert(rest.push(pieces.last()) == pieces);
    }
}

/// The non-empty pieces, in order.
pub fn without_empty(pieces: &[String]) -> (out: Vec<String>)
    ensures
        out.deep_view() == drop_empty(pieces.deep_view()),
{
    let ghost model = pieces.deep_view();
    let mut out: Vec<String> = Vec::new();
    let mut i: usize = 0;
    while i < pieces.len()
        invariant
            i <= pieces@.len(),
            model == pieces.deep_view(),
            model.len() == pieces@.len(),
            out.deep_view() == drop_empty(model.take(i as int)),
        decreases pieces.len() - i,
    {
        let ghost before = out.deep_view();
        assert(model.take(i + 1).drop_last() == model.take(i as int));
        assert(model[i as int] == pieces@[i as int]@);
        if !pieces[i].as_str().is_empty() {
            out.push(pieces[i].clone());
            assert(out.deep_view() == before.push(model[i as int]));
        }
        i = i + 1;
    }
    assert(model.take(i as int) == model);
    out
}

/// `pieces` without the blank ones.
pub open spec fn drop_blank(pieces: Seq<Seq<char>>) -> Seq<Seq<char>>
    decreases pieces.len(),
{
    if pieces.len() == 0 {
        Seq::empty()
    } else {
        let before = drop_blank(pieces.drop_last());
        if is_blank(pieces.last()) {
            before
        } else {
            before.push(pieces.last())
        }
    }
}

/// The pieces that are not blank, in order.
pub fn without_blank(pieces: &[String]) -> (out: Vec<String>)
    ensures
        out.deep_view() == drop_blank(pieces.deep_view()),
{
    let ghost model = pieces.deep_view();
    let mut out: Vec<String> = Vec::new();
    assert(out.deep_view() == Seq::<Seq<char>>::empty());
    let mut i: usize = 0;
    while i < pieces.len()
        invariant
            i <= pieces@.len(),
            model == pieces.deep_view(),
            model.len() == pieces@.len(),
            out.deep_view() == drop_blank(model.take(i as int)),
        decreases pieces.len() - i,
    {
        assert(model.take(i + 1).drop_last() == model.take(i as int));
        assert(model[i as int] == pieces@[i as int]@);
        if !blank(pieces[i].as_str()) {
            push_line(&mut out, pieces[i].clone());
        }
        i = i + 1;
    }
    assert(model.take(i as int) == model);
    out
}

/// Every line behind `prefix`, or behind `alone` where it is empty.
pub open spec fn prefixed(
    lines: Seq<Seq<char>>,
    prefix: Seq<char>,
    alone: Seq<char>,
) -> Seq<Seq<char>> {
    lines.map_values(
        |line: Seq<char>|
            if line.len() == 0 {
                alone
            } else {
                prefix + line
            },
    )
}

/// Puts every line of a text behind `prefix`, or behind `alone` where it is empty.
pub fn prefix_lines(value: &str, prefix: &str, alone: &str) -> (out: String)
    ensures
        out@ == join(prefixed(lines(value@), prefix@, alone@), "\n"@),
{
    let all = lines_of(value);
    let ghost wanted = prefixed(all.deep_view(), prefix@, alone@);
    let mut out: Vec<String> = Vec::new();
    assert(out.deep_view() == wanted.take(0));
    let mut i: usize = 0;
    while i < all.len()
        invariant
            i <= all@.len(),
            wanted == prefixed(all.deep_view(), prefix@, alone@),
            out.deep_view() == wanted.take(i as int),
        decreases all.len() - i,
    {
        assert(all.deep_view()[i as int] == all@[i as int]@);
        let line = all[i].as_str();
        let ghost before = out.deep_view();
        push_line(
            &mut out,
            if line.is_empty() {
                alone.to_owned()
            } else {
                cat2(prefix, line)
            },
        );
        assert(out.deep_view() == before.push(wanted[i as int]));
        i = i + 1;
    }
    assert(wanted.take(i as int) == wanted);
    join_strings(out.as_slice(), "\n")
}

/// `s` with every white-space character replaced by a blank.
pub open spec fn blanks(s: Seq<char>) -> Seq<char> {
    s.map_values(|c: char| if is_whitespace(c) { ' ' } else { c })
}

/// The maximal runs of characters that are not white space.
pub open spec fn words(s: Seq<char>) -> Seq<Seq<char>> {
    drop_empty(split(blanks(s), ' '))
}

/// The words of `text`.
pub fn words_of(text: &str) -> (out: Vec<String>)
    ensures
        out.deep_view() == words(text@),
{
    let chars = chars_of(text);
    let mut flat = String::new();
    let mut i: usize = 0;
    while i < chars.len()
        invariant
            i <= chars@.len(),
            flat@ == blanks(chars@.take(i as int)),
        decreases chars.len() - i,
    {
        assert(blanks(chars@.take(i + 1)) == blanks(chars@.take(i as int)).push(
            if is_whitespace(chars@[i as int]) {
                ' '
            } else {
                chars@[i as int]
            },
        ));
        flat.push(
            if char_is_whitespace(chars[i]) {
                ' '
            } else {
                chars[i]
            },
        );
        i = i + 1;
    }
    assert(chars@.take(i as int) == chars@);
    let pieces = split_text(flat.as_str(), ' ');
    without_empty(pieces.as_slice())
}

// ----------------------------------------------------------------------
// Blank lines

/// The lines so far and whether the last one kept was blank, with one line
/// more: a blank line behind a blank line is left out, and lines are joined by
/// `\n`.
pub open spec fn collapse_step(state: (Seq<char>, bool), line: Seq<char>) -> (Seq<char>, bool) {
    if is_blank(line) && state.1 {
        state
    } else if state.0.len() > 0 {
        (state.0 + "\n"@ + line, is_blank(line))
    } else {
        (line, is_blank(line))
    }
}

/// What the lines collapse to, and whether the last one kept is blank.
pub open spec fn collapsed_lines(lines: Seq<Seq<char>>) -> (Seq<char>, bool)
    decreases lines.len(),
{
    if lines.len() == 0 {
        (Seq::empty(), false)
    } else {
        collapse_step(collapsed_lines(lines.drop_last()), lines.last())
    }
}

/// `s` with every run of blank lines reduced to one, and trimmed.
pub open spec fn collapse(s: Seq<char>) -> Seq<char> {
    trim(collapsed_lines(lines(s)).0)
}

/// Reduces every run of blank lines to one.
pub fn collapse_blank_lines(value: &str) -> (out: String)
    ensures
        out@ == collapse(value@),
{
    let all = lines_of(value);
    let ghost model = all.deep_view();
    let mut output = String::new();
    let mut after_blank = false;
    let mut i: usize = 0;
    while i < all.len()
        invariant
            i <= all@.len(),
            model == all.deep_view(),
            model.len() == all@.len(),
            (output@, after_blank) == collapsed_lines(model.take(i as int)),
        decreases all.len() - i,
    {
        assert(model.take(i + 1).drop_last() == model.take(i as int));
        assert(model[i as int] == all@[i as int]@);
        let line = all[i].as_str();
        let is_blank = blank(line);
        if !(is_blank && after_blank) {
            let ghost before = output@;
            if !output.as_str().is_empty() {
                output.append("\n");
            }
            output.append(line);
            assert(before.len() == 0 ==> output@ == line@);
            after_blank = is_blank;
        }
        i = i + 1;
    }
    assert(model.take(i as int) == model);
    trim_text(output.as_str()).to_owned()
}

/// Whether a line of `s` ends at `at`.
pub open spec fn line_end(s: Seq<char>, at: int) -> bool {
    0 <= at < s.len() && s[at] == '\n'
}

/// Whether something other than white space stands between two places of `s`.
pub open spec fn ink_between(s: Seq<char>, from: int, to: int) -> bool {
    exists|at: int| from < at < to && !is_whitespace(#[trigger] s[at])
}

/// Whether no two neighbouring lines of `s`, each between two line ends, are
/// both blank.
pub open spec fn blank_lines_are_single(s: Seq<char>) -> bool {
    forall|i: int, j: int, k: int|
        i < j < k && #[trigger] line_end(s, i) && #[trigger] line_end(s, j) && #[trigger] line_end(
            s,
            k,
        ) ==> ink_between(s, i, k)
}

proof fn lemma_not_blank(s: Seq<char>)
    requires
        !is_blank(s),
    ensures
        exists|at: int| 0 <= at < s.len() && !is_whitespace(#[trigger] s[at]),
{
    if forall|at: int| 0 <= at < s.len() ==> is_whitespace(#[trigger] s[at]) {
        lemma_all_white(s);
    }
}

pub proof fn lemma_all_white(s: Seq<char>)
    requires
        forall|at: int| 0 <= at < s.len() ==> is_whitespace(#[trigger] s[at]),
    ensures
        trim_start_by(s, white()).len() == 0,
    decreases s.len(),
{
    if s.len() > 0 {
        lemma_all_white(s.drop_first());
    }
}

/// What trimming leaves is a part of the text.
pub proof fn lemma_trim_is_a_part(s: Seq<char>, p: spec_fn(char) -> bool) -> (range: (int, int))
    ensures
        0 <= range.0 <= range.1 <= s.len(),
        trim_by(s, p) == s.subrange(range.0, range.1),
{
    let from = lemma_trim_start_is_a_part(s, p);
    let rest = trim_start_by(s, p);
    let to = lemma_trim_end_is_a_part(rest, p);
    assert(rest.take(to) == s.subrange(from, from + to));
    (from, from + to)
}

proof fn lemma_trim_start_is_a_part(s: Seq<char>, p: spec_fn(char) -> bool) -> (from: int)
    ensures
        0 <= from <= s.len(),
        trim_start_by(s, p) == s.skip(from),
    decreases s.len(),
{
    if s.len() > 0 && p(s[0]) {
        let from = lemma_trim_start_is_a_part(s.drop_first(), p);
        assert(s.drop_first().skip(from) == s.skip(from + 1));
        from + 1
    } else {
        assert(s.skip(0) == s);
        0
    }
}

proof fn lemma_trim_end_is_a_part(s: Seq<char>, p: spec_fn(char) -> bool) -> (to: int)
    ensures
        0 <= to <= s.len(),
        trim_end_by(s, p) == s.take(to),
    decreases s.len(),
{
    if s.len() > 0 && p(s.last()) {
        let to = lemma_trim_end_is_a_part(s.drop_last(), p);
        assert(s.drop_last().take(to) == s.take(to));
        to
    } else {
        assert(s.take(s.len() as int) == s);
        s.len() as int
    }
}

proof fn lemma_split_pieces(s: Seq<char>, sep: char)
    ensures
        forall|i: int, j: int|
            0 <= i < split(s, sep).len() && 0 <= j < split(s, sep)[i].len() ==> (
            #[trigger] split(s, sep)[i][j]) != sep,
        split(s, sep).len() > 0,
    decreases s.len(),
{
    if s.len() > 0 {
        lemma_split_pieces(s.drop_last(), sep);
    }
}

/// The state of the collapse: blank lines are single so far, and the last line
/// kept is the only one that can be blank.
proof fn lemma_collapsed_lines(lines: Seq<Seq<char>>)
    requires
        forall|i: int, j: int|
            0 <= i < lines.len() && 0 <= j < lines[i].len() ==> (#[trigger] lines[i][j]) != '\n',
    ensures
        ({
            let (out, after_blank) = collapsed_lines(lines);
            &&& blank_lines_are_single(out)
            &&& forall|i: int, j: int|
                i < j && #[trigger] line_end(out, i) && #[trigger] line_end(out, j) ==> ink_between(
                    out,
                    i,
                    out.len() as int,
                )
            &&& !after_blank ==> forall|i: int| #[trigger]
                line_end(out, i) ==> ink_between(out, i, out.len() as int)
        }),
    decreases lines.len(),
{
    if lines.len() > 0 {
        let rest = lines.drop_last();
        let line = lines.last();
        assert forall|i: int, j: int| 0 <= i < rest.len() && 0 <= j < rest[i].len() implies (
        #[trigger] rest[i][j]) != '\n' by {
            assert(rest[i] == lines[i]);
            assert(lines[i][j] != '\n');
        }
        lemma_collapsed_lines(rest);
        let (before, after_blank) = collapsed_lines(rest);
        let (out, _) = collapsed_lines(lines);
        let last = lines.len() - 1;
        assert forall|j: int| 0 <= j < line.len() implies #[trigger] line[j] != '\n' by {
            assert(lines[last][j] != '\n');
        }
        if is_blank(line) && after_blank {
        } else if before.len() == 0 {
            assert forall|i: int| !line_end(out, i) by {}
        } else {
            reveal_strlit("\n");
            let n = before.len() as int;
            assert(out.len() == n + 1 + line.len());
            assert forall|at: int| 0 <= at < n implies #[trigger] out[at] == before[at] by {}
            assert forall|at: int| n < at < out.len() implies #[trigger] out[at] == line[at - n
                - 1] by {}
            assert forall|at: int| #[trigger] line_end(out, at) implies at == n || line_end(
                before,
                at,
            ) by {}
            assert forall|i: int| ink_between(before, i, n) && i >= 0 implies ink_between(
                out,
                i,
                n,
            ) && ink_between(out, i, out.len() as int) by {
                let at = choose|at: int| i < at < n && !is_whitespace(#[trigger] before[at]);
                assert(!is_whitespace(out[at]));
            }
            if !is_blank(line) {
                lemma_not_blank(line);
                let at = choose|at: int| 0 <= at < line.len() && !is_whitespace(#[trigger] line[at]);
                assert(!is_whitespace(out[n + 1 + at]));
                assert forall|i: int| #[trigger] line_end(out, i) implies ink_between(
                    out,
                    i,
                    out.len() as int,
                ) by {}
            }
            assert forall|i: int, j: int, k: int|
                i < j < k && #[trigger] line_end(out, i) && #[trigger] line_end(out, j)
                    && #[trigger] line_end(out, k) implies ink_between(out, i, k) by {
                assert(line_end(before, i) && line_end(before, j));
                if k < n {
                    assert(line_end(before, k));
                    let at = choose|at: int| i < at < k && !is_whitespace(#[trigger] before[at]);
                    assert(!is_whitespace(out[at]));
                }
            }
            assert forall|i: int, j: int|
                i < j && #[trigger] line_end(out, i) && #[trigger] line_end(
                    out,
                    j,
                ) implies ink_between(out, i, out.len() as int) by {
                assert(line_end(before, i));
            }
        }
    }
}

/// However the lines of a text stand, no two neighbouring lines of the
/// collapsed text are blank.
pub proof fn law_blank_lines_are_single(s: Seq<char>)
    ensures
        blank_lines_are_single(collapse(s)),
{
    let all = lines(s);
    let pieces = split(s, '\n');
    lemma_split_pieces(s, '\n');
    assert forall|i: int, j: int| 0 <= i < all.len() && 0 <= j < all[i].len() implies (
    #[trigger] all[i][j]) != '\n' by {
        assert(all[i] == pieces[i] || all[i] == strip_return(pieces[i]));
        assert(all[i][j] == pieces[i][j]);
    }
    lemma_collapsed_lines(all);
    let whole = collapsed_lines(all).0;
    let (from, to) = lemma_trim_is_a_part(whole, white());
    let out = collapse(s);
    assert forall|i: int, j: int, k: int|
        i < j < k && #[trigger] line_end(out, i) && #[trigger] line_end(out, j)
            && #[trigger] line_end(out, k) implies ink_between(out, i, k) by {
        assert(line_end(whole, from + i) && line_end(whole, from + j) && line_end(whole, from + k));
        let at = choose|at: int|
            from + i < at < from + k && !is_whitespace(#[trigger] whole[at]);
        assert(out[at - from] == whole[at]);
    }
}

/// A text that holds something other than white space is not blank.
pub proof fn lemma_ink(s: Seq<char>, at: int)
    requires
        0 <= at < s.len(),
        !is_whitespace(s[at]),
    ensures
        !is_blank(s),
{
    let from = lemma_trim_start_is_a_part(s, white());
    lemma_trim_start_stops(s, white(), at);
    let rest = trim_start_by(s, white());
    let to = lemma_trim_end_is_a_part(rest, white());
    lemma_trim_end_stops(rest, white());
}

proof fn lemma_trim_start_stops(s: Seq<char>, p: spec_fn(char) -> bool, at: int)
    requires
        0 <= at < s.len(),
        !p(s[at]),
    ensures
        trim_start_by(s, p).len() > 0,
        !p(trim_start_by(s, p)[0]),
    decreases s.len(),
{
    if p(s[0]) {
        lemma_trim_start_stops(s.drop_first(), p, at - 1);
    }
}

proof fn lemma_trim_end_stops(s: Seq<char>, p: spec_fn(char) -> bool)
    requires
        s.len() > 0,
        !p(s[0]),
    ensures
        trim_end_by(s, p).len() > 0,
    decreases s.len(),
{
    if p(s.last()) {
        lemma_trim_end_stops(s.drop_last(), p);
    }
}

/// What stands in a part of a text stands in the text.
pub proof fn lemma_contains_through(whole: Seq<char>, part: Seq<char>, inside: Seq<char>)
    requires
        contains(whole, part),
        contains(part, inside),
    ensures
        contains(whole, inside),
{
    let outer = choose|at: int| occurs_at(whole, part, at);
    let inner = choose|at: int| occurs_at(part, inside, at);
    assert(whole.subrange(outer + inner, outer + inner + inside.len()) == whole.subrange(
        outer,
        outer + part.len(),
    ).subrange(inner, inner + inside.len()));
    assert(occurs_at(whole, inside, outer + inner));
}

/// Each of three texts stands in the three one after the other.
pub proof fn lemma_contains_middle(before: Seq<char>, value: Seq<char>, after: Seq<char>)
    ensures
        contains(before + value + after, value),
        contains(before + value, value),
{
    assert((before + value + after).subrange(before.len() as int, (before.len() + value.len()) as int)
        == value);
    assert(occurs_at(before + value + after, value, before.len() as int));
    assert((before + value).subrange(before.len() as int, (before.len() + value.len()) as int)
        == value);
    assert(occurs_at(before + value, value, before.len() as int));
}

/// Every part stands in the parts joined.
pub proof fn lemma_join_contains(parts: Seq<Seq<char>>, sep: Seq<char>, i: int)
    requires
        0 <= i < parts.len(),
    ensures
        contains(join(parts, sep), parts[i]),
    decreases parts.len(),
{
    let none = Seq::<char>::empty();
    if parts.len() == 1 {
        lemma_contains_middle(none, parts[0], none);
        assert(none + parts[0] + none == parts[0]);
    } else if i == parts.len() - 1 {
        lemma_contains_middle(join(parts.drop_last(), sep) + sep, parts[i], none);
    } else {
        let front = join(parts.drop_last(), sep);
        lemma_join_contains(parts.drop_last(), sep, i);
        lemma_contains_middle(none, front, sep + parts.last());
        assert(none + front + (sep + parts.last()) == front + sep + parts.last());
        lemma_contains_through(join(parts, sep), front, parts[i]);
    }
}

/// Every piece that is not blank stays.
pub proof fn lemma_filled_pieces_stay(pieces: Seq<Seq<char>>, i: int)
    requires
        0 <= i < pieces.len(),
        !is_blank(pieces[i]),
    ensures
        drop_blank(pieces).contains(pieces[i]),
    decreases pieces.len(),
{
    let before = drop_blank(pieces.drop_last());
    let all = drop_blank(pieces);
    if i == pieces.len() - 1 {
        assert(all[before.len() as int] == pieces[i]);
    } else {
        lemma_filled_pieces_stay(pieces.drop_last(), i);
        let at = choose|at: int| 0 <= at < before.len() && before[at] == pieces[i];
        assert(all[at] == pieces[i]);
    }
}

/// Every section that is not blank stands in the sections joined.
pub proof fn lemma_sections_contain(pieces: Seq<Seq<char>>, sep: Seq<char>, i: int)
    requires
        0 <= i < pieces.len(),
        !is_blank(pieces[i]),
    ensures
        contains(join(drop_blank(pieces), sep), pieces[i]),
{
    lemma_filled_pieces_stay(pieces, i);
    let kept = drop_blank(pieces);
    let at = choose|at: int| 0 <= at < kept.len() && kept[at] == pieces[i];
    lemma_join_contains(kept, sep, at);
}

// ----------------------------------------------------------------------
// ASCII

/// Whether `c` is an ASCII digit.
pub open spec fn is_digit(c: char) -> bool {
    '0' <= c <= '9'
}

/// Whether `c` is an ASCII letter.
pub open spec fn is_letter(c: char) -> bool {
    ('a' <= c <= 'z') || ('A' <= c <= 'Z')
}

/// The ASCII lower-case form of `c`.
pub open spec fn lower(c: char) -> char {
    if 'A' <= c <= 'Z' {
        ((c as u8 + 32) as u8) as char
    } else {
        c
    }
}

/// `s` with every ASCII letter in lower case.
pub open spec fn lower_case(s: Seq<char>) -> Seq<char> {
    s.map_values(|c: char| lower(c))
}

/// Decides `is_digit`.
pub fn char_is_digit(c: char) -> (out: bool)
    ensures
        out == is_digit(c),
{
    '0' <= c && c <= '9'
}

/// Decides `is_letter`.
pub fn char_is_letter(c: char) -> (out: bool)
    ensures
        out == is_letter(c),
{
    ('a' <= c && c <= 'z') || ('A' <= c && c <= 'Z')
}

/// `text` with every ASCII letter in lower case.
pub fn to_lower(text: &str) -> (out: String)
    ensures
        out@ == lower_case(text@),
{
    let chars = chars_of(text);
    let mut out = String::new();
    let mut i: usize = 0;
    while i < chars.len()
        invariant
            i <= chars@.len(),
            out@ == lower_case(chars@.take(i as int)),
        decreases chars.len() - i,
    {
        let c = chars[i];
        assert(lower_case(chars@.take(i + 1)) == lower_case(chars@.take(i as int)).push(
            lower(chars@[i as int]),
        ));
        let low = if 'A' <= c && c <= 'Z' {
            (c as u8 + 32) as char
        } else {
            c
        };
        out.push(low);
        i = i + 1;
    }
    assert(chars@.take(i as int) == chars@);
    out
}

/// Whether two strings are the same but for the case of ASCII letters.
pub fn same_ignoring_case(left: &str, right: &str) -> (out: bool)
    ensures
        out == (lower_case(left@) == lower_case(right@)),
{
    let a = to_lower(left);
    let b = to_lower(right);
    same(a.as_str(), b.as_str())
}

// ----------------------------------------------------------------------
// Decimal numbers

/// Whether every character of `s` is an ASCII digit.
pub open spec fn all_digits(s: Seq<char>) -> bool {
    forall|i: int| 0 <= i < s.len() ==> is_digit(#[trigger] s[i])
}

/// The number that the digits of `s` spell.
pub open spec fn decimal_value(s: Seq<char>) -> nat
    decreases s.len(),
{
    if s.len() == 0 {
        0
    } else {
        (decimal_value(s.drop_last()) * 10 + (s.last() as nat - '0' as nat)) as nat
    }
}

/// A number is below the power of ten of its digits.
pub proof fn lemma_decimal_bound(s: Seq<char>)
    requires
        all_digits(s),
    ensures
        decimal_value(s) < vstd::arithmetic::power::pow(10, s.len()),
    decreases s.len(),
{
    if s.len() == 0 {
        vstd::arithmetic::power::lemma_pow0(10);
    } else {
        let rest = s.drop_last();
        assert forall|i: int| 0 <= i < rest.len() implies is_digit(#[trigger] rest[i]) by {
            assert(is_digit(s[i]));
        }
        lemma_decimal_bound(rest);
        assert(is_digit(s[s.len() - 1]));
        vstd::arithmetic::power::lemma_pow1(10);
        vstd::arithmetic::power::lemma_pow_adds(10, 1, rest.len());
    }
}

/// The digit of a number below ten.
pub open spec fn digit_char(n: nat) -> char {
    ((48 + n) as u8) as char
}

/// The shortest decimal spelling of `n`.
pub open spec fn decimal(n: nat) -> Seq<char>
    decreases n,
{
    if n < 10 {
        seq![digit_char(n)]
    } else {
        decimal(n / 10).push(digit_char(n % 10))
    }
}

/// The decimal spelling of a number is made of digits and is read back as that number.
pub proof fn law_decimal_round_trip(n: nat)
    ensures
        decimal(n).len() > 0,
        all_digits(decimal(n)),
        decimal_value(decimal(n)) == n,
    decreases n,
{
    if n < 10 {
        assert(decimal(n).drop_last() == Seq::<char>::empty());
        assert(decimal_value(decimal(n).drop_last()) == 0);
        assert(decimal(n).last() == digit_char(n));
    } else {
        law_decimal_round_trip(n / 10);
        assert(decimal(n).drop_last() == decimal(n / 10));
    }
}

/// A prefix of digits spells no larger number than the whole.
proof fn lemma_decimal_prefix(s: Seq<char>, len: int)
    requires
        0 <= len <= s.len(),
        all_digits(s),
    ensures
        decimal_value(s.take(len)) <= decimal_value(s),
    decreases s.len(),
{
    if len == s.len() {
        assert(s.take(len) == s);
    } else {
        assert(all_digits(s.drop_last()));
        lemma_decimal_prefix(s.drop_last(), len);
        assert(s.drop_last().take(len) == s.take(len));
        assert(is_digit(s[s.len() - 1]));
    }
}

/// Decides whether every character of `text` is an ASCII digit.
pub fn text_all_digits(text: &str) -> (out: bool)
    ensures
        out == all_digits(text@),
{
    let chars = chars_of(text);
    let mut i: usize = 0;
    while i < chars.len()
        invariant
            i <= chars@.len(),
            chars@ == text@,
            forall|j: int| 0 <= j < i ==> is_digit(#[trigger] chars@[j]),
        decreases chars.len() - i,
    {
        if !char_is_digit(chars[i]) {
            assert(!is_digit(chars@[i as int]));
            return false;
        }
        i = i + 1;
    }
    true
}

/// The digits of an unsigned number: what follows an optional plus sign.
pub open spec fn unsigned_digits(s: Seq<char>) -> Seq<char> {
    if s.len() > 0 && s[0] == '+' {
        s.drop_first()
    } else {
        s
    }
}

/// The unsigned number up to `max` that `s` spells: one or more digits, after
/// an optional plus sign.
pub open spec fn parse_unsigned(s: Seq<char>, max: nat) -> Option<nat> {
    let digits = unsigned_digits(s);
    if digits.len() > 0 && all_digits(digits) && decimal_value(digits) <= max {
        Some(decimal_value(digits))
    } else {
        None
    }
}

/// Reads an unsigned number up to `max`.
pub fn parse_number(text: &str, max: u64) -> (out: Option<u64>)
    ensures
        match out {
            Some(value) => parse_unsigned(text@, max as nat) == Some(value as nat),
            None => parse_unsigned(text@, max as nat) is None,
        },
{
    let chars = chars_of(text);
    let start: usize = if chars.len() > 0 && chars[0] == '+' {
        1
    } else {
        0
    };
    let ghost digits = unsigned_digits(text@);
    assert(digits == chars@.skip(start as int));
    if start == chars.len() {
        return None;
    }
    let mut value: u64 = 0;
    let mut i: usize = start;
    while i < chars.len()
        invariant
            start <= i <= chars@.len(),
            start < chars@.len(),
            digits == chars@.skip(start as int),
            digits == unsigned_digits(text@),
            value == decimal_value(digits.take(i - start)),
            value <= max,
            forall|j: int| 0 <= j < i - start ==> is_digit(#[trigger] digits[j]),
        decreases chars.len() - i,
    {
        let c = chars[i];
        assert(digits[i - start] == c);
        if !char_is_digit(c) {
            assert(!all_digits(digits));
            return None;
        }
        let digit: u64 = c as u64 - '0' as u64;
        assert(digits.take(i + 1 - start).drop_last() == digits.take(i - start));
        assert(decimal_value(digits.take(i + 1 - start)) == value * 10 + digit);
        if value > (u64::MAX - digit) / 10 || value * 10 + digit > max {
            proof {
                if all_digits(digits) {
                    lemma_decimal_prefix(digits, i + 1 - start);
                }
            }
            return None;
        }
        value = value * 10 + digit;
        i = i + 1;
    }
    assert(digits.take(i - start) == digits);
    Some(value)
}

/// The decimal spelling of `value`.
pub fn number_text(value: u64) -> (out: String)
    ensures
        out@ == decimal(value as nat),
    decreases value,
{
    if value < 10 {
        let mut out = String::new();
        out.push((48 + value as u8) as char);
        assert(out@ == seq![digit_char(value as nat)]);
        out
    } else {
        let mut out = number_text(value / 10);
        out.push((48 + (value % 10) as u8) as char);
        out
    }
}

// ----------------------------------------------------------------------
// Laws on primitives

/// Of the ASCII characters the blank and the controls from the tab to the
/// carriage return are white space; so are the no-break and the ideographic
/// blank. Letters are those from `a` to `z` in either case, and digits those from
/// `0` to `9`.
pub proof fn law_characters(c: char)
    ensures
        c as u32 <= 0x7f ==> (is_whitespace(c) <==> c == ' ' || 9 <= c as u32 <= 13),
        c == '\u{a0}' || c == '\u{3000}' ==> is_whitespace(c),
        is_letter(c) <==> 'a' <= c <= 'z' || 'A' <= c <= 'Z',
        is_digit(c) <==> '0' <= c <= '9',
        'A' <= c <= 'Z' ==> lower(c) as u32 == c as u32 + 32,
        !('A' <= c <= 'Z') ==> lower(c) == c,
{
}

/// Trimming takes white space away on both sides and nothing else.
pub proof fn law_trimming(front: Seq<char>, value: Seq<char>, back: Seq<char>)
    requires
        forall|i: int| 0 <= i < front.len() ==> is_whitespace(#[trigger] front[i]),
        forall|i: int| 0 <= i < back.len() ==> is_whitespace(#[trigger] back[i]),
        value.len() > 0,
        !is_whitespace(value[0]),
        !is_whitespace(value.last()),
    ensures
        trim(front + value + back) == value,
        trim_end(front + value + back) == front + value,
{
    lemma_trimmed_start(front, value + back);
    assert(front + (value + back) == front + value + back);
    assert((value + back)[0] == value[0]);
    assert(trim_start_by(value + back, white()) == value + back);
    lemma_trimmed_end(value, back);
    lemma_trimmed_end(front + value, back);
    assert((front + value).last() == value.last());
}

proof fn lemma_trimmed_start(front: Seq<char>, rest: Seq<char>)
    requires
        forall|i: int| 0 <= i < front.len() ==> is_whitespace(#[trigger] front[i]),
    ensures
        trim_start_by(front + rest, white()) == trim_start_by(rest, white()),
    decreases front.len(),
{
    if front.len() == 0 {
        assert(front + rest == rest);
    } else {
        assert((front + rest)[0] == front[0]);
        assert((front + rest).drop_first() == front.drop_first() + rest);
        lemma_trimmed_start(front.drop_first(), rest);
    }
}

proof fn lemma_trimmed_end(value: Seq<char>, back: Seq<char>)
    requires
        forall|i: int| 0 <= i < back.len() ==> is_whitespace(#[trigger] back[i]),
        value.len() > 0,
        !is_whitespace(value.last()),
    ensures
        trim_end_by(value + back, white()) == value,
    decreases back.len(),
{
    if back.len() == 0 {
        assert(value + back == value);
    } else {
        assert((value + back).last() == back[back.len() - 1]);
        assert((value + back).drop_last() == value + back.drop_last());
        lemma_trimmed_end(value, back.drop_last());
    }
}

/// A text without the character to replace stays as it is; else what stands
/// before its first occurrence stays, what replaces it follows, and then the
/// rest with its occurrences replaced.
pub proof fn law_replacing(front: Seq<char>, c: char, back: Seq<char>, to: Seq<char>)
    requires
        forall|i: int| 0 <= i < front.len() ==> #[trigger] front[i] != c,
    ensures
        replace(front, seq![c], to) == front,
        replace(front + seq![c] + back, seq![c], to) == front + to + replace(back, seq![c], to),
{
    let pattern = seq![c];
    lemma_find_from(front, pattern, 0);
    if let Some(at) = find(front, pattern) {
        assert(front.subrange(at, at + 1)[0] == front[at]);
        assert(pattern[0] == c);
        assert(false);
    }
    let whole = front + pattern + back;
    let place = front.len() as int;
    lemma_find_from(whole, pattern, 0);
    assert(whole.subrange(place, place + 1) == pattern);
    assert(occurs_at(whole, pattern, place));
    let at = find(whole, pattern)->0;
    if at < place {
        assert(whole.subrange(at, at + 1)[0] == front[at]);
        assert(pattern[0] == c);
        assert(false);
    }
    assert(at == place);
    assert(whole.take(place) == front);
    assert(whole.skip(place + 1) == back);
}

} // verus!
