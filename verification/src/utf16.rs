//! UTF-16 code units, as JavaScript counts them.

use vstd::prelude::*;

use crate::text;

verus! {

/// `char::from_u32` gives the character with that code point, and nothing for
/// surrogates and numbers past the last code point.
pub assume_specification[ char::from_u32 ](code: u32) -> (out: Option<char>)
    ensures
        out == (if code <= 0xd7ff || 0xe000 <= code <= 0x10ffff {
            Some(code as char)
        } else {
            None
        }),
;

/// Whether `unit` opens a surrogate pair.
pub open spec fn is_high(unit: u16) -> bool {
    0xd800 <= unit <= 0xdbff
}

/// Whether `unit` closes a surrogate pair.
pub open spec fn is_low(unit: u16) -> bool {
    0xdc00 <= unit <= 0xdfff
}

/// The code units of one character: one in the basic plane, else a surrogate pair.
pub open spec fn units_of(c: char) -> Seq<u16> {
    let code = c as int;
    if code < 0x10000 {
        seq![code as u16]
    } else {
        seq![
            (0xd800 + (code - 0x10000) / 0x400) as u16,
            (0xdc00 + (code - 0x10000) % 0x400) as u16,
        ]
    }
}

/// The code units of `s`.
pub open spec fn encode(s: Seq<char>) -> Seq<u16>
    decreases s.len(),
{
    if s.len() == 0 {
        Seq::empty()
    } else {
        encode(s.drop_last()) + units_of(s.last())
    }
}

/// The character of a surrogate pair.
pub open spec fn pair_char(high: u16, low: u16) -> char {
    (0x10000 + (high - 0xd800) * 0x400 + (low - 0xdc00)) as char
}

/// The text whose code units these are; none where a surrogate stands alone.
pub open spec fn decode(units: Seq<u16>) -> Option<Seq<char>>
    decreases units.len(),
{
    if units.len() == 0 {
        Some(Seq::empty())
    } else if !is_high(units[0]) && !is_low(units[0]) {
        match decode(units.skip(1)) {
            Some(rest) => Some(seq![units[0] as char] + rest),
            None => None,
        }
    } else if is_high(units[0]) && units.len() > 1 && is_low(units[1]) {
        match decode(units.skip(2)) {
            Some(rest) => Some(seq![pair_char(units[0], units[1])] + rest),
            None => None,
        }
    } else {
        None
    }
}

/// Decoding the code units of one character and what follows.
proof fn lemma_decode_char(c: char, rest: Seq<u16>)
    ensures
        decode(units_of(c) + rest) == (match decode(rest) {
            Some(tail) => Some(seq![c] + tail),
            None => None,
        }),
{
    let units = units_of(c) + rest;
    if (c as int) < 0x10000 {
        assert(units.skip(1) == rest);
    } else {
        assert(units.skip(2) == rest);
    }
}

/// Decoding the code units of a text and what follows.
pub proof fn lemma_decode_encode(s: Seq<char>, rest: Seq<u16>)
    ensures
        decode(encode(s) + rest) == (match decode(rest) {
            Some(tail) => Some(s + tail),
            None => None,
        }),
    decreases s.len(),
{
    if s.len() == 0 {
        assert(encode(s) + rest == rest);
        if decode(rest) is Some {
            assert(s + decode(rest)->0 == decode(rest)->0);
        }
    } else {
        let last = units_of(s.last());
        lemma_decode_encode(s.drop_last(), last + rest);
        lemma_decode_char(s.last(), rest);
        assert(encode(s) + rest == encode(s.drop_last()) + (last + rest));
        if decode(rest) is Some {
            assert(s.drop_last() + (seq![s.last()] + decode(rest)->0) == s + decode(rest)->0);
        }
    }
}

/// Every text is read back from its code units.
pub proof fn law_utf16_round_trip(s: Seq<char>)
    ensures
        decode(encode(s)) == Some(s),
{
    lemma_decode_encode(s, Seq::empty());
    assert(encode(s) + Seq::<u16>::empty() == encode(s));
    assert(s + Seq::<char>::empty() == s);
}

/// The code point of `c`.
fn code_point(c: char) -> (out: u32)
    ensures
        out as int == c as int,
        out <= 0x10ffff,
{
    c as u32
}

/// The code units of `value`.
pub fn encode_text(value: &str) -> (out: Vec<u16>)
    ensures
        out@ == encode(value@),
{
    let chars = text::chars_of(value);
    let mut out: Vec<u16> = Vec::new();
    let mut i: usize = 0;
    while i < chars.len()
        invariant
            i <= chars@.len(),
            out@ == encode(chars@.take(i as int)),
        decreases chars.len() - i,
    {
        assert(chars@.take(i + 1).drop_last() == chars@.take(i as int));
        let ghost before = out@;
        let c: char = chars[i];
        let code: u32 = code_point(c);
        if code < 0x10000 {
            out.push(code as u16);
            assert(out@ == before + units_of(c));
        } else {
            let offset: u32 = code - 0x10000;
            out.push((0xd800 + offset / 0x400) as u16);
            out.push((0xdc00 + offset % 0x400) as u16);
            assert(out@ == before + units_of(c));
        }
        i = i + 1;
    }
    assert(chars@.take(i as int) == chars@);
    out
}

/// Decodes the code units `units[start..end]`.
pub fn decode_units(units: &[u16], start: usize, end: usize) -> (out: Option<String>)
    requires
        start <= end <= units@.len(),
    ensures
        out.deep_view() == decode(units@.subrange(start as int, end as int)),
{
    let total: usize = units.len();
    let mut out = String::new();
    let mut i: usize = start;
    let ghost whole = units@.subrange(start as int, end as int);
    assert(whole.skip(0) == whole);
    while i < end
        invariant
            start <= i <= end <= units@.len(),
            total == units@.len(),
            whole == units@.subrange(start as int, end as int),
            decode(whole) == (match decode(whole.skip(i - start)) {
                Some(tail) => Some(out@ + tail),
                None => None,
            }),
        decreases end - i,
    {
        let ghost rest = whole.skip(i - start);
        let ghost before = out@;
        let unit: u16 = units[i];
        assert(rest[0] == unit);
        assert(rest.skip(1) == whole.skip(i + 1 - start));
        if unit < 0xd800 || unit > 0xdfff {
            match char::from_u32(unit as u32) {
                Some(c) => {
                    out.push(c);
                    proof {
                        if decode(rest.skip(1)) is Some {
                            let tail = decode(rest.skip(1))->0;
                            assert(before + (seq![c] + tail) == out@ + tail);
                        }
                    }
                },
                None => {
                    return None;
                },
            }
            i = i + 1;
        } else if unit <= 0xdbff && end - i > 1 && 0xdc00 <= units[i + 1] && units[i + 1] <= 0xdfff {
            let low: u16 = units[i + 1];
            assert(rest[1] == low);
            assert(rest.skip(2) == whole.skip(i + 2 - start));
            let code: u32 = 0x10000 + (unit as u32 - 0xd800) * 0x400 + (low as u32 - 0xdc00);
            match char::from_u32(code) {
                Some(c) => {
                    out.push(c);
                    proof {
                        if decode(rest.skip(2)) is Some {
                            let tail = decode(rest.skip(2))->0;
                            assert(before + (seq![c] + tail) == out@ + tail);
                        }
                    }
                },
                None => {
                    return None;
                },
            }
            i = i + 2;
        } else {
            assert(end - i > 1 ==> rest[1] == units@[i + 1]);
            return None;
        }
    }
    assert(whole.skip(end - start) == Seq::<u16>::empty());
    assert(out@ + Seq::<char>::empty() == out@);
    Some(out)
}

/// The text of `length` code units of `value` from the code unit `offset` on;
/// none where the range leaves the text or cuts a surrogate pair.
pub open spec fn slice(value: Seq<char>, offset: int, length: int) -> Option<Seq<char>> {
    if offset + length <= encode(value).len() {
        decode(encode(value).subrange(offset, offset + length))
    } else {
        None
    }
}

/// Cuts a text by UTF-16 offsets.
pub fn utf16_slice(value: &str, offset: usize, length: usize) -> (out: Option<String>)
    ensures
        out.deep_view() == slice(value@, offset as int, length as int),
        out is Some ==> offset + length <= usize::MAX,
{
    let units = encode_text(value);
    let total: usize = units.len();
    match offset.checked_add(length) {
        Some(end) => {
            if end <= total {
                decode_units(units.as_slice(), offset, end)
            } else {
                None
            }
        },
        None => None,
    }
}

proof fn lemma_encode_sum(left: Seq<char>, right: Seq<char>)
    ensures
        encode(left + right) == encode(left) + encode(right),
    decreases right.len(),
{
    if right.len() == 0 {
        assert(left + right == left);
        assert(encode(left) + encode(right) == encode(left));
    } else {
        let rest = right.drop_last();
        lemma_encode_sum(left, rest);
        assert((left + right).drop_last() == left + rest);
        assert((left + right).last() == right.last());
        assert(encode(left) + encode(rest) + units_of(right.last()) == encode(left) + (encode(rest)
            + units_of(right.last())));
    }
}

/// A part of a text is found by the code units in front of it and its own; what
/// reaches past the end is not found.
pub proof fn law_parts_are_found_by_their_units(
    front: Seq<char>,
    part: Seq<char>,
    back: Seq<char>,
    more: int,
)
    ensures
        slice(front + part + back, encode(front).len() as int, encode(part).len() as int) == Some(
            part,
        ),
        more > encode(part).len() ==> slice(front + part, encode(front).len() as int, more) is None,
{
    let whole = front + part + back;
    lemma_encode_sum(front + part, back);
    lemma_encode_sum(front, part);
    law_utf16_round_trip(part);
    let at = encode(front).len() as int;
    let end = at + encode(part).len();
    assert(encode(whole) == encode(front) + encode(part) + encode(back));
    assert(encode(whole).subrange(at, end) == encode(part));
}

} // verus!
