//! Short links in a text, and what they stand for.
//!
//! A token is replaced only where it stands as a whole, and what replaces it is
//! not searched again: every token gets its own replacement, whatever the
//! others are.

use vstd::prelude::*;
use vstd::string::StringExecFns;

use crate::text;

verus! {

/// The characters that go on with a token: ASCII letters and digits.
pub open spec fn is_token_char(c: char) -> bool {
    text::is_letter(c) || text::is_digit(c)
}

/// Whether the whole token at the front of `s` is `token`: no character behind
/// it goes on with it. The empty text is no token.
pub open spec fn leads(s: Seq<char>, token: Seq<char>) -> bool {
    &&& token.len() > 0
    &&& text::starts_with(s, token)
    &&& s.len() == token.len() || !is_token_char(s[token.len() as int])
}

/// The place of the pair whose token leads `s`: of the longest such token, and
/// of the first pair with it.
pub open spec fn leading_pair(s: Seq<char>, pairs: Seq<(Seq<char>, Seq<char>)>) -> Option<int>
    decreases pairs.len(),
{
    if pairs.len() == 0 {
        None
    } else {
        let last = pairs.len() - 1;
        let before = leading_pair(s, pairs.drop_last());
        match before {
            Some(at) => if leads(s, pairs[last].0) && pairs[last].0.len() > pairs[at].0.len() {
                Some(last)
            } else {
                before
            },
            None => if leads(s, pairs[last].0) {
                Some(last)
            } else {
                None
            },
        }
    }
}

/// The pair that `leading_pair` finds is there, and its token leads.
pub proof fn lemma_leading_pair(s: Seq<char>, pairs: Seq<(Seq<char>, Seq<char>)>)
    ensures
        match leading_pair(s, pairs) {
            Some(at) => {
                &&& 0 <= at < pairs.len()
                &&& leads(s, pairs[at].0)
                &&& forall|i: int|
                    0 <= i < pairs.len() && leads(s, (#[trigger] pairs[i]).0) ==> pairs[i].0.len()
                        < pairs[at].0.len() || (pairs[i].0.len() == pairs[at].0.len() && at <= i)
            },
            None => forall|i: int| 0 <= i < pairs.len() ==> !leads(s, (#[trigger] pairs[i]).0),
        },
    decreases pairs.len(),
{
    if pairs.len() > 0 {
        let rest = pairs.drop_last();
        lemma_leading_pair(s, rest);
        assert forall|i: int| 0 <= i < rest.len() implies #[trigger] pairs[i] == rest[i] by {}
    }
}

/// `s` with every whole token replaced by what its pair says, in one pass from
/// the left.
pub open spec fn expand(s: Seq<char>, pairs: Seq<(Seq<char>, Seq<char>)>) -> Seq<char>
    decreases s.len(),
{
    if s.len() == 0 {
        Seq::empty()
    } else {
        match leading_pair(s, pairs) {
            Some(at) => {
                proof {
                    lemma_leading_pair(s, pairs);
                }
                pairs[at].1 + expand(s.skip(pairs[at].0.len() as int), pairs)
            },
            None => seq![s[0]] + expand(s.skip(1), pairs),
        }
    }
}

/// Whether `token` leads the characters from `at` on.
fn token_leads(chars: &[char], at: usize, token: &[char]) -> (out: bool)
    requires
        at <= chars@.len(),
    ensures
        out == leads(chars@.skip(at as int), token@),
{
    let ghost tail = chars@.skip(at as int);
    if token.len() == 0 || token.len() > chars.len() - at {
        return false;
    }
    let mut i: usize = 0;
    while i < token.len()
        invariant
            i <= token@.len() <= tail.len(),
            at + token@.len() <= usize::MAX,
            at + tail.len() == chars@.len(),
            tail == chars@.skip(at as int),
            tail.take(i as int) == token@.take(i as int),
        decreases token.len() - i,
    {
        if chars[at + i] != token[i] {
            assert(tail[i as int] != token@[i as int]);
            assert(tail.subrange(0, token@.len() as int)[i as int] == tail[i as int]);
            return false;
        }
        assert(tail.take(i + 1) == tail.take(i as int).push(tail[i as int]));
        assert(token@.take(i + 1) == token@.take(i as int).push(token@[i as int]));
        i = i + 1;
    }
    assert(tail.subrange(0, token@.len() as int) == token@);
    if token.len() == chars.len() - at {
        true
    } else {
        let next: char = chars[at + token.len()];
        !(text::char_is_letter(next) || text::char_is_digit(next))
    }
}

/// Computes `leading_pair`, for the characters from `at` on.
fn find_leading(chars: &[char], at: usize, pairs: &Vec<(String, String)>) -> (out: Option<usize>)
    requires
        at <= chars@.len(),
    ensures
        match out {
            Some(found) => found < pairs@.len() && leading_pair(
                chars@.skip(at as int),
                pairs.deep_view(),
            ) == Some(found as int),
            None => leading_pair(chars@.skip(at as int), pairs.deep_view()) is None,
        },
{
    let ghost tail = chars@.skip(at as int);
    let ghost model = pairs.deep_view();
    let mut out: Option<usize> = None;
    let mut longest: usize = 0;
    let mut i: usize = 0;
    while i < pairs.len()
        invariant
            at <= chars@.len(),
            tail == chars@.skip(at as int),
            i <= pairs@.len(),
            model == pairs.deep_view(),
            match out {
                Some(found) => {
                    &&& found < i
                    &&& longest == model[found as int].0.len()
                    &&& leading_pair(tail, model.take(i as int)) == Some(found as int)
                },
                None => leading_pair(tail, model.take(i as int)) is None,
            },
        decreases pairs.len() - i,
    {
        assert(model.take(i + 1).drop_last() == model.take(i as int));
        assert(model[i as int] == pairs@[i as int].deep_view());
        let token = text::chars_of(pairs[i].0.as_str());
        if token_leads(chars, at, token.as_slice()) && (out.is_none() || token.len() > longest) {
            longest = token.len();
            out = Some(i);
        }
        i = i + 1;
    }
    assert(model.take(i as int) == model);
    out
}

/// Replaces every whole token by what its pair says.
pub fn expand_tokens(value: &str, pairs: &Vec<(String, String)>) -> (out: String)
    ensures
        out@ == expand(value@, pairs.deep_view()),
{
    let ghost model = pairs.deep_view();
    let chars = text::chars_of(value);
    let mut out = String::new();
    let mut at: usize = 0;
    assert(chars@.skip(0) == chars@);
    while at < chars.len()
        invariant
            at <= chars@.len(),
            chars@ == value@,
            model == pairs.deep_view(),
            expand(value@, model) == out@ + expand(value@.skip(at as int), model),
        decreases chars.len() - at,
    {
        let ghost before = out@;
        let ghost tail = value@.skip(at as int);
        proof {
            lemma_leading_pair(tail, model);
        }
        match find_leading(chars.as_slice(), at, pairs) {
            Some(found) => {
                assert(model[found as int] == pairs@[found as int].deep_view());
                let to = pairs[found].1.as_str();
                let len: usize = text::chars_of(pairs[found].0.as_str()).len();
                out.append(to);
                proof {
                    let rest = expand(value@.skip(at + len), model);
                    assert(tail.skip(len as int) == value@.skip(at + len));
                    assert(before + (to@ + rest) == out@ + rest);
                }
                at = at + len;
            },
            None => {
                out.push(chars[at]);
                proof {
                    let rest = expand(value@.skip(at + 1), model);
                    assert(tail.skip(1) == value@.skip(at + 1));
                    assert(before + (seq![tail[0]] + rest) == out@ + rest);
                }
                at = at + 1;
            },
        }
    }
    assert(value@.skip(at as int) == Seq::<char>::empty());
    out
}

// ----------------------------------------------------------------------
// Laws

/// Every token gets its own replacement: where a token of the pairs leads a
/// text, and no longer one does, the result begins with what the first pair of
/// that token says, and goes on with the rest of the text.
pub proof fn law_tokens_get_their_own(
    token: Seq<char>,
    rest: Seq<char>,
    pairs: Seq<(Seq<char>, Seq<char>)>,
    at: int,
)
    requires
        0 <= at < pairs.len(),
        pairs[at].0 == token,
        leads(token + rest, token),
        forall|i: int| 0 <= i < at ==> (#[trigger] pairs[i]).0 != token,
        forall|i: int|
            0 <= i < pairs.len() && leads(token + rest, (#[trigger] pairs[i]).0)
                ==> pairs[i].0.len() <= token.len(),
    ensures
        expand(token + rest, pairs) == pairs[at].1 + expand(rest, pairs),
{
    let s = token + rest;
    lemma_leading_pair(s, pairs);
    let found = leading_pair(s, pairs)->0;
    assert(leads(s, pairs[at].0));
    assert(s.subrange(0, token.len() as int) == pairs[found].0);
    assert(s.subrange(0, token.len() as int) == token);
    assert(found == at);
    assert(s.skip(token.len() as int) == rest);
}

/// A text in which no token stands stays as it is.
pub proof fn law_texts_without_tokens_stay(s: Seq<char>, pairs: Seq<(Seq<char>, Seq<char>)>)
    requires
        forall|from: int, i: int|
            0 <= from < s.len() && 0 <= i < pairs.len() ==> !leads(
                #[trigger] s.skip(from),
                (#[trigger] pairs[i]).0,
            ),
    ensures
        expand(s, pairs) == s,
    decreases s.len(),
{
    if s.len() > 0 {
        lemma_leading_pair(s, pairs);
        assert(s.skip(0) == s);
        let tail = s.skip(1);
        assert forall|from: int, i: int|
            0 <= from < tail.len() && 0 <= i < pairs.len() implies !leads(
            #[trigger] tail.skip(from),
            (#[trigger] pairs[i]).0,
        ) by {
            assert(tail.skip(from) == s.skip(from + 1));
        }
        law_texts_without_tokens_stay(tail, pairs);
        assert(seq![s[0]] + tail == s);
    }
}

/// A token stands whole where the text ends behind it or goes on with anything
/// but a letter or a digit, and what is no token stays in its place.
pub proof fn law_only_whole_tokens_count(
    token: Seq<char>,
    rest: Seq<char>,
    first: char,
    pairs: Seq<(Seq<char>, Seq<char>)>,
)
    ensures
        token.len() > 0 ==> (leads(token + rest, token) <==> rest.len() == 0 || !(
        text::is_letter(rest[0]) || text::is_digit(rest[0]))),
        (forall|i: int|
            0 <= i < pairs.len() ==> !leads(seq![first] + rest, (#[trigger] pairs[i]).0)) ==> expand(
            seq![first] + rest,
            pairs,
        ) == seq![first] + expand(rest, pairs),
{
    let whole = token + rest;
    assert(whole.subrange(0, token.len() as int) == token);
    if rest.len() > 0 {
        assert(whole[token.len() as int] == rest[0]);
    }
    let s = seq![first] + rest;
    if forall|i: int| 0 <= i < pairs.len() ==> !leads(s, (#[trigger] pairs[i]).0) {
        lemma_leading_pair(s, pairs);
        assert(s.skip(1) == rest);
        assert(s[0] == first);
    }
}

} // verus!
