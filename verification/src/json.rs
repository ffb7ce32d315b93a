//! JSON documents as plain values.

use vstd::prelude::*;

use crate::double;
use crate::text;

verus! {

/// A JSON number, by the readings that the library makes of it.
#[derive(Debug, Clone, Copy, PartialEq, Eq, Structural)]
pub struct JsonNumber {
    /// The value, where it is an integer of the range of `u64`.
    pub unsigned: Option<u64>,
    /// The bits of the value as an IEEE 754 double.
    pub double: Option<u64>,
}

/// A JSON document.
#[derive(Debug)]
pub enum Json {
    Null,
    Bool(bool),
    Number(JsonNumber),
    Text(String),
    Array(Vec<Json>),
    Object(Vec<Member>),
}

/// One member of a JSON object.
#[derive(Debug)]
pub struct Member {
    pub name: String,
    pub value: Json,
}

/// The model of a JSON document.
pub enum JsonView {
    Null,
    Bool(bool),
    Number(JsonNumber),
    Text(Seq<char>),
    Array(Seq<JsonView>),
    Object(Seq<(Seq<char>, JsonView)>),
}

impl Json {
    /// The model of this document.
    pub open spec fn view(&self) -> JsonView
        decreases self,
    {
        match self {
            Json::Null => JsonView::Null,
            Json::Bool(value) => JsonView::Bool(*value),
            Json::Number(value) => JsonView::Number(*value),
            Json::Text(value) => JsonView::Text(value@),
            Json::Array(items) => JsonView::Array(
                Seq::new(
                    items@.len(),
                    |i: int|
                        if 0 <= i < items@.len() {
                            items@[i].view()
                        } else {
                            JsonView::Null
                        },
                ),
            ),
            Json::Object(members) => JsonView::Object(
                Seq::new(
                    members@.len(),
                    |i: int|
                        if 0 <= i < members@.len() {
                            (members@[i].name@, members@[i].value.view())
                        } else {
                            (Seq::empty(), JsonView::Null)
                        },
                ),
            ),
        }
    }
}

// ----------------------------------------------------------------------
// Reading a document

/// The models of the documents of `items`.
pub open spec fn views(items: Seq<Json>) -> Seq<JsonView> {
    Seq::new(items.len(), |i: int| items[i]@)
}

/// The model of a document that may be absent.
pub open spec fn seen(value: Option<&Json>) -> Option<JsonView> {
    match value {
        Some(value) => Some(value@),
        None => None,
    }
}

/// `first`, and `second` where there is no first.
pub open spec fn or<A>(first: Option<A>, second: Option<A>) -> Option<A> {
    match first {
        Some(_) => first,
        None => second,
    }
}

/// The value of the first member called `name` from position `from` on.
pub open spec fn member_from(
    members: Seq<(Seq<char>, JsonView)>,
    name: Seq<char>,
    from: int,
) -> Option<JsonView>
    decreases members.len() - from,
{
    if from < 0 || from >= members.len() {
        None
    } else if members[from].0 == name {
        Some(members[from].1)
    } else {
        member_from(members, name, from + 1)
    }
}

/// The value of the member called `name`; none where there is no such member
/// or the document is no object.
pub open spec fn member(value: JsonView, name: Seq<char>) -> Option<JsonView> {
    match value {
        JsonView::Object(members) => member_from(members, name, 0),
        _ => None,
    }
}

/// `member` of a document that may be absent.
pub open spec fn member_in(value: Option<JsonView>, name: Seq<char>) -> Option<JsonView> {
    match value {
        Some(value) => member(value, name),
        None => None,
    }
}

/// The text, where the document is there and is a text.
pub open spec fn text_in(value: Option<JsonView>) -> Option<Seq<char>> {
    match value {
        Some(JsonView::Text(value)) => Some(value),
        _ => None,
    }
}

/// The truth value, where the document is there and is one.
pub open spec fn bool_in(value: Option<JsonView>) -> Option<bool> {
    match value {
        Some(JsonView::Bool(value)) => Some(value),
        _ => None,
    }
}

/// The unsigned integer, where the document is there and is one.
pub open spec fn unsigned_in(value: Option<JsonView>) -> Option<u64> {
    match value {
        Some(JsonView::Number(value)) => value.unsigned,
        _ => None,
    }
}

/// The bits of the number as a double, where the document is there and is a number.
pub open spec fn double_in(value: Option<JsonView>) -> Option<u64> {
    match value {
        Some(JsonView::Number(value)) => value.double,
        _ => None,
    }
}

/// The items of the array; none where the document is absent or no array.
pub open spec fn items_in(value: Option<JsonView>) -> Seq<JsonView> {
    match value {
        Some(JsonView::Array(items)) => items,
        _ => Seq::empty(),
    }
}

/// Whether the document is there and is an array.
pub open spec fn is_array(value: Option<JsonView>) -> bool {
    value matches Some(JsonView::Array(_))
}

/// Whether the document is there and is an object.
pub open spec fn is_object(value: Option<JsonView>) -> bool {
    value matches Some(JsonView::Object(_))
}

/// A text as it is, and an unsigned integer in decimal.
pub open spec fn string_in(value: Option<JsonView>) -> Option<Seq<char>> {
    match value {
        Some(JsonView::Text(value)) => Some(value),
        Some(JsonView::Number(JsonNumber { unsigned: Some(value), .. })) => Some(
            text::decimal(value as nat),
        ),
        _ => None,
    }
}

/// `string_in`, unless it is blank.
pub open spec fn non_empty_string_in(value: Option<JsonView>) -> Option<Seq<char>> {
    match string_in(value) {
        Some(value) => if text::is_blank(value) {
            None
        } else {
            Some(value)
        },
        None => None,
    }
}

/// The count that a number stands for: an unsigned integer as it is, another
/// number from zero on by its whole part.
pub open spec fn number_in(value: Option<JsonView>) -> Option<u64> {
    match unsigned_in(value) {
        Some(value) => Some(value),
        None => match double_in(value) {
            Some(bits) => double::count_of(bits),
            None => None,
        },
    }
}

/// The truth of a document, as JavaScript has it, but that every array and
/// object is true.
pub open spec fn is_truthy(value: JsonView) -> bool {
    match value {
        JsonView::Null => false,
        JsonView::Bool(value) => value,
        JsonView::Number(value) => match value.double {
            Some(bits) => !double::is_zero(bits),
            None => false,
        },
        JsonView::Text(value) => value.len() > 0,
        JsonView::Array(_) => true,
        JsonView::Object(_) => true,
    }
}

/// `first`, and `second` where there is no first.
pub fn either<'a>(first: Option<&'a Json>, second: Option<&'a Json>) -> (out: Option<&'a Json>)
    ensures
        seen(out) == or(seen(first), seen(second)),
{
    match first {
        Some(_) => first,
        None => second,
    }
}

impl Json {
    /// The value of the member called `name`.
    pub fn get(&self, name: &str) -> (out: Option<&Json>)
        ensures
            seen(out) == member(self@, name@),
            out matches Some(value) ==> decreases_to!(self => value),
    {
        match self {
            Json::Object(members) => {
                let ghost model = self@->Object_0;
                let mut i: usize = 0;
                while i < members.len()
                    invariant
                        i <= members@.len(),
                        *self == Json::Object(*members),
                        self@ == JsonView::Object(model),
                        model.len() == members@.len(),
                        forall|j: int|
                            0 <= j < members@.len() ==> #[trigger] model[j] == (
                                members@[j].name@,
                                members@[j].value@,
                            ),
                        member(self@, name@) == member_from(model, name@, i as int),
                    decreases members.len() - i,
                {
                    assert(model[i as int] == (members@[i as int].name@, members@[i as int].value@));
                    if text::same(members[i].name.as_str(), name) {
                        assert(decreases_to!(self => self->Object_0));
                        assert(decreases_to!(members => members@));
                        assert(decreases_to!(members@ => members@[i as int]));
                        assert(decreases_to!(members@[i as int] => members@[i as int].value));
                        return Some(&members[i].value);
                    }
                    i = i + 1;
                }
                None
            },
            _ => None,
        }
    }
}

/// The value of the member called `name`, of a document that may be absent.
pub fn get_in<'a>(value: Option<&'a Json>, name: &str) -> (out: Option<&'a Json>)
    ensures
        seen(out) == member_in(seen(value), name@),
{
    match value {
        Some(value) => value.get(name),
        None => None,
    }
}

/// Computes `text_in`.
pub fn text_of<'a>(value: Option<&'a Json>) -> (out: Option<&'a str>)
    ensures
        out.deep_view() == text_in(seen(value)),
{
    match value {
        Some(Json::Text(value)) => Some(value.as_str()),
        _ => None,
    }
}

/// Computes `bool_in`.
pub fn bool_of(value: Option<&Json>) -> (out: Option<bool>)
    ensures
        out == bool_in(seen(value)),
{
    match value {
        Some(Json::Bool(value)) => Some(*value),
        _ => None,
    }
}

/// Computes `unsigned_in`.
pub fn unsigned_of(value: Option<&Json>) -> (out: Option<u64>)
    ensures
        out == unsigned_in(seen(value)),
{
    match value {
        Some(Json::Number(value)) => value.unsigned,
        _ => None,
    }
}

/// Computes `double_in`.
pub fn double_of(value: Option<&Json>) -> (out: Option<u64>)
    ensures
        out == double_in(seen(value)),
{
    match value {
        Some(Json::Number(value)) => value.double,
        _ => None,
    }
}

/// The items of an array; an empty slice where there is no array.
pub fn items_of<'a>(value: Option<&'a Json>) -> (out: &'a [Json])
    ensures
        views(out@) == items_in(seen(value)),
{
    match value {
        Some(Json::Array(items)) => {
            assert(views(items@) == items_in(seen(value)));
            items.as_slice()
        },
        _ => {
            let none: &'a [Json] = &[];
            assert(views(none@) == Seq::<JsonView>::empty());
            none
        },
    }
}

/// Decides `is_array`.
pub fn array(value: Option<&Json>) -> (out: bool)
    ensures
        out == is_array(seen(value)),
{
    matches!(value, Some(Json::Array(_)))
}

/// Decides `is_object`.
pub fn object(value: Option<&Json>) -> (out: bool)
    ensures
        out == is_object(seen(value)),
{
    matches!(value, Some(Json::Object(_)))
}

/// Computes `string_in`.
pub fn string_of_value(value: Option<&Json>) -> (out: Option<String>)
    ensures
        out.deep_view() == string_in(seen(value)),
{
    match value {
        Some(Json::Text(value)) => Some(value.clone()),
        Some(Json::Number(value)) => match value.unsigned {
            Some(value) => Some(text::number_text(value)),
            None => None,
        },
        _ => None,
    }
}

/// Computes `non_empty_string_in`.
pub fn non_empty_string_of(value: Option<&Json>) -> (out: Option<String>)
    ensures
        out.deep_view() == non_empty_string_in(seen(value)),
{
    match string_of_value(value) {
        Some(value) => {
            if text::blank(value.as_str()) {
                None
            } else {
                Some(value)
            }
        },
        None => None,
    }
}

/// Computes `number_in`.
pub fn number_of(value: Option<&Json>) -> (out: Option<u64>)
    ensures
        out == number_in(seen(value)),
{
    match unsigned_of(value) {
        Some(value) => Some(value),
        None => match double_of(value) {
            Some(bits) => double::count(bits),
            None => None,
        },
    }
}

/// Decides `is_truthy`.
pub fn truthy(value: &Json) -> (out: bool)
    ensures
        out == is_truthy(value@),
{
    match value {
        Json::Null => false,
        Json::Bool(value) => *value,
        Json::Number(value) => match value.double {
            Some(bits) => !double::zero(bits),
            None => false,
        },
        Json::Text(value) => !value.as_str().is_empty(),
        Json::Array(_) => true,
        Json::Object(_) => true,
    }
}

// ----------------------------------------------------------------------
// Laws

/// What an object has under a name is the value of its first member of that
/// name, and nothing where it has none; nothing else has members.
pub proof fn law_members_are_found_by_name(
    members: Seq<(Seq<char>, JsonView)>,
    name: Seq<char>,
    at: int,
)
    ensures
        0 <= at < members.len() && members[at].0 == name && (forall|i: int|
            0 <= i < at ==> (#[trigger] members[i]).0 != name) ==> member(
            JsonView::Object(members),
            name,
        ) == Some(members[at].1),
        (forall|i: int| 0 <= i < members.len() ==> (#[trigger] members[i]).0 != name) ==> member(
            JsonView::Object(members),
            name,
        ) is None,
        forall|value: JsonView| !(value is Object) ==> (#[trigger] member(value, name)) is None,
{
    if 0 <= at < members.len() && members[at].0 == name && forall|i: int|
        0 <= i < at ==> (#[trigger] members[i]).0 != name {
        lemma_first_member(members, name, 0, at);
    }
    if forall|i: int| 0 <= i < members.len() ==> (#[trigger] members[i]).0 != name {
        lemma_no_member(members, name, 0);
    }
}

proof fn lemma_first_member(
    members: Seq<(Seq<char>, JsonView)>,
    name: Seq<char>,
    from: int,
    at: int,
)
    requires
        0 <= from <= at < members.len(),
        members[at].0 == name,
        forall|i: int| from <= i < at ==> (#[trigger] members[i]).0 != name,
    ensures
        member_from(members, name, from) == Some(members[at].1),
    decreases at - from,
{
    if from < at {
        assert(members[from].0 != name);
        lemma_first_member(members, name, from + 1, at);
    }
}

proof fn lemma_no_member(members: Seq<(Seq<char>, JsonView)>, name: Seq<char>, from: int)
    requires
        0 <= from <= members.len(),
        forall|i: int| from <= i < members.len() ==> (#[trigger] members[i]).0 != name,
    ensures
        member_from(members, name, from) is None,
    decreases members.len() - from,
{
    if from < members.len() {
        assert(members[from].0 != name);
        lemma_no_member(members, name, from + 1);
    }
}

/// A text is read as it is and as no number, an unsigned number as itself and
/// in decimal, a truth value as itself, and the items of an array as they are.
pub proof fn law_values_are_read_as_they_are(
    words: Seq<char>,
    number: JsonNumber,
    truth: bool,
    items: Seq<JsonView>,
)
    ensures
        text_in(Some(JsonView::Text(words))) == Some(words),
        string_in(Some(JsonView::Text(words))) == Some(words),
        unsigned_in(Some(JsonView::Text(words))) is None,
        text_in(Some(JsonView::Number(number))) is None,
        number.unsigned matches Some(count) ==> {
            &&& unsigned_in(Some(JsonView::Number(number))) == Some(count)
            &&& number_in(Some(JsonView::Number(number))) == Some(count)
            &&& string_in(Some(JsonView::Number(number))) == Some(text::decimal(count as nat))
        },
        bool_in(Some(JsonView::Bool(truth))) == Some(truth),
        is_truthy(JsonView::Bool(truth)) == truth,
        is_truthy(JsonView::Text(words)) == (words.len() > 0),
        !is_truthy(JsonView::Null),
        items_in(Some(JsonView::Array(items))) == items,
        items_in(Some(JsonView::Text(words))).len() == 0,
        items_in(None).len() == 0,
        words.len() > 0 && !text::is_whitespace(words[0]) ==> non_empty_string_in(
            Some(JsonView::Text(words)),
        ) == Some(words),
        words.len() == 0 ==> non_empty_string_in(Some(JsonView::Text(words))) is None,
{
    if words.len() > 0 && !text::is_whitespace(words[0]) {
        text::lemma_ink(words, 0);
    }
    if words.len() == 0 {
        text::lemma_all_white(words);
    }
}

} // verus!
