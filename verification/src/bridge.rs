//! The calls into other crates, and what the library takes them to do.
//!
//! Everything the rest of the library knows of these calls is in the contracts
//! of this module. Where what a call returns takes pages to say, the result
//! has a name: a spec function of the call's arguments and of nothing else.

use vstd::prelude::*;

use crate::calendar;
use crate::double;
use crate::json::Json;
use crate::json::JsonNumber;
use crate::json::JsonView;
use crate::json::Member;
use crate::parse::EMBEDDED_URL;
use crate::text;

verus! {

// ----------------------------------------------------------------------
// regex

/// What the successive matches of `pattern` in `haystack` hold.
pub uninterp spec fn regex_matches(pattern: Seq<char>, haystack: Seq<char>) -> Seq<Seq<char>>;

/// What the groups of the first match of `pattern` in `haystack` hold, group zero first.
pub uninterp spec fn regex_groups(
    pattern: Seq<char>,
    haystack: Seq<char>,
) -> Option<Seq<Option<Seq<char>>>>;

/// What the groups of the successive matches of `pattern` in `haystack` hold.
pub uninterp spec fn regex_all_groups(
    pattern: Seq<char>,
    haystack: Seq<char>,
) -> Seq<Seq<Option<Seq<char>>>>;

/// `haystack` with every match of `pattern` replaced by `replacement`.
pub uninterp spec fn regex_replaced(
    pattern: Seq<char>,
    haystack: Seq<char>,
    replacement: Seq<char>,
) -> Seq<char>;

/// Whether a text is all of one `https` URL for the pattern of URLs: behind the
/// scheme stand visible ASCII characters, at least one, and none of those that
/// the pattern excludes.
pub open spec fn is_one_url(haystack: Seq<char>) -> bool {
    &&& text::starts_with(haystack, "https://"@)
    &&& haystack.len() > 8
    &&& forall|i: int|
        8 <= i < haystack.len() ==> '!' <= (#[trigger] haystack[i]) <= '~' && haystack[i] != '<'
            && haystack[i] != '>' && haystack[i] != '"' && haystack[i] != '\''
}

/// Whether the pattern of URLs finds such a text as a whole.
pub open spec fn is_found_whole(
    pattern: Seq<char>,
    haystack: Seq<char>,
    found: Seq<Seq<char>>,
) -> bool {
    pattern == EMBEDDED_URL@ && is_one_url(haystack) ==> found == seq![haystack]
}

/// `regex::Regex::find_iter`: the successive matches. What is found stands in
/// the haystack. A pattern that the crate does not accept matches nothing. The
/// pattern of URLs, which repeats its class of characters as often as it can,
/// finds the whole of a text that is one URL.
#[verifier::external_body]
pub(crate) fn regex_find_all(pattern: &str, haystack: &str) -> (out: Vec<String>)
    ensures
        out.deep_view() == regex_matches(pattern@, haystack@),
        is_found_whole(pattern@, haystack@, out.deep_view()),
        forall|i: int| 0 <= i < out@.len() ==> text::contains(haystack@, (#[trigger] out@[i])@),
{
    match regex::Regex::new(pattern) {
        Ok(regex) => regex.find_iter(haystack).map(|found| found.as_str().to_owned()).collect(),
        Err(_) => Vec::new(),
    }
}

/// `regex::Regex::captures`: the groups of the first match, group zero first.
/// A pattern that the crate does not accept matches nothing.
#[verifier::external_body]
pub(crate) fn regex_captures(pattern: &str, haystack: &str) -> (out: Option<Vec<Option<String>>>)
    ensures
        out.deep_view() == regex_groups(pattern@, haystack@),
{
    let regex = regex::Regex::new(pattern).ok()?;
    let groups = regex.captures(haystack)?;
    Some(groups.iter().map(|group| group.map(|found| found.as_str().to_owned())).collect())
}

/// `regex::Regex::captures_iter`: the groups of the successive matches. A
/// pattern that the crate does not accept matches nothing.
#[verifier::external_body]
pub(crate) fn regex_captures_all(pattern: &str, haystack: &str) -> (out: Vec<Vec<Option<String>>>)
    ensures
        out.deep_view() == regex_all_groups(pattern@, haystack@),
{
    match regex::Regex::new(pattern) {
        Ok(regex) => regex.captures_iter(haystack).map(
            |groups| groups.iter().map(|group| group.map(|found| found.as_str().to_owned())).collect(),
        ).collect(),
        Err(_) => Vec::new(),
    }
}

/// `regex::Regex::replace_all`: every match replaced. A pattern that the crate
/// does not accept matches nothing.
#[verifier::external_body]
pub(crate) fn regex_replace_all(pattern: &str, haystack: &str, replacement: &str) -> (out: String)
    ensures
        out@ == regex_replaced(pattern@, haystack@, replacement@),
{
    match regex::Regex::new(pattern) {
        Ok(regex) => regex.replace_all(haystack, replacement).into_owned(),
        Err(_) => haystack.to_owned(),
    }
}

// ----------------------------------------------------------------------
// html_escape

/// `encoded` with its HTML character references decoded.
pub uninterp spec fn html_decoded(encoded: Seq<char>) -> Seq<char>;

/// `html_escape::decode_html_entities`: the text with its character references decoded.
#[verifier::external_body]
pub(crate) fn decode_html(encoded: &str) -> (out: String)
    ensures
        out@ == html_decoded(encoded@),
{
    html_escape::decode_html_entities(encoded).into_owned()
}

// ----------------------------------------------------------------------
// chrono

/// The moment `milliseconds` after the epoch, in UTC, as RFC 3339 with
/// milliseconds; none where the calendar does not reach that far.
pub uninterp spec fn iso_of_millis(milliseconds: i64) -> Option<Seq<char>>;

/// The moment that an RFC 3339 text names, in UTC, as RFC 3339 with milliseconds.
pub uninterp spec fn iso_of_rfc3339(value: Seq<char>) -> Option<Seq<char>>;

/// The moment that a text of the given `strftime` format names, in UTC, as
/// RFC 3339 with milliseconds.
pub uninterp spec fn iso_of_format(value: Seq<char>, format: Seq<char>) -> Option<Seq<char>>;

/// `chrono::DateTime::from_timestamp_millis` in UTC, written by `to_rfc3339_opts`
/// with milliseconds and `Z`. From the epoch to the end of the year 9999 there
/// is such a moment, and it is spelled by its day of the Gregorian calendar and
/// its time of that day, each field with all its digits.
#[verifier::external_body]
pub(crate) fn iso_from_millis(milliseconds: i64) -> (out: Option<String>)
    ensures
        out.deep_view() == iso_of_millis(milliseconds),
        calendar::is_spelling(out.deep_view(), milliseconds),
{
    let date = chrono::DateTime::<chrono::Utc>::from_timestamp_millis(milliseconds)?;
    Some(date.to_rfc3339_opts(chrono::SecondsFormat::Millis, true))
}

/// `chrono::DateTime::parse_from_rfc3339`, brought to UTC and written by
/// `to_rfc3339_opts` with milliseconds and `Z`.
#[verifier::external_body]
pub(crate) fn iso_from_rfc3339(value: &str) -> (out: Option<String>)
    ensures
        out.deep_view() == iso_of_rfc3339(value@),
{
    let date = chrono::DateTime::parse_from_rfc3339(value).ok()?;
    Some(date.with_timezone(&chrono::Utc).to_rfc3339_opts(chrono::SecondsFormat::Millis, true))
}

/// `chrono::DateTime::parse_from_str`, brought to UTC and written by
/// `to_rfc3339_opts` with milliseconds and `Z`.
#[verifier::external_body]
pub(crate) fn iso_from_format(value: &str, format: &str) -> (out: Option<String>)
    ensures
        out.deep_view() == iso_of_format(value@, format@),
{
    let date = chrono::DateTime::parse_from_str(value, format).ok()?;
    Some(date.with_timezone(&chrono::Utc).to_rfc3339_opts(chrono::SecondsFormat::Millis, true))
}

// ----------------------------------------------------------------------
// url

/// The parts of a URL that the library reads.
#[derive(Debug, Clone)]
pub struct UrlParts {
    /// The URL in its normal form.
    pub href: String,
    pub scheme: String,
    pub host: Option<String>,
    /// The segments of the path, where the URL has a path of segments.
    pub segments: Option<Vec<String>>,
}

/// The model of `UrlParts`.
pub struct UrlView {
    pub href: Seq<char>,
    pub scheme: Seq<char>,
    pub host: Option<Seq<char>>,
    pub segments: Option<Seq<Seq<char>>>,
}

impl DeepView for UrlParts {
    type V = UrlView;

    open spec fn deep_view(&self) -> UrlView {
        UrlView {
            href: self.href@,
            scheme: self.scheme@,
            host: self.host.deep_view(),
            segments: self.segments.deep_view(),
        }
    }
}

/// The parts of the URL that `value` spells; none where it spells none.
pub uninterp spec fn url_parts(value: Seq<char>) -> Option<UrlView>;

/// The URL that the reference `path` names from `base`, or why there is none.
pub uninterp spec fn url_joined(base: Seq<char>, path: Seq<char>) -> Result<Seq<char>, Seq<char>>;

/// The URL with the pairs added to its query, or why there is none.
pub uninterp spec fn url_with_pairs(
    url: Seq<char>,
    pairs: Seq<(Seq<char>, Seq<char>)>,
) -> Result<Seq<char>, Seq<char>>;

/// The models of the two sides of a `Result` of strings.
pub open spec fn result_view(value: Result<String, String>) -> Result<Seq<char>, Seq<char>> {
    match value {
        Ok(value) => Ok(value@),
        Err(value) => Err(value@),
    }
}

/// A text of ASCII letters, digits and underscores, and at least one.
pub open spec fn is_plain(part: Seq<char>) -> bool {
    part.len() > 0 && forall|i: int|
        0 <= i < part.len() ==> text::is_letter(#[trigger] part[i]) || text::is_digit(part[i])
            || part[i] == '_'
}

/// The address at `x.com` with these segments of its path.
pub open spec fn address_with(segments: Seq<Seq<char>>) -> Seq<char> {
    "https://x.com/"@ + text::join(segments, "/"@)
}

/// Whether an address at `x.com` with plain segments is taken apart into what
/// it is put together from.
pub open spec fn is_taken_apart(value: Seq<char>, url: Option<UrlView>) -> bool {
    forall|segments: Seq<Seq<char>>|
        segments.len() > 0 && (forall|i: int|
            0 <= i < segments.len() ==> is_plain(#[trigger] segments[i])) && value
            == #[trigger] address_with(segments) ==> url == Some(
            UrlView {
                href: value,
                scheme: "https"@,
                host: Some("x.com"@),
                segments: Some(segments),
            },
        )
}

/// `url::Url::parse`, with what `as_str`, `scheme`, `host_str` and
/// `path_segments` say of the result. An address at `x.com` whose segments need
/// no encoding is its own normal form, and has that host and those segments.
#[verifier::external_body]
pub(crate) fn parse_url(value: &str) -> (out: Option<UrlParts>)
    ensures
        out.deep_view() == url_parts(value@),
        is_taken_apart(value@, out.deep_view()),
{
    let url = url::Url::parse(value).ok()?;
    Some(UrlParts {
        href: url.as_str().to_owned(),
        scheme: url.scheme().to_owned(),
        host: url.host_str().map(str::to_owned),
        segments: url.path_segments().map(|parts| parts.map(str::to_owned).collect()),
    })
}

/// `url::Url::join`, on the URL that `base` spells. The error is the text of
/// the crate's error.
#[verifier::external_body]
pub(crate) fn join_url(base: &str, path: &str) -> (out: Result<String, String>)
    ensures
        result_view(out) == url_joined(base@, path@),
{
    let joined = url::Url::parse(base).and_then(|base| base.join(path));
    joined.map(String::from).map_err(|error| error.to_string())
}

/// `url::Url::query_pairs_mut` and its `extend_pairs`, on the URL that `url`
/// spells. The error is the text of the crate's error.
#[verifier::external_body]
pub(crate) fn add_query(url: &str, pairs: &[(String, String)]) -> (out: Result<String, String>)
    ensures
        result_view(out) == url_with_pairs(url@, pairs.deep_view()),
{
    let mut url = url::Url::parse(url).map_err(|error| error.to_string())?;
    url.query_pairs_mut().extend_pairs(pairs);
    Ok(String::from(url))
}

// ----------------------------------------------------------------------
// serde_json

/// `serde_json::Value`, a parsed JSON document.
#[verifier::external_type_specification]
#[verifier::external_body]
pub struct ExValue(serde_json::Value);

/// What a `serde_json::Value` holds.
pub uninterp spec fn json_contents(value: serde_json::Value) -> JsonView;

/// The JSON document that a text spells, or why it spells none.
pub uninterp spec fn json_document(source: Seq<char>) -> Result<JsonView, Seq<char>>;

/// `serde_json::from_str`: the document that the text spells. The error is the
/// text of the crate's error.
#[verifier::external_body]
fn json_decode(source: &str) -> (out: Result<serde_json::Value, String>)
    ensures
        match out {
            Ok(value) => json_document(source@) == Ok::<JsonView, Seq<char>>(json_contents(value)),
            Err(error) => json_document(source@) == Err::<JsonView, Seq<char>>(error@),
        },
{
    serde_json::from_str(source).map_err(|error| error.to_string())
}

/// The variants of `serde_json::Value`, one for one; a number by what
/// `serde_json::Number` says in `as_u64` and `as_f64`.
#[verifier::external_body]
fn json_convert(value: &serde_json::Value) -> (out: Json)
    ensures
        out@ == json_contents(*value),
{
    match value {
        serde_json::Value::Null => Json::Null,
        serde_json::Value::Bool(value) => Json::Bool(*value),
        serde_json::Value::Number(number) => Json::Number(
            JsonNumber { unsigned: number.as_u64(), double: number.as_f64().map(|x| x.to_bits()) },
        ),
        serde_json::Value::String(value) => Json::Text(value.clone()),
        serde_json::Value::Array(items) => Json::Array(items.iter().map(json_convert).collect()),
        serde_json::Value::Object(members) => Json::Object(
            members.iter().map(
                |(name, value)| Member { name: name.clone(), value: json_convert(value) },
            ).collect(),
        ),
    }
}

/// Parses a JSON document.
pub fn parse_json(source: &str) -> (out: Result<Json, String>)
    ensures
        match out {
            Ok(value) => json_document(source@) == Ok::<JsonView, Seq<char>>(value@),
            Err(error) => json_document(source@) == Err::<JsonView, Seq<char>>(error@),
        },
{
    match json_decode(source) {
        Ok(value) => Ok(json_convert(&value)),
        Err(error) => Err(error),
    }
}

// ----------------------------------------------------------------------
// std

/// The bits of the double that a text spells.
pub uninterp spec fn double_of_text(value: Seq<char>) -> Option<u64>;

/// `str::parse` into a double, by its bits. Which pattern stands for "not a
/// number" is left open.
#[verifier::external_body]
pub(crate) fn parse_double(value: &str) -> (out: Option<u64>)
    ensures
        double::same(out, double_of_text(value@)),
{
    // The zero is there for its type, which says what is parsed.
    let mut parsed = std::time::Duration::ZERO.as_secs_f64();
    parsed = value.parse().ok()?;
    Some(parsed.to_bits())
}

} // verus!
