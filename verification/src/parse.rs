//! What post an input refers to.

use vstd::prelude::*;

use crate::bridge;
use crate::bridge::UrlParts;
use crate::bridge::UrlView;
use crate::error::hinted_error;
use crate::error::result_model;
use crate::error::ErrorKind;
use crate::error::ErrorView;
use crate::error::XReadError;
use crate::model::PostReference;
use crate::model::ReferenceView;
use crate::text;

verus! {

/// The pattern of a URL inside a text.
pub const EMBEDDED_URL: &'static str = "(?i)https?://[^\\s<>\\\"']+";

/// The punctuation that is no part of a URL at whose end it stands.
pub open spec fn trailing_marks() -> Seq<char> {
    seq!['>', ',', '.', ';', ')']
}

/// A status ID: one to nineteen digits.
pub open spec fn is_status_id(value: Seq<char>) -> bool {
    1 <= value.len() <= 19 && text::all_digits(value)
}

/// Decides `is_status_id`.
pub fn status_id(value: &str) -> (out: bool)
    ensures
        out == is_status_id(value@),
{
    let len: usize = text::chars_of(value).len();
    1 <= len && len <= 19 && text::text_all_digits(value)
}

/// The hosts of the service: `x.com`, `twitter.com` and what stands below them.
pub open spec fn is_x_hostname(hostname: Seq<char>) -> bool {
    ||| hostname == "x.com"@
    ||| text::ends_with(hostname, ".x.com"@)
    ||| hostname == "twitter.com"@
    ||| text::ends_with(hostname, ".twitter.com"@)
}

/// Decides `is_x_hostname`.
fn x_hostname(hostname: &str) -> (out: bool)
    ensures
        out == is_x_hostname(hostname@),
{
    text::same(hostname, "x.com") || text::text_ends_with(hostname, ".x.com") || text::same(
        hostname,
        "twitter.com",
    ) || text::text_ends_with(hostname, ".twitter.com")
}

/// The address of a post, under its author or under `i`.
pub open spec fn canonical_url(username: Option<Seq<char>>, id: Seq<char>) -> Seq<char> {
    "https://x.com/"@ + (match username {
        Some(username) => username,
        None => "i"@,
    }) + "/status/"@ + id
}

/// Writes `canonical_url`.
pub fn canonical_url_text(username: Option<&str>, id: &str) -> (out: String)
    ensures
        out@ == canonical_url(username.deep_view(), id@),
{
    let name = match username {
        Some(username) => username,
        None => "i",
    };
    text::cat4("https://x.com/", name, "/status/", id)
}

/// A reference to the post `id`.
pub open spec fn reference_to(
    id: Seq<char>,
    username: Option<Seq<char>>,
    original: Seq<char>,
) -> ReferenceView {
    ReferenceView { id, original, username, url: canonical_url(username, id) }
}

fn make_reference(id: &str, username: Option<String>, original: &str) -> (out: PostReference)
    ensures
        out.deep_view() == reference_to(id@, username.deep_view(), original@),
{
    let url = match &username {
        Some(name) => canonical_url_text(Some(name.as_str()), id),
        None => canonical_url_text(None, id),
    };
    PostReference { id: id.to_owned(), original: original.to_owned(), username, url }
}

/// The error for an input that names no post.
pub open spec fn invalid_reference() -> ErrorView {
    hinted_error(
        ErrorKind::InvalidInput,
        "无法识别这个 X 推文链接或 ID。"@,
        "支持 x.com/<用户>/status/<ID>、twitter.com/<用户>/status/<ID> 或纯数字 ID。"@,
    )
}

fn invalid_reference_error() -> (out: XReadError)
    ensures
        out.deep_view() == invalid_reference(),
{
    XReadError::invalid_input("无法识别这个 X 推文链接或 ID。").with_hint(
        "支持 x.com/<用户>/status/<ID>、twitter.com/<用户>/status/<ID> 或纯数字 ID。",
    )
}

/// The error for an input without anything in it.
pub open spec fn missing_reference() -> ErrorView {
    hinted_error(
        ErrorKind::InvalidInput,
        "缺少 X 推文链接或推文 ID。"@,
        "例如：xread https://x.com/Interior/status/463440424141459456"@,
    )
}

/// Whether `value` begins with a host of the service and a slash, without a scheme.
pub open spec fn lacks_scheme(value: Seq<char>) -> bool {
    ||| text::starts_with(value, "x.com/"@)
    ||| text::starts_with(value, "www.x.com/"@)
    ||| text::starts_with(value, "mobile.x.com/"@)
    ||| text::starts_with(value, "twitter.com/"@)
    ||| text::starts_with(value, "www.twitter.com/"@)
    ||| text::starts_with(value, "mobile.twitter.com/"@)
}

/// A URL as people write it, without punctuation at its end and with a scheme.
pub open spec fn cleaned_url(written: Seq<char>) -> Seq<char> {
    let cleaned = text::trim_end_by(written, text::among(trailing_marks()));
    if lacks_scheme(text::lower_case(cleaned)) {
        "https://"@ + cleaned
    } else {
        cleaned
    }
}

/// The URLs to try for a trimmed input: those found inside it, in their order,
/// else the whole of it.
pub open spec fn candidate_urls(found: Seq<Seq<char>>, trimmed: Seq<char>) -> Seq<Seq<char>> {
    if found.len() == 0 {
        seq![cleaned_url(trimmed)]
    } else {
        Seq::new(found.len(), |i: int| cleaned_url(found[i]))
    }
}

/// Computes `cleaned_url`.
fn clean_url(written: &str) -> (out: String)
    ensures
        out@ == cleaned_url(written@),
{
    let marks: [char; 5] = ['>', ',', '.', ';', ')'];
    assert(marks@ == trailing_marks());
    let cleaned = text::trim_end_set(written, &marks);
    let low = text::to_lower(cleaned);
    let low = low.as_str();
    if text::text_starts_with(low, "x.com/") || text::text_starts_with(low, "www.x.com/")
        || text::text_starts_with(low, "mobile.x.com/") || text::text_starts_with(
        low,
        "twitter.com/",
    ) || text::text_starts_with(low, "www.twitter.com/") || text::text_starts_with(
        low,
        "mobile.twitter.com/",
    ) {
        text::cat2("https://", cleaned)
    } else {
        cleaned.to_owned()
    }
}

/// The URLs to try for a trimmed input, by the URLs found inside it.
pub fn list_candidates(found: &Vec<String>, trimmed: &str) -> (out: Vec<String>)
    ensures
        out.deep_view() == candidate_urls(found.deep_view(), trimmed@),
{
    let ghost model = found.deep_view();
    let mut out: Vec<String> = Vec::new();
    assert(out.deep_view() == Seq::<Seq<char>>::empty());
    if found.len() == 0 {
        text::push_line(&mut out, clean_url(trimmed));
        assert(out.deep_view() == candidate_urls(model, trimmed@));
        return out;
    }
    let mut i: usize = 0;
    while i < found.len()
        invariant
            i <= found@.len(),
            model == found.deep_view(),
            model.len() > 0,
            out.deep_view() == candidate_urls(model, trimmed@).take(i as int),
        decreases found.len() - i,
    {
        assert(model[i as int] == found@[i as int]@);
        text::push_line(&mut out, clean_url(found[i].as_str()));
        assert(out.deep_view() == candidate_urls(model, trimmed@).take(i + 1));
        i = i + 1;
    }
    assert(out.deep_view() == candidate_urls(model, trimmed@));
    out
}

/// Whether a path segment announces a status ID.
pub open spec fn announces_status(segment: Seq<char>) -> bool {
    text::lower_case(segment) == text::lower_case("status"@) || text::lower_case(segment)
        == text::lower_case("statuses"@)
}

/// The position of the first segment from `from` on that announces a status ID.
pub open spec fn status_position(segments: Seq<Seq<char>>, from: int) -> Option<int>
    decreases segments.len() - from,
{
    if from < 0 || from >= segments.len() {
        None
    } else if announces_status(segments[from]) {
        Some(from)
    } else {
        status_position(segments, from + 1)
    }
}

/// The non-empty segments of the path of a URL.
pub open spec fn path_segments(url: UrlView) -> Seq<Seq<char>> {
    match url.segments {
        Some(segments) => text::drop_empty(segments),
        None => Seq::empty(),
    }
}

/// The post that a parsed URL refers to: its host is one of the service, and
/// the segment behind the first `status` is a status ID. The first segment is
/// the author, unless it is `i`.
pub open spec fn reference_in_url(url: Option<UrlView>, original: Seq<char>) -> Result<
    ReferenceView,
    ErrorView,
> {
    match url {
        Some(UrlView { host: Some(host), href, scheme, segments }) => {
            let parts = path_segments(url->0);
            if !is_x_hostname(text::lower_case(host)) {
                Err(invalid_reference())
            } else {
                match status_position(parts, 0) {
                    Some(at) => if at + 1 < parts.len() && is_status_id(parts[at + 1]) {
                        let username = if text::lower_case(parts[0]) == text::lower_case("i"@) {
                            None
                        } else {
                            Some(parts[0])
                        };
                        Ok(reference_to(parts[at + 1], username, original))
                    } else {
                        Err(invalid_reference())
                    },
                    None => Err(invalid_reference()),
                }
            }
        },
        _ => Err(invalid_reference()),
    }
}

/// Finds the first segment that announces a status ID.
fn find_status(segments: &Vec<String>) -> (out: Option<usize>)
    ensures
        match out {
            Some(at) => at < segments@.len() && status_position(segments.deep_view(), 0) == Some(
                at as int,
            ),
            None => status_position(segments.deep_view(), 0) is None,
        },
{
    let ghost model = segments.deep_view();
    let mut i: usize = 0;
    while i < segments.len()
        invariant
            i <= segments@.len(),
            model == segments.deep_view(),
            status_position(model, 0) == status_position(model, i as int),
        decreases segments.len() - i,
    {
        assert(model[i as int] == segments@[i as int]@);
        let segment = segments[i].as_str();
        if text::same_ignoring_case(segment, "status") || text::same_ignoring_case(
            segment,
            "statuses",
        ) {
            return Some(i);
        }
        i = i + 1;
    }
    None
}

/// Reads a reference from a parsed URL. `original` is kept with it.
pub fn reference_from_url(url: &Option<UrlParts>, original: &str) -> (out: Result<
    PostReference,
    XReadError,
>)
    ensures
        result_model(out) == reference_in_url(url.deep_view(), original@),
{
    let url = match url {
        Some(url) => url,
        None => {
            return Err(invalid_reference_error());
        },
    };
    let host = match &url.host {
        Some(host) => text::to_lower(host.as_str()),
        None => {
            return Err(invalid_reference_error());
        },
    };
    if !x_hostname(host.as_str()) {
        return Err(invalid_reference_error());
    }
    let segments = match &url.segments {
        Some(segments) => text::without_empty(segments.as_slice()),
        None => Vec::new(),
    };
    assert(segments.deep_view() == path_segments(url.deep_view()));
    let at: usize = match find_status(&segments) {
        Some(at) => at,
        None => {
            return Err(invalid_reference_error());
        },
    };
    if at >= segments.len() - 1 {
        return Err(invalid_reference_error());
    }
    let ghost model = segments.deep_view();
    assert(model[at + 1] == segments@[at + 1]@);
    assert(model[0] == segments@[0]@);
    let id = segments[at + 1].as_str();
    if !status_id(id) {
        return Err(invalid_reference_error());
    }
    let username = if text::same_ignoring_case(segments[0].as_str(), "i") {
        None
    } else {
        Some(segments[0].clone())
    };
    Ok(make_reference(id, username, original))
}

/// The post that the first URL refers to which refers to one.
pub open spec fn first_reference(urls: Seq<Option<UrlView>>, original: Seq<char>) -> Result<
    ReferenceView,
    ErrorView,
>
    decreases urls.len(),
{
    if urls.len() == 0 {
        Err(invalid_reference())
    } else {
        match first_reference(urls.drop_last(), original) {
            Ok(reference) => Ok(reference),
            Err(_) => reference_in_url(urls.last(), original),
        }
    }
}

/// Reads a reference from the first parsed URL that refers to a post.
pub fn reference_from_urls(urls: Vec<Option<UrlParts>>, original: &str) -> (out: Result<
    PostReference,
    XReadError,
>)
    ensures
        result_model(out) == first_reference(urls.deep_view(), original@),
{
    let ghost model = urls.deep_view();
    let mut out: Result<PostReference, XReadError> = Err(invalid_reference_error());
    let mut i: usize = 0;
    while i < urls.len()
        invariant
            i <= urls@.len(),
            model == urls.deep_view(),
            result_model(out) == first_reference(model.take(i as int), original@),
        decreases urls.len() - i,
    {
        assert(model.take(i + 1).drop_last() == model.take(i as int));
        assert(model[i as int] == urls@[i as int].deep_view());
        if out.is_err() {
            out = reference_from_url(&urls[i], original);
        }
        i = i + 1;
    }
    assert(model.take(i as int) == model);
    out
}

/// The parsed URLs to try for a trimmed input.
pub open spec fn urls_to_try(trimmed: Seq<char>) -> Seq<Option<UrlView>> {
    let candidates = candidate_urls(bridge::regex_matches(EMBEDDED_URL@, trimmed), trimmed);
    Seq::new(candidates.len(), |i: int| bridge::url_parts(candidates[i]))
}

fn parse_candidates(candidates: &Vec<String>) -> (out: Vec<Option<UrlParts>>)
    ensures
        out.deep_view() == Seq::new(
            candidates.deep_view().len(),
            |i: int| bridge::url_parts(candidates.deep_view()[i]),
        ),
        forall|i: int|
            0 <= i < candidates@.len() ==> bridge::is_taken_apart(
                (#[trigger] candidates@[i])@,
                bridge::url_parts(candidates@[i]@),
            ),
{
    let ghost model = candidates.deep_view();
    let ghost parsed = Seq::new(model.len(), |i: int| bridge::url_parts(model[i]));
    let mut out: Vec<Option<UrlParts>> = Vec::new();
    assert(out.deep_view() == parsed.take(0));
    let mut i: usize = 0;
    while i < candidates.len()
        invariant
            i <= candidates@.len(),
            model == candidates.deep_view(),
            parsed == Seq::new(model.len(), |i: int| bridge::url_parts(model[i])),
            out.deep_view() == parsed.take(i as int),
            forall|j: int|
                0 <= j < i ==> bridge::is_taken_apart(
                    (#[trigger] candidates@[j])@,
                    bridge::url_parts(candidates@[j]@),
                ),
        decreases candidates.len() - i,
    {
        assert(model[i as int] == candidates@[i as int]@);
        let ghost before = out.deep_view();
        let url = bridge::parse_url(candidates[i].as_str());
        let ghost added = url.deep_view();
        out.push(url);
        assert(out.deep_view() == before.push(added));
        assert(parsed.take(i + 1) == before.push(added));
        i = i + 1;
    }
    assert(parsed.take(i as int) == parsed);
    out
}

/// The post that an input refers to: a status ID, a URL of the service, or a
/// text that holds such a URL, whatever other URLs stand in it.
pub open spec fn reference_of(input: Seq<char>) -> Result<ReferenceView, ErrorView> {
    let trimmed = text::trim(input);
    if trimmed.len() == 0 {
        Err(missing_reference())
    } else if is_status_id(trimmed) {
        Ok(reference_to(trimmed, None, trimmed))
    } else {
        first_reference(urls_to_try(trimmed), trimmed)
    }
}

/// Whether the address of a post is one under the name of this user: the name
/// is plain, and no word with a meaning of its own in an address.
pub open spec fn is_addressable(username: Option<Seq<char>>) -> bool {
    match username {
        Some(name) => bridge::is_plain(name) && !announces_status(name) && text::lower_case(name)
            != text::lower_case("i"@),
        None => true,
    }
}

/// Accept a status ID, a normal X/Twitter URL, or text containing such a URL.
/// The address of a post is read back: it gives the post and the user from
/// which it is made.
pub fn parse_post_reference(input: &str) -> (out: Result<PostReference, XReadError>)
    ensures
        result_model(out) == reference_of(input@),
        forall|username: Option<Seq<char>>, id: Seq<char>|
            is_status_id(id) && is_addressable(username) && input@ == #[trigger] canonical_url(
                username,
                id,
            ) ==> result_model(out) == Ok::<ReferenceView, ErrorView>(
                reference_to(id, username, input@),
            ),
{
    proof {
        assert forall|username: Option<Seq<char>>, id: Seq<char>|
            is_status_id(id) && is_addressable(username) && input@ == #[trigger] canonical_url(
                username,
                id,
            ) implies {
            &&& text::trim(input@) == input@
            &&& input@.len() > 0
            &&& !is_status_id(input@)
        } by {
            lemma_address(username, id);
        }
    }
    let trimmed = text::trim_text(input);
    if trimmed.is_empty() {
        return Err(
            XReadError::invalid_input("缺少 X 推文链接或推文 ID。").with_hint(
                "例如：xread https://x.com/Interior/status/463440424141459456",
            ),
        );
    }
    if status_id(trimmed) {
        return Ok(make_reference(trimmed, None, trimmed));
    }
    let found = bridge::regex_find_all(EMBEDDED_URL, trimmed);
    let candidates = list_candidates(&found, trimmed);
    let urls = parse_candidates(&candidates);
    assert(urls.deep_view() == urls_to_try(trimmed@));
    proof {
        assert forall|username: Option<Seq<char>>, id: Seq<char>|
            is_status_id(id) && is_addressable(username) && input@ == #[trigger] canonical_url(
                username,
                id,
            ) implies reference_of(input@) == Ok::<ReferenceView, ErrorView>(
            reference_to(id, username, input@),
        ) by {
            lemma_address(username, id);
            assert(found.deep_view() == seq![input@]);
            assert(candidates.deep_view() == seq![input@]);
            assert(candidates@[0]@ == candidates.deep_view()[0]);
            assert(bridge::is_taken_apart(input@, bridge::url_parts(input@)));
            assert(bridge::address_with(address_segments(username, id)) == input@);
            law_addresses_are_read_back(username, id);
        }
    }
    reference_from_urls(urls, trimmed)
}

/// The segments of the address of a post.
pub open spec fn address_segments(username: Option<Seq<char>>, id: Seq<char>) -> Seq<Seq<char>> {
    seq![
        match username {
            Some(name) => name,
            None => "i"@,
        },
        "status"@,
        id,
    ]
}

/// The address of a post has nothing to trim, is no ID, is one URL, and is made
/// of plain segments.
proof fn lemma_address(username: Option<Seq<char>>, id: Seq<char>)
    requires
        is_status_id(id),
        is_addressable(username),
    ensures
        ({
            let address = canonical_url(username, id);
            let segments = address_segments(username, id);
            &&& text::trim(address) == address
            &&& address.len() > 0
            &&& !is_status_id(address)
            &&& cleaned_url(address) == address
            &&& bridge::is_one_url(address)
            &&& bridge::address_with(segments) == address
            &&& forall|i: int| 0 <= i < segments.len() ==> bridge::is_plain(#[trigger] segments[i])
        }),
{
    let address = canonical_url(username, id);
    let segments = address_segments(username, id);
    let name = segments[0];
    reveal_strlit("https://");
    reveal_strlit("https://x.com/");
    reveal_strlit("/status/");
    reveal_strlit("/");
    reveal_strlit("status");
    reveal_strlit("i");
    reveal_strlit("x.com/");
    reveal_strlit("www.x.com/");
    reveal_strlit("mobile.x.com/");
    reveal_strlit("twitter.com/");
    reveal_strlit("www.twitter.com/");
    reveal_strlit("mobile.twitter.com/");
    assert(address[0] == 'h');
    assert(address.last() == id.last());
    assert(text::is_digit(id[id.len() - 1]));
    assert(text::trim(address) == address);
    assert(!is_status_id(address)) by {
        assert(!text::is_digit(address[0]));
    }
    let marks = text::among(trailing_marks());
    assert(!marks(address.last()));
    assert(text::trim_end_by(address, marks) == address);
    let low = text::lower_case(address);
    assert(low[0] == 'h');
    assert(!lacks_scheme(low)) by {
        assert forall|prefix: Seq<char>| prefix.len() > 0 && prefix[0] != 'h' implies !(
        #[trigger] text::starts_with(low, prefix)) by {
            if text::starts_with(low, prefix) {
                assert(low.subrange(0, prefix.len() as int)[0] == low[0]);
            }
        }
    }
    assert(bridge::is_plain(name));
    assert(bridge::is_plain("status"@));
    assert(bridge::is_plain(id));
    assert forall|i: int| 0 <= i < segments.len() implies bridge::is_plain(
        #[trigger] segments[i],
    ) by {
        assert(i == 0 || i == 1 || i == 2);
    }
    assert(address.subrange(0, 8) == "https://"@);
    assert forall|i: int| 8 <= i < address.len() implies '!' <= (#[trigger] address[i]) <= '~'
        && address[i] != '<' && address[i] != '>' && address[i] != '"' && address[i] != '\'' by {
        if 14 <= i < 14 + name.len() {
            assert(address[i] == name[i - 14]);
        } else if i >= 22 + name.len() {
            assert(address[i] == id[i - 22 - name.len()]);
            assert(text::is_digit(id[i - 22 - name.len()]));
        }
    }
    let two = segments.drop_last();
    let one = two.drop_last();
    assert(text::join(one, "/"@) == name);
    assert(text::join(two, "/"@) == name + "/"@ + "status"@);
    assert(text::join(segments, "/"@) == name + "/"@ + "status"@ + "/"@ + id);
    assert(bridge::address_with(segments) == address);
}

// ----------------------------------------------------------------------
// Laws

/// What `first_reference` finds is what the first URL refers to that refers to
/// a post, and its place is returned; there is an error where there is none.
proof fn lemma_first_reference(urls: Seq<Option<UrlView>>, original: Seq<char>) -> (at: int)
    ensures
        match first_reference(urls, original) {
            Ok(reference) => {
                &&& 0 <= at < urls.len()
                &&& reference_in_url(urls[at], original) == Ok::<ReferenceView, ErrorView>(
                    reference,
                )
                &&& forall|i: int|
                    0 <= i < at ==> reference_in_url(#[trigger] urls[i], original) is Err
            },
            Err(error) => {
                &&& error == invalid_reference()
                &&& forall|i: int|
                    0 <= i < urls.len() ==> reference_in_url(#[trigger] urls[i], original) is Err
            },
        },
    decreases urls.len(),
{
    if urls.len() == 0 {
        0
    } else {
        let rest = urls.drop_last();
        let at = lemma_first_reference(rest, original);
        assert forall|i: int| 0 <= i < rest.len() implies #[trigger] urls[i] == rest[i] by {}
        if first_reference(rest, original) is Ok {
            at
        } else {
            urls.len() - 1
        }
    }
}

/// Whatever URLs stand in a text, the first one that refers to a post decides.
/// Where there is one, the text is accepted; where there is none, it is refused
/// with the error for an input that names no post.
pub proof fn law_any_url_of_the_text_will_do(input: Seq<char>, at: int)
    requires
        text::trim(input).len() > 0,
        !is_status_id(text::trim(input)),
    ensures
        ({
            let original = text::trim(input);
            let urls = urls_to_try(original);
            &&& 0 <= at < urls.len() && reference_in_url(urls[at], original) is Ok && (forall|
                i: int,
            |
                0 <= i < at ==> reference_in_url(#[trigger] urls[i], original) is Err)
                ==> reference_of(input) == reference_in_url(urls[at], original)
            &&& 0 <= at < urls.len() && reference_in_url(urls[at], original) is Ok
                ==> reference_of(input) is Ok
            &&& (forall|i: int|
                0 <= i < urls.len() ==> reference_in_url(#[trigger] urls[i], original) is Err)
                ==> reference_of(input) == Err::<ReferenceView, ErrorView>(invalid_reference())
        }),
{
    let original = text::trim(input);
    let urls = urls_to_try(original);
    let found = lemma_first_reference(urls, original);
    if first_reference(urls, original) is Ok {
        assert(reference_in_url(urls[found], original) is Ok);
    }
}

/// Every accepted reference has a status ID, keeps the trimmed input, and has
/// the canonical address of that post. A user in it has a name, which is not the
/// `i` of addresses without a user.
pub proof fn law_references_are_canonical(input: Seq<char>)
    ensures
        reference_of(input) matches Ok(reference) ==> {
            &&& is_status_id(reference.id)
            &&& reference.original == text::trim(input)
            &&& reference.url == canonical_url(reference.username, reference.id)
            &&& reference.username matches Some(name) ==> name.len() > 0 && text::lower_case(name)
                != text::lower_case("i"@)
        },
{
    let trimmed = text::trim(input);
    let at = lemma_first_reference(urls_to_try(trimmed), trimmed);
    if first_reference(urls_to_try(trimmed), trimmed) is Ok {
        let found = urls_to_try(trimmed)[at]->0;
        if let Some(segments) = found.segments {
            text::lemma_drop_empty(segments);
        }
    }
}

/// The address of a post, read again, gives that post and that user. What the
/// law takes of the search for URLs and of their parser is what both are said
/// to do with such an address, so that `parse_post_reference` promises the same
/// of every address without any condition.
pub proof fn law_addresses_are_read_back(username: Option<Seq<char>>, id: Seq<char>)
    requires
        is_status_id(id),
        is_addressable(username),
        bridge::is_found_whole(
            EMBEDDED_URL@,
            canonical_url(username, id),
            bridge::regex_matches(EMBEDDED_URL@, canonical_url(username, id)),
        ),
        bridge::is_taken_apart(
            canonical_url(username, id),
            bridge::url_parts(canonical_url(username, id)),
        ),
    ensures
        reference_of(canonical_url(username, id)) == Ok::<ReferenceView, ErrorView>(
            reference_to(id, username, canonical_url(username, id)),
        ),
{
    let address = canonical_url(username, id);
    let segments = address_segments(username, id);
    lemma_address(username, id);
    assert(bridge::address_with(segments) == address);
    let url = bridge::url_parts(address)->0;
    assert(url.segments == Some(segments));
    assert(urls_to_try(address) == seq![Some(url)]);
    text::lemma_drop_empty(segments);
    assert(path_segments(url) == segments);
    reveal_strlit("status");
    reveal_strlit("statuses");
    reveal_strlit("i");
    reveal_strlit("x.com");
    assert(!announces_status(segments[0])) by {
        if username is None {
            assert(text::lower_case("i"@).len() == 1);
            assert(text::lower_case("status"@).len() == 6);
            assert(text::lower_case("statuses"@).len() == 8);
        }
    }
    assert(announces_status(segments[1]));
    assert(status_position(segments, 1) == Some(1int));
    assert(status_position(segments, 0) == Some(1int));
    assert(is_x_hostname(text::lower_case("x.com"@))) by {
        assert(text::lower_case("x.com"@) == "x.com"@);
    }
    let urls = seq![Some(url)];
    assert(first_reference(urls.drop_last(), address) is Err);
}

/// A status ID is its own reference, whatever white space stands around it.
pub proof fn law_status_ids_are_accepted(input: Seq<char>)
    requires
        is_status_id(text::trim(input)),
    ensures
        reference_of(input) == Ok::<ReferenceView, ErrorView>(
            reference_to(text::trim(input), None, text::trim(input)),
        ),
{
}

/// No URL of a foreign host is accepted, however much its name looks like one
/// of the service: the host is one of the two names, or ends with one behind a dot.
pub proof fn law_foreign_hosts_are_refused(url: UrlView, original: Seq<char>)
    ensures
        reference_in_url(Some(url), original) is Ok ==> (url.host matches Some(host) && {
            let name = text::lower_case(host);
            ||| name == "x.com"@
            ||| name == "twitter.com"@
            ||| (exists|front: Seq<char>| name == #[trigger] (front + ".x.com"@))
            ||| (exists|front: Seq<char>| name == #[trigger] (front + ".twitter.com"@))
        }),
{
    if reference_in_url(Some(url), original) is Ok {
        let name = text::lower_case(url.host->0);
        if text::ends_with(name, ".x.com"@) {
            let front = name.take(name.len() - ".x.com"@.len());
            assert(name == front + ".x.com"@);
        }
        if text::ends_with(name, ".twitter.com"@) {
            let front = name.take(name.len() - ".twitter.com"@.len());
            assert(name == front + ".twitter.com"@);
        }
    }
}

/// A text of one to nineteen digits is the post of that number, without a user;
/// nothing but white space is refused, with a hint.
pub proof fn law_numbers_are_posts(input: Seq<char>)
    ensures
        1 <= input.len() <= 19 && text::all_digits(input) ==> (reference_of(input) matches Ok(
            reference,
        ) && reference.id == input && reference.username is None && reference.url
            == "https://x.com/i/status/"@ + input),
        (forall|i: int| 0 <= i < input.len() ==> text::is_whitespace(#[trigger] input[i])) ==> (
        reference_of(input) matches Err(error) && error.kind == ErrorKind::InvalidInput
            && error.hint is Some),
        reference_of(input) matches Err(error) ==> error.kind == ErrorKind::InvalidInput,
{
    if 1 <= input.len() <= 19 && text::all_digits(input) {
        assert(text::is_digit(input[0]));
        assert(text::is_digit(input.last())) by {
            assert(input[input.len() - 1] == input.last());
        }
        text::lemma_ink(input, 0);
        assert(text::trim(input) == input);
        reveal_strlit("https://x.com/i/status/");
        reveal_strlit("https://x.com/");
        reveal_strlit("i");
        reveal_strlit("/status/");
        assert("https://x.com/i/status/"@ == "https://x.com/"@ + "i"@ + "/status/"@);
    }
    if forall|i: int| 0 <= i < input.len() ==> text::is_whitespace(#[trigger] input[i]) {
        text::lemma_all_white(input);
    }
    let trimmed = text::trim(input);
    let at = lemma_first_reference(urls_to_try(trimmed), trimmed);
}

/// A URL on a host of the service, with a status ID behind `status` or
/// `statuses`, refers to that post and to the user in front of it; `i` is no
/// user. What follows the ID does not matter.
pub proof fn law_urls_of_the_service_are_posts(
    url: UrlView,
    user: Seq<char>,
    id: Seq<char>,
    tail: Seq<Seq<char>>,
    original: Seq<char>,
)
    requires
        url.host == Some("x.com"@) || url.host == Some("twitter.com"@) || url.host == Some(
            "www.x.com"@,
        ) || url.host == Some("mobile.twitter.com"@),
        url.segments == Some(seq![user, "status"@, id] + tail) || url.segments == Some(
            seq![user, "statuses"@, id] + tail,
        ),
        forall|i: int| 0 <= i < tail.len() ==> (#[trigger] tail[i]).len() > 0,
        user.len() > 0,
        user.len() != 6,
        user.len() != 8,
    ensures
        1 <= id.len() <= 19 && text::all_digits(id) ==> (reference_in_url(
            Some(url),
            original,
        ) matches Ok(reference) && reference.id == id && reference.original == original && (
        user.len() > 1 ==> reference.username == Some(user) && reference.url == "https://x.com/"@
            + user + "/status/"@ + id) && (user == "i"@ || user == "I"@
            ==> reference.username is None && reference.url == "https://x.com/"@ + "i"@
            + "/status/"@ + id)),
        id.len() > 19 || (id.len() > 0 && !text::all_digits(id)) ==> (reference_in_url(
            Some(url),
            original,
        ) matches Err(error) && error.kind == ErrorKind::InvalidInput),
{
    if id.len() > 0 {
        let segments = url.segments->0;
        lemma_hosts(url.host->0);
        assert(segments[0] == user && segments[2] == id);
        assert forall|i: int| 0 <= i < segments.len() implies (#[trigger] segments[i]).len()
            > 0 by {
            reveal_strlit("status");
            reveal_strlit("statuses");
            if i >= 3 {
                assert(segments[i] == tail[i - 3]);
            }
        }
        text::lemma_drop_empty(segments);
        assert(path_segments(url) == segments);
        reveal_strlit("status");
        reveal_strlit("statuses");
        assert(text::lower_case("status"@).len() == 6 && text::lower_case("statuses"@).len() == 8
            && text::lower_case(user).len() == user.len());
        assert(!announces_status(user));
        assert(announces_status(segments[1]));
        assert(status_position(segments, 1) == Some(1int));
        assert(status_position(segments, 0) == Some(1int));
        reveal_strlit("i");
        reveal_strlit("I");
        assert(text::lower_case("i"@).len() == 1);
        if user == "I"@ {
            assert(text::lower_case(user) == text::lower_case("i"@));
        }
    }
}

/// The hosts of the service.
proof fn lemma_hosts(host: Seq<char>)
    requires
        host == "x.com"@ || host == "twitter.com"@ || host == "www.x.com"@ || host
            == "mobile.twitter.com"@,
    ensures
        is_x_hostname(text::lower_case(host)),
{
    reveal_strlit("x.com");
    reveal_strlit("twitter.com");
    reveal_strlit("www.x.com");
    reveal_strlit("mobile.twitter.com");
    reveal_strlit(".x.com");
    reveal_strlit(".twitter.com");
    assert(text::lower_case(host) == host);
    if host == "www.x.com"@ {
        assert(host.subrange(3, 9) == ".x.com"@);
    }
    if host == "mobile.twitter.com"@ {
        assert(host.subrange(6, 18) == ".twitter.com"@);
    }
}

/// A mark that ends a sentence or a bracket in front of which a URL stands.
pub open spec fn is_mark(c: char) -> bool {
    c == '.' || c == ',' || c == ';' || c == ')' || c == '>'
}

/// Punctuation at the end of a URL in a text is no part of it, and a URL of the
/// service without a scheme gets one.
pub proof fn law_written_urls_are_cleaned(written: Seq<char>, mark: char)
    ensures
        is_mark(mark) ==> cleaned_url(written.push(mark)) == cleaned_url(written),
        written.len() > 0 && !is_mark(written.last()) && text::starts_with(
            text::lower_case(written),
            "https://"@,
        ) ==> cleaned_url(written) == written,
        written.len() > 0 && !is_mark(written.last()) && (text::starts_with(
            text::lower_case(written),
            "x.com/"@,
        ) || text::starts_with(text::lower_case(written), "twitter.com/"@) || text::starts_with(
            text::lower_case(written),
            "www.x.com/"@,
        )) ==> cleaned_url(written) == "https://"@ + written,
{
    let marks = trailing_marks();
    let p = text::among(marks);
    if is_mark(mark) {
        assert(marks[0] == '>' && marks[1] == ',' && marks[2] == '.' && marks[3] == ';' && marks[4]
            == ')');
        assert(marks.contains(mark));
        assert(p(mark));
        assert(written.push(mark).drop_last() == written);
    }
    if written.len() > 0 && !is_mark(written.last()) {
        assert(!marks.contains(written.last()));
        assert(!p(written.last()));
        assert(text::trim_end_by(written, p) == written);
        let lowered = text::lower_case(written);
        reveal_strlit("https://");
        reveal_strlit("x.com/");
        reveal_strlit("www.x.com/");
        reveal_strlit("mobile.x.com/");
        reveal_strlit("twitter.com/");
        reveal_strlit("www.twitter.com/");
        reveal_strlit("mobile.twitter.com/");
        if text::starts_with(lowered, "https://"@) {
            assert("https://"@.len() == 8 && "https://"@[0] == 'h');
            assert(lowered.subrange(0, 8) == "https://"@);
            assert(lowered.subrange(0, 8)[0] == lowered[0]);
            assert("x.com/"@[0] == 'x' && "www.x.com/"@[0] == 'w' && "mobile.x.com/"@[0] == 'm'
                && "twitter.com/"@[0] == 't' && "www.twitter.com/"@[0] == 'w'
                && "mobile.twitter.com/"@[0] == 'm');
            assert(forall|n: int| 0 < n <= lowered.len() ==> #[trigger] lowered.subrange(0, n)[0]
                == lowered[0]);
        }
    }
}

/// However many segments stand in front of `status`, the first of them is the
/// user, and the one behind `status` the post.
pub proof fn law_the_first_segment_is_the_user(
    url: UrlView,
    front: Seq<Seq<char>>,
    id: Seq<char>,
    original: Seq<char>,
)
    requires
        url.host == Some("x.com"@),
        url.segments == Some(front + seq!["status"@, id]),
        front.len() > 0,
        forall|i: int|
            0 <= i < front.len() ==> (#[trigger] front[i]).len() > 0 && front[i].len() != 6
                && front[i].len() != 8,
        1 <= id.len() <= 19,
        text::all_digits(id),
    ensures
        reference_in_url(Some(url), original) matches Ok(reference) && reference.id == id && (
        front[0].len() > 1 ==> reference.username == Some(front[0])) && (front[0] == "i"@
            ==> reference.username is None),
{
    let segments = url.segments->0;
    lemma_hosts("x.com"@);
    reveal_strlit("status");
    reveal_strlit("statuses");
    assert forall|i: int| 0 <= i < segments.len() implies (#[trigger] segments[i]).len() > 0 by {
        if i < front.len() {
            assert(segments[i] == front[i]);
        }
    }
    text::lemma_drop_empty(segments);
    assert(path_segments(url) == segments);
    assert(segments[0] == front[0]);
    let at = front.len() as int;
    assert(segments[at] == "status"@ && segments[at + 1] == id);
    assert(announces_status(segments[at]));
    assert forall|i: int| 0 <= i < at implies !announces_status(#[trigger] segments[i]) by {
        assert(segments[i] == front[i]);
        assert(text::lower_case("status"@).len() == 6 && text::lower_case("statuses"@).len() == 8
            && text::lower_case(front[i]).len() == front[i].len());
    }
    lemma_status_at(segments, 0, at);
    reveal_strlit("i");
    assert(text::lower_case("i"@).len() == 1 && text::lower_case(front[0]).len() == front[0].len());
}

proof fn lemma_status_at(segments: Seq<Seq<char>>, from: int, at: int)
    requires
        0 <= from <= at < segments.len(),
        announces_status(segments[at]),
        forall|i: int| from <= i < at ==> !announces_status(#[trigger] segments[i]),
    ensures
        status_position(segments, from) == Some(at),
    decreases at - from,
{
    if from < at {
        assert(!announces_status(segments[from]));
        lemma_status_at(segments, from + 1, at);
    }
}

} // verus!
