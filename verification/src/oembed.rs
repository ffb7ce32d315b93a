//! Posts out of the HTML that the official embedding service gives.

use vstd::prelude::*;

use crate::bridge;
use crate::bridge::UrlParts;
use crate::bridge::UrlView;
use crate::dates;
use crate::error::hinted_error;
use crate::error::result_model;
use crate::error::ErrorKind;
use crate::error::ErrorView;
use crate::error::XReadError;
use crate::json;
use crate::json::Json;
use crate::json::JsonView;
use crate::links;
use crate::model::Author;
use crate::model::AuthorView;
use crate::model::Link;
use crate::model::LinkView;
use crate::model::Media;
use crate::model::MediaView;
use crate::model::Post;
use crate::model::PostView;
use crate::parse;
use crate::text;

verus! {

/// The pattern of a paragraph; its first group is what stands inside.
pub const PARAGRAPH: &'static str = "(?is)<p\\b[^>]*>(.*?)</p>";

/// The pattern of a link; its groups are the address and what stands inside.
pub const ANCHOR: &'static str =
    "(?is)<a\\b[^>]*href\\s*=\\s*[\"']([^\"']*)[\"'][^>]*>(.*?)</a>";

/// The pattern of a tag.
pub const TAG: &'static str = "(?is)<[^>]+>";

/// The pattern of a line break.
pub const BREAK: &'static str = "(?i)<br\\s*/?>";

/// The pattern of the language of a paragraph; its first group is the language.
pub const LANG: &'static str = "(?i)<p\\b[^>]*\\blang=[\"']([^\"']+)[\"']";

// ----------------------------------------------------------------------
// Text

/// Every line without the white space at its end.
pub open spec fn trim_ends(lines: Seq<Seq<char>>) -> Seq<Seq<char>> {
    lines.map_values(|line: Seq<char>| text::trim_end(line))
}

/// A decoded text with plain blanks, without white space at the ends of its
/// lines and around it.
pub open spec fn tidy(value: Seq<char>) -> Seq<char> {
    text::trim(
        text::join(trim_ends(text::lines(text::replace(value, "\u{a0}"@, " "@))), "\n"@),
    )
}

/// The text of an HTML fragment.
pub open spec fn html_text(html: Seq<char>) -> Seq<char> {
    let with_breaks = bridge::regex_replaced(BREAK@, html, "\n"@);
    let without_tags = bridge::regex_replaced(TAG@, with_breaks, ""@);
    tidy(bridge::html_decoded(without_tags))
}

/// Tidies a decoded text.
pub fn tidy_text(value: &str) -> (out: String)
    ensures
        out@ == tidy(value@),
{
    let plain = text::replace_text(value, "\u{a0}", " ");
    let lines = text::lines_of(plain.as_str());
    let ghost wanted = trim_ends(lines.deep_view());
    let mut trimmed: Vec<String> = Vec::new();
    let mut i: usize = 0;
    while i < lines.len()
        invariant
            i <= lines@.len(),
            wanted == trim_ends(lines.deep_view()),
            trimmed.deep_view() == wanted.take(i as int),
        decreases lines.len() - i,
    {
        let ghost before = trimmed.deep_view();
        assert(lines.deep_view()[i as int] == lines@[i as int]@);
        trimmed.push(text::trim_end_text(lines[i].as_str()).to_owned());
        assert(trimmed.deep_view() == before.push(wanted[i as int]));
        i = i + 1;
    }
    assert(wanted.take(i as int) == wanted);
    let joined = text::join_strings(trimmed.as_slice(), "\n");
    text::trim_text(joined.as_str()).to_owned()
}

/// Reads the text of an HTML fragment.
pub fn html_to_text(html: &str) -> (out: String)
    ensures
        out@ == html_text(html@),
{
    let with_breaks = bridge::regex_replace_all(BREAK, html, "\n");
    let without_tags = bridge::regex_replace_all(TAG, with_breaks.as_str(), "");
    let decoded = bridge::decode_html(without_tags.as_str());
    tidy_text(decoded.as_str())
}

// ----------------------------------------------------------------------
// Links

/// What a group of a match holds.
pub open spec fn group(groups: Seq<Option<Seq<char>>>, at: int) -> Option<Seq<char>> {
    if 0 <= at < groups.len() {
        groups[at]
    } else {
        None
    }
}

/// The link that a match of `ANCHOR` describes.
pub open spec fn anchor_in(groups: Seq<Option<Seq<char>>>) -> Option<LinkView> {
    match (group(groups, 1), group(groups, 2)) {
        (Some(href), Some(inside)) => Some(
            LinkView { href: bridge::html_decoded(href), text: html_text(inside) },
        ),
        _ => None,
    }
}

/// The links that the matches of `ANCHOR` describe.
pub open spec fn anchors_in(matches: Seq<Seq<Option<Seq<char>>>>) -> Seq<LinkView>
    decreases matches.len(),
{
    if matches.len() == 0 {
        Seq::empty()
    } else {
        let before = anchors_in(matches.drop_last());
        match anchor_in(matches.last()) {
            Some(link) => before.push(link),
            None => before,
        }
    }
}

/// The links of an HTML fragment.
pub open spec fn html_links(html: Seq<char>) -> Seq<LinkView> {
    anchors_in(bridge::regex_all_groups(ANCHOR@, html))
}

/// What a group of a match holds.
pub fn group_of(groups: &Vec<Option<String>>, at: usize) -> (out: Option<&str>)
    ensures
        out.deep_view() == group(groups.deep_view(), at as int),
{
    if at < groups.len() {
        assert(groups.deep_view()[at as int] == groups@[at as int].deep_view());
        match &groups[at] {
            Some(value) => Some(value.as_str()),
            None => None,
        }
    } else {
        None
    }
}

/// Reads the links of an HTML fragment.
pub fn extract_anchors(html: &str) -> (out: Vec<Link>)
    ensures
        out.deep_view() == html_links(html@),
{
    let found = bridge::regex_captures_all(ANCHOR, html);
    let ghost model = found.deep_view();
    let mut out: Vec<Link> = Vec::new();
    assert(out.deep_view() == Seq::<LinkView>::empty());
    let mut i: usize = 0;
    while i < found.len()
        invariant
            i <= found@.len(),
            model == found.deep_view(),
            model.len() == found@.len(),
            out.deep_view() == anchors_in(model.take(i as int)),
        decreases found.len() - i,
    {
        assert(model.take(i + 1).drop_last() == model.take(i as int));
        assert(model[i as int] == found@[i as int].deep_view());
        let ghost before = out.deep_view();
        if let (Some(href), Some(inside)) = (group_of(&found[i], 1), group_of(&found[i], 2)) {
            let link = Link { href: bridge::decode_html(href), text: html_to_text(inside) };
            let ghost added = link.deep_view();
            out.push(link);
            assert(out.deep_view() == before.push(added));
        }
        i = i + 1;
    }
    assert(model.take(i as int) == model);
    out
}

/// Whether an address leads to a post: `/status/` first stands before a digit.
pub open spec fn leads_to_status(href: Seq<char>) -> bool {
    match text::find(href, "/status/"@) {
        Some(at) => at + 8 < href.len() && text::is_digit(href[at + 8]),
        None => false,
    }
}

/// Decides `leads_to_status`.
pub fn status_link(href: &str) -> (out: bool)
    ensures
        out == leads_to_status(href@),
{
    let chars = text::chars_of(href);
    let pattern = text::chars_of("/status/");
    let total: usize = chars.len();
    match text::find_chars(chars.as_slice(), pattern.as_slice(), 0) {
        Some(at) => {
            proof {
                reveal_strlit("/status/");
                text::lemma_find_from(href@, "/status/"@, 0);
            }
            at + 8 < total && text::char_is_digit(chars[at + 8])
        },
        None => false,
    }
}

/// What the last link to a post is called.
pub open spec fn status_label(anchors: Seq<LinkView>) -> Option<Seq<char>>
    decreases anchors.len(),
{
    if anchors.len() == 0 {
        None
    } else if leads_to_status(anchors.last().href) {
        Some(anchors.last().text)
    } else {
        status_label(anchors.drop_last())
    }
}

fn find_status_label(anchors: &Vec<Link>) -> (out: Option<String>)
    ensures
        out.deep_view() == status_label(anchors.deep_view()),
{
    let ghost model = anchors.deep_view();
    let mut i: usize = anchors.len();
    assert(model.take(i as int) == model);
    while i > 0
        invariant
            i <= anchors@.len(),
            model == anchors.deep_view(),
            model.len() == anchors@.len(),
            status_label(model) == status_label(model.take(i as int)),
        decreases i,
    {
        i = i - 1;
        assert(model.take(i + 1).drop_last() == model.take(i as int));
        assert(model[i as int] == anchors@[i as int].deep_view());
        if status_link(anchors[i].href.as_str()) {
            return Some(anchors[i].text.clone());
        }
    }
    None
}

// ----------------------------------------------------------------------
// Posts

/// The user whose page a URL leads to: the first part of its path.
pub open spec fn user_in(url: Option<UrlView>) -> Option<Seq<char>> {
    match url {
        Some(url) => {
            let segments = parse::path_segments(url);
            if segments.len() > 0 {
                Some(segments[0])
            } else {
                None
            }
        },
        None => None,
    }
}

/// Reads the user from the URL of a page.
pub fn user_of_url(url: &Option<UrlParts>) -> (out: Option<String>)
    ensures
        out.deep_view() == user_in(url.deep_view()),
{
    match url {
        Some(url) => {
            let segments = match &url.segments {
                Some(segments) => text::without_empty(segments.as_slice()),
                None => Vec::new(),
            };
            assert(segments.deep_view() == parse::path_segments(url.deep_view()));
            assert(segments@.len() == segments.deep_view().len());
            if segments.len() > 0 {
                assert(segments.deep_view()[0] == segments@[0]@);
                Some(segments[0].clone())
            } else {
                None
            }
        },
        None => None,
    }
}

/// What the HTML of a post holds.
pub struct OembedParts {
    /// The links of the paragraph of the post.
    pub links: Vec<Link>,
    /// All the links.
    pub anchors: Vec<Link>,
    pub lang: Option<String>,
    /// The text of the paragraph of the post.
    pub text: String,
}

/// The model of `OembedParts`.
pub struct PartsView {
    pub links: Seq<LinkView>,
    pub anchors: Seq<LinkView>,
    pub lang: Option<Seq<char>>,
    pub text: Seq<char>,
}

impl DeepView for OembedParts {
    type V = PartsView;

    open spec fn deep_view(&self) -> PartsView {
        PartsView {
            links: self.links.deep_view(),
            anchors: self.anchors.deep_view(),
            lang: self.lang.deep_view(),
            text: self.text@,
        }
    }
}

/// The post with a given ID, what its HTML holds, its author and its moment.
pub open spec fn embedded_post(
    payload: JsonView,
    id: Seq<char>,
    parts: PartsView,
    username: Option<Seq<char>>,
    created_at: Option<Seq<char>>,
) -> PostView {
    PostView {
        article: None,
        author: AuthorView {
            id: None,
            name: json::string_in(json::member(payload, "author_name"@)),
            profile_image_url: None,
            username,
            verified: None,
        },
        conversation_id: None,
        created_at,
        date_label: status_label(parts.anchors),
        id: Some(id),
        is_long_post: false,
        kind: "post"@,
        lang: parts.lang,
        links: parts.links,
        media: Seq::empty(),
        metrics: None,
        parent_id: None,
        possibly_sensitive: None,
        quoted_post: None,
        reposted_by: None,
        reposted_post: None,
        source: "x-oembed"@,
        text: parts.text,
        url: Some(
            match json::text_in(json::member(payload, "url"@)) {
                Some(url) => links::x_url(url),
                None => parse::canonical_url(username, id),
            },
        ),
    }
}

/// Puts a post together from the answer of the service, what its HTML holds,
/// its author and its moment.
pub fn assemble_embedded(
    payload: &Json,
    id: &str,
    parts: OembedParts,
    username: Option<String>,
    created_at: Option<String>,
) -> (out: Post)
    ensures
        out.deep_view() == embedded_post(
            payload@,
            id@,
            parts.deep_view(),
            username.deep_view(),
            created_at.deep_view(),
        ),
{
    let url = match json::text_of(payload.get("url")) {
        Some(url) => links::normalize_x_url(url),
        None => match &username {
            Some(username) => parse::canonical_url_text(Some(username.as_str()), id),
            None => parse::canonical_url_text(None, id),
        },
    };
    let media: Vec<Media> = Vec::new();
    assert(media.deep_view() == Seq::<MediaView>::empty());
    Post {
        article: None,
        author: Author {
            id: None,
            name: json::string_of_value(payload.get("author_name")),
            profile_image_url: None,
            username,
            verified: None,
        },
        conversation_id: None,
        created_at,
        date_label: find_status_label(&parts.anchors),
        id: Some(id.to_owned()),
        is_long_post: false,
        kind: "post".to_owned(),
        lang: parts.lang,
        links: parts.links,
        media,
        metrics: None,
        parent_id: None,
        possibly_sensitive: None,
        quoted_post: None,
        reposted_by: None,
        reposted_post: None,
        source: "x-oembed".to_owned(),
        text: parts.text,
        url: Some(url),
    }
}

/// The answer where the service sent no HTML.
pub open spec fn no_html() -> ErrorView {
    hinted_error(
        ErrorKind::InvalidResponse,
        "X oEmbed 返回了无法识别的数据。"@,
        "推文可能已删除、受保护或禁止嵌入。"@,
    )
}

/// The answer where the HTML holds no paragraph.
pub open spec fn no_paragraph() -> ErrorView {
    hinted_error(
        ErrorKind::InvalidResponse,
        "X oEmbed 响应里没有找到推文正文。"@,
        "X 可能修改了嵌入格式。"@,
    )
}

/// The first group of the first match of a pattern.
pub open spec fn first_group(pattern: Seq<char>, html: Seq<char>) -> Option<Seq<char>> {
    match bridge::regex_groups(pattern, html) {
        Some(groups) => group(groups, 1),
        None => None,
    }
}

fn find_first_group(pattern: &str, html: &str) -> (out: Option<String>)
    ensures
        out.deep_view() == first_group(pattern@, html@),
{
    match bridge::regex_captures(pattern, html) {
        Some(groups) => match group_of(&groups, 1) {
            Some(value) => Some(value.to_owned()),
            None => None,
        },
        None => None,
    }
}

/// The user whose page the answer of the service names.
pub open spec fn author_in(payload: JsonView) -> Option<Seq<char>> {
    match json::text_in(json::member(payload, "author_url"@)) {
        Some(url) => user_in(bridge::url_parts(url)),
        None => None,
    }
}

/// The post that an answer of the service describes, or why it describes none.
pub open spec fn oembed_post(payload: JsonView, id: Seq<char>) -> Result<PostView, ErrorView> {
    match json::text_in(json::member(payload, "html"@)) {
        Some(html) => match first_group(PARAGRAPH@, html) {
            Some(paragraph) => Ok(
                embedded_post(
                    payload,
                    id,
                    PartsView {
                        links: html_links(paragraph),
                        anchors: html_links(html),
                        lang: first_group(LANG@, html),
                        text: html_text(paragraph),
                    },
                    author_in(payload),
                    dates::moment_of_id(id),
                ),
            ),
            None => Err(no_paragraph()),
        },
        None => Err(no_html()),
    }
}

/// Reads a post from an answer of the service.
pub fn normalize_oembed(payload: &Json, id: &str) -> (out: Result<Post, XReadError>)
    ensures
        result_model(out) == oembed_post(payload@, id@),
{
    let html = match json::text_of(payload.get("html")) {
        Some(html) => html,
        None => {
            return Err(
                XReadError::invalid_response("X oEmbed 返回了无法识别的数据。").with_hint(
                    "推文可能已删除、受保护或禁止嵌入。",
                ),
            );
        },
    };
    let paragraph = match find_first_group(PARAGRAPH, html) {
        Some(paragraph) => paragraph,
        None => {
            return Err(
                XReadError::invalid_response("X oEmbed 响应里没有找到推文正文。").with_hint(
                    "X 可能修改了嵌入格式。",
                ),
            );
        },
    };
    let parts = OembedParts {
        links: extract_anchors(paragraph.as_str()),
        anchors: extract_anchors(html),
        lang: find_first_group(LANG, html),
        text: html_to_text(paragraph.as_str()),
    };
    let username = match json::text_of(payload.get("author_url")) {
        Some(url) => user_of_url(&bridge::parse_url(url)),
        None => None,
    };
    let created_at = dates::snowflake_timestamp(id);
    Ok(assemble_embedded(payload, id, parts, username, created_at))
}

// ----------------------------------------------------------------------
// Laws

/// The text of an embedded post is that of the first paragraph of the HTML, with
/// line breaks for the breaks in it, without tags, decoded and tidied; its
/// language is that of a paragraph. HTML without a paragraph is refused.
pub proof fn law_texts_are_those_of_paragraphs(
    payload: JsonView,
    id: Seq<char>,
    html: Seq<char>,
    groups: Seq<Option<Seq<char>>>,
    paragraph: Seq<char>,
    found: Seq<Option<Seq<char>>>,
    lang: Seq<char>,
)
    requires
        json::member(payload, "html"@) == Some(JsonView::Text(html)),
    ensures
        bridge::regex_groups("(?is)<p\\b[^>]*>(.*?)</p>"@, html) is None ==> (oembed_post(
            payload,
            id,
        ) matches Err(error) && error.kind == ErrorKind::InvalidResponse && error.hint is Some),
        bridge::regex_groups("(?is)<p\\b[^>]*>(.*?)</p>"@, html) == Some(groups) && groups.len()
            == 2 && groups[1] == Some(paragraph) ==> (oembed_post(payload, id) matches Ok(post) && {
            &&& post.text == tidy(
                bridge::html_decoded(
                    bridge::regex_replaced(
                        "(?is)<[^>]+>"@,
                        bridge::regex_replaced("(?i)<br\\s*/?>"@, paragraph, "\n"@),
                        ""@,
                    ),
                ),
            )
            &&& bridge::regex_groups(
                "(?i)<p\\b[^>]*\\blang=[\"']([^\"']+)[\"']"@,
                html,
            ) == Some(found) && found.len() == 2 && found[1] == Some(lang) ==> post.lang == Some(
                lang,
            )
        }),
{
}

/// A text without the separator is its only piece.
pub proof fn lemma_one_piece(s: Seq<char>, sep: char)
    requires
        forall|i: int| 0 <= i < s.len() ==> #[trigger] s[i] != sep,
    ensures
        text::split(s, sep) == seq![s],
    decreases s.len(),
{
    if s.len() > 0 {
        let rest = s.drop_last();
        lemma_one_piece(rest, sep);
        assert(s.last() == s[s.len() - 1]);
        assert(rest.push(s.last()) == s);
        assert(text::split(rest, sep).drop_last() == Seq::<Seq<char>>::empty());
        assert(text::split(s, sep) == seq![s]);
    } else {
        assert(s == Seq::<char>::empty());
        assert(text::split(s, sep) == seq![s]);
    }
}

/// One line with ink at both of its ends and without a no-break space is tidy.
pub proof fn law_lines_are_tidy(value: Seq<char>)
    requires
        value.len() > 0,
        !text::is_whitespace(value[0]),
        !text::is_whitespace(value.last()),
        forall|i: int| 0 <= i < value.len() ==> #[trigger] value[i] != '\n' && value[i] != '\u{a0}',
    ensures
        tidy(value) == value,
{
    reveal_strlit("\u{a0}");
    let blank = "\u{a0}"@;
    text::lemma_contains(value, blank);
    if let Some(at) = text::find(value, blank) {
        text::lemma_find_from(value, blank, 0);
        assert(value.subrange(at, at + 1)[0] == value[at]);
        assert(blank[0] == '\u{a0}');
        assert(false);
    }
    assert(text::replace(value, blank, " "@) == value);
    lemma_one_piece(value, '\n');
    let pieces = seq![value];
    assert(pieces.drop_last() == Seq::<Seq<char>>::empty());
    assert(text::strip_returns(pieces.drop_last()) == Seq::<Seq<char>>::empty());
    assert(text::lines(value) == seq![value]);
    assert(text::trim_end(value) == value);
    assert(trim_ends(seq![value]) == seq![value]);
    assert(text::join(seq![value], "\n"@) == value);
    text::lemma_ink(value, 0);
}

/// Every link of an HTML fragment leads where its `href` says, decoded, and is
/// called by what stands inside it, in order.
pub proof fn law_anchors_are_links(matches: Seq<Seq<Option<Seq<char>>>>, at: int)
    requires
        forall|i: int|
            0 <= i < matches.len() ==> (#[trigger] matches[i]).len() == 3 && matches[i][1] is Some
                && matches[i][2] is Some,
    ensures
        anchors_in(matches).len() == matches.len(),
        0 <= at < matches.len() ==> anchors_in(matches)[at].href == bridge::html_decoded(
            matches[at][1]->0,
        ) && anchors_in(matches)[at].text == html_text(matches[at][2]->0),
    decreases matches.len(),
{
    if matches.len() > 0 {
        let rest = matches.drop_last();
        let last = matches.len() - 1;
        assert forall|i: int| 0 <= i < rest.len() implies (#[trigger] rest[i]).len() == 3
            && rest[i][1] is Some && rest[i][2] is Some by {
            assert(rest[i] == matches[i]);
        }
        law_anchors_are_links(rest, at);
        assert(matches[last].len() == 3 && matches[last][1] is Some && matches[last][2] is Some);
        if 0 <= at < last {
            assert(rest[at] == matches[at]);
        }
    }
}

/// The date of an embedded post is what the last link to a post is called; there
/// is none without such a link.
pub proof fn law_dates_are_called_by_the_last_status_link(anchors: Seq<LinkView>, id: Seq<char>)
    ensures
        status_label(anchors) matches Some(label) ==> (exists|i: int|
            0 <= i < anchors.len() && (#[trigger] anchors[i]).text == label && text::contains(
                anchors[i].href,
                "/status/"@,
            )),
        (forall|i: int|
            0 <= i < anchors.len() ==> !text::contains((#[trigger] anchors[i]).href, "/status/"@))
            ==> status_label(anchors) is None,
        anchors.len() > 0 && id.len() > 0 && text::is_digit(id[0]) && anchors.last().href
            == "/status/"@ + id ==> status_label(anchors) == Some(anchors.last().text),
    decreases anchors.len(),
{
    if anchors.len() > 0 {
        let rest = anchors.drop_last();
        let last = anchors.len() - 1;
        let href = anchors.last().href;
        assert(anchors[last] == anchors.last());
        law_dates_are_called_by_the_last_status_link(rest, id);
        text::lemma_contains(href, "/status/"@);
        if leads_to_status(href) {
            assert(text::contains(anchors[last].href, "/status/"@));
        } else if let Some(label) = status_label(rest) {
            let i = choose|i: int|
                0 <= i < rest.len() && (#[trigger] rest[i]).text == label && text::contains(
                    rest[i].href,
                    "/status/"@,
                );
            assert(anchors[i] == rest[i]);
        }
        if forall|i: int|
            0 <= i < anchors.len() ==> !text::contains((#[trigger] anchors[i]).href, "/status/"@) {
            assert forall|i: int| 0 <= i < rest.len() implies !text::contains(
                (#[trigger] rest[i]).href,
                "/status/"@,
            ) by {
                assert(rest[i] == anchors[i]);
            }
            assert(!text::contains(anchors[last].href, "/status/"@));
        }
        if id.len() > 0 && text::is_digit(id[0]) && href == "/status/"@ + id {
            reveal_strlit("/status/");
            assert(href.subrange(0, 8) == "/status/"@);
            assert(text::occurs_at(href, "/status/"@, 0));
            text::lemma_find_from(href, "/status/"@, 0);
            assert(text::find(href, "/status/"@) == Some(0int));
            assert(href[8] == id[0]);
        }
    }
}

} // verus!
