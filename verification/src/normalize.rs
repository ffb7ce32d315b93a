//! Posts out of the loose JSON of the community source.
//!
//! The schema of the source changes often. Everything that leaves this module
//! is typed.

use vstd::prelude::*;

use crate::article;
use crate::bridge;
use crate::bridge::UrlParts;
use crate::bridge::UrlView;
use crate::dates;
use crate::double;
use crate::error::plain_error;
use crate::error::result_model;
use crate::error::ErrorKind;
use crate::error::ErrorView;
use crate::error::XReadError;
use crate::json;
use crate::json::Json;
use crate::json::JsonView;
use crate::links;
use crate::media;
use crate::model::Article;
use crate::model::ArticleView;
use crate::model::Author;
use crate::model::AuthorView;
use crate::model::Link;
use crate::model::LinkView;
use crate::model::Metrics;
use crate::model::Post;
use crate::model::PostView;
use crate::parse;
use crate::text;
use crate::tokens;

verus! {

// ----------------------------------------------------------------------
// Recognition

/// Whether a document is a post of the source: an object with an ID, a text and
/// an author, that does not say it is something else.
pub open spec fn is_status(value: JsonView) -> bool {
    let kind = json::text_in(json::member(value, "type"@));
    &&& json::text_in(json::member(value, "id"@)) is Some
    &&& kind is None || kind == Some("status"@)
    &&& json::text_in(json::member(value, "text"@)) is Some || json::text_in(
        media::inner(value, "raw_text"@, "text"@),
    ) is Some
    &&& json::is_object(json::member(value, "author"@))
}

/// Decides `is_status`.
pub fn is_community_status(value: &Json) -> (out: bool)
    ensures
        out == is_status(value@),
{
    if json::text_of(value.get("id")).is_none() {
        return false;
    }
    if let Some(kind) = json::text_of(value.get("type")) {
        if !text::same(kind, "status") {
            return false;
        }
    }
    let has_text = json::text_of(value.get("text")).is_some() || json::text_of(
        media::get_inner(value, "raw_text", "text"),
    ).is_some();
    has_text && json::object(value.get("author"))
}

// ----------------------------------------------------------------------
// Authors

/// An author.
pub open spec fn author_in(value: JsonView) -> AuthorView {
    AuthorView {
        id: json::string_in(json::member(value, "id"@)),
        name: json::string_in(json::member(value, "name"@)),
        profile_image_url: json::string_in(json::member(value, "avatar_url"@)),
        username: json::string_in(json::member(value, "screen_name"@)),
        verified: json::bool_in(media::inner(value, "verification"@, "verified"@)),
    }
}

/// Reads an author.
pub fn normalize_author(value: &Json) -> (out: Author)
    ensures
        out.deep_view() == author_in(value@),
{
    Author {
        id: json::string_of_value(value.get("id")),
        name: json::string_of_value(value.get("name")),
        profile_image_url: json::string_of_value(value.get("avatar_url")),
        username: json::string_of_value(value.get("screen_name")),
        verified: json::bool_of(media::get_inner(value, "verification", "verified")),
    }
}

// ----------------------------------------------------------------------
// Facets

/// Whether a facet is a URL: it says so, or does not say what it is.
pub open spec fn is_url_facet(facet: JsonView) -> bool {
    let kind = json::text_in(json::member(facet, "type"@));
    kind is None || kind == Some("url"@)
}

/// The link of a facet, where it leads to a web page.
pub open spec fn facet_link(facet: JsonView) -> Option<LinkView> {
    let href = json::text_in(
        json::or(
            json::or(json::member(facet, "replacement"@), json::member(facet, "expanded_url"@)),
            json::member(facet, "url"@),
        ),
    );
    match href {
        Some(href) => if is_url_facet(facet) && (text::starts_with(href, "http://"@)
            || text::starts_with(href, "https://"@)) {
            Some(
                LinkView {
                    href: links::x_url(href),
                    text: match json::text_in(json::member(facet, "display"@)) {
                        Some(display) => display,
                        None => links::x_url(href),
                    },
                },
            )
        } else {
            None
        },
        None => None,
    }
}

/// The links of the facets, without repetition.
pub open spec fn facet_links(facets: Seq<JsonView>) -> Seq<LinkView>
    decreases facets.len(),
{
    if facets.len() == 0 {
        Seq::empty()
    } else {
        let before = facet_links(facets.drop_last());
        match facet_link(facets.last()) {
            Some(link) => links::add_link(before, link),
            None => before,
        }
    }
}

/// The token of a facet and the URL that it stands for.
pub open spec fn facet_pair(facet: JsonView) -> Option<(Seq<char>, Seq<char>)> {
    let replacement = json::text_in(
        json::or(
            json::or(json::member(facet, "replacement"@), json::member(facet, "expanded_url"@)),
            json::member(facet, "unwound_url"@),
        ),
    );
    let source = json::text_in(
        json::or(
            json::or(
                json::or(json::member(facet, "original"@), json::member(facet, "short_url"@)),
                json::member(facet, "source"@),
            ),
            json::member(facet, "url"@),
        ),
    );
    match (source, replacement) {
        (Some(source), Some(replacement)) => if is_url_facet(facet) {
            Some((source, replacement))
        } else {
            None
        },
        _ => None,
    }
}

/// The tokens of the facets and the URLs that they stand for.
pub open spec fn facet_pairs(facets: Seq<JsonView>) -> Seq<(Seq<char>, Seq<char>)>
    decreases facets.len(),
{
    if facets.len() == 0 {
        Seq::empty()
    } else {
        let before = facet_pairs(facets.drop_last());
        match facet_pair(facets.last()) {
            Some(pair) => before.push(pair),
            None => before,
        }
    }
}

/// `value` with the URL of its facet in place of every whole token.
pub open spec fn expand_facets(value: Seq<char>, facets: Seq<JsonView>) -> Seq<char> {
    tokens::expand(value, facet_pairs(facets))
}

/// The facets of a post.
pub open spec fn facets_in(value: JsonView) -> Seq<JsonView> {
    json::items_in(media::inner(value, "raw_text"@, "facets"@))
}

fn url_facet(facet: &Json) -> (out: bool)
    ensures
        out == is_url_facet(facet@),
{
    match json::text_of(facet.get("type")) {
        Some(kind) => text::same(kind, "url"),
        None => true,
    }
}

fn read_facet_link(facet: &Json) -> (out: Option<Link>)
    ensures
        out.deep_view() == facet_link(facet@),
{
    let href = json::text_of(
        json::either(
            json::either(facet.get("replacement"), facet.get("expanded_url")),
            facet.get("url"),
        ),
    );
    match href {
        Some(href) => {
            if url_facet(facet) && (text::text_starts_with(href, "http://")
                || text::text_starts_with(href, "https://")) {
                let href = links::normalize_x_url(href);
                let text = match json::text_of(facet.get("display")) {
                    Some(display) => display.to_owned(),
                    None => href.clone(),
                };
                Some(Link { href, text })
            } else {
                None
            }
        },
        None => None,
    }
}

/// The links of a post, without repetition.
pub fn normalize_community_links(value: &Json) -> (out: Vec<Link>)
    ensures
        out.deep_view() == facet_links(facets_in(value@)),
{
    let facets = json::items_of(media::get_inner(value, "raw_text", "facets"));
    let ghost model = json::views(facets@);
    let mut out: Vec<Link> = Vec::new();
    assert(out.deep_view() == Seq::<LinkView>::empty());
    let mut i: usize = 0;
    while i < facets.len()
        invariant
            i <= facets@.len(),
            model == json::views(facets@),
            out.deep_view() == facet_links(model.take(i as int)),
        decreases facets.len() - i,
    {
        assert(model.take(i + 1).drop_last() == model.take(i as int));
        assert(model[i as int] == facets@[i as int]@);
        if let Some(link) = read_facet_link(&facets[i]) {
            links::push_link(&mut out, link);
        }
        i = i + 1;
    }
    assert(model.take(i as int) == model);
    out
}

fn read_facet_pair(facet: &Json) -> (out: Option<(String, String)>)
    ensures
        out.deep_view() == facet_pair(facet@),
{
    let replacement = json::text_of(
        json::either(
            json::either(facet.get("replacement"), facet.get("expanded_url")),
            facet.get("unwound_url"),
        ),
    );
    let source = json::text_of(
        json::either(
            json::either(
                json::either(facet.get("original"), facet.get("short_url")),
                facet.get("source"),
            ),
            facet.get("url"),
        ),
    );
    match (source, replacement) {
        (Some(source), Some(replacement)) => if url_facet(facet) {
            Some((source.to_owned(), replacement.to_owned()))
        } else {
            None
        },
        _ => None,
    }
}

/// Replace `t.co` tokens in the visible post text with their final URL. The
/// exact facet shape belongs to the source, so several field names are taken.
pub fn expand_community_text(value: &str, raw_text: Option<&Json>) -> (out: String)
    ensures
        out@ == expand_facets(
            value@,
            json::items_in(json::member_in(json::seen(raw_text), "facets"@)),
        ),
{
    let facets = json::items_of(json::get_in(raw_text, "facets"));
    let ghost model = json::views(facets@);
    let mut pairs: Vec<(String, String)> = Vec::new();
    assert(pairs.deep_view() == Seq::<(Seq<char>, Seq<char>)>::empty());
    let mut i: usize = 0;
    while i < facets.len()
        invariant
            i <= facets@.len(),
            model == json::views(facets@),
            pairs.deep_view() == facet_pairs(model.take(i as int)),
        decreases facets.len() - i,
    {
        assert(model.take(i + 1).drop_last() == model.take(i as int));
        assert(model[i as int] == facets@[i as int]@);
        let ghost before = pairs.deep_view();
        if let Some(pair) = read_facet_pair(&facets[i]) {
            let ghost added = pair.deep_view();
            pairs.push(pair);
            assert(pairs.deep_view() == before.push(added));
        }
        i = i + 1;
    }
    assert(model.take(i as int) == model);
    tokens::expand_tokens(value, &pairs)
}

// ----------------------------------------------------------------------
// Texts of nothing but URLs

/// Whether a URL is one of a web page.
pub open spec fn is_web_url(url: Option<UrlView>) -> bool {
    url matches Some(url) && (url.scheme == "http"@ || url.scheme == "https"@)
}

/// Whether a text is made of URLs of web pages, and of at least one.
pub open spec fn only_urls(value: Seq<char>) -> bool {
    let parts = text::words(value);
    parts.len() > 0 && forall|i: int|
        0 <= i < parts.len() ==> is_web_url(bridge::url_parts(#[trigger] parts[i]))
}

/// Decides `is_web_url`.
pub fn web_url(url: &Option<UrlParts>) -> (out: bool)
    ensures
        out == is_web_url(url.deep_view()),
{
    match url {
        Some(url) => text::same(url.scheme.as_str(), "http") || text::same(
            url.scheme.as_str(),
            "https",
        ),
        None => false,
    }
}

/// Decides `only_urls`.
pub fn is_only_urls(value: &str) -> (out: bool)
    ensures
        out == only_urls(value@),
{
    let parts = text::words_of(value);
    let ghost model = text::words(value@);
    assert(model.len() == parts@.len());
    if parts.len() == 0 {
        return false;
    }
    let mut i: usize = 0;
    while i < parts.len()
        invariant
            i <= parts@.len(),
            model == text::words(value@),
            model == parts.deep_view(),
            model.len() == parts@.len(),
            forall|j: int| 0 <= j < i ==> is_web_url(bridge::url_parts(#[trigger] model[j])),
        decreases parts.len() - i,
    {
        assert(model[i as int] == parts@[i as int]@);
        let url = bridge::parse_url(parts[i].as_str());
        if !web_url(&url) {
            return false;
        }
        i = i + 1;
    }
    true
}

// ----------------------------------------------------------------------
// Posts

/// The visible text of a post, with its facets expanded.
pub open spec fn visible_text(value: JsonView) -> Seq<char> {
    let raw = json::or(
        json::text_in(json::member(value, "text"@)),
        json::text_in(media::inner(value, "raw_text"@, "text"@)),
    );
    expand_facets(
        match raw {
            Some(raw) => raw,
            None => ""@,
        },
        facets_in(value),
    )
}

/// When a post was made: by its seconds, else by its date, else by its ID.
pub open spec fn created_in(value: JsonView) -> Option<Seq<char>> {
    let by_seconds = match json::double_in(json::member(value, "created_timestamp"@)) {
        Some(seconds) => bridge::iso_of_millis(double::millis_of(seconds)),
        None => None,
    };
    let by_date = match json::text_in(json::member(value, "created_at"@)) {
        Some(date) => dates::date_in(date),
        None => None,
    };
    let by_id = match json::string_in(json::member(value, "id"@)) {
        Some(id) => dates::moment_of_id(id),
        None => None,
    };
    json::or(json::or(by_seconds, by_date), by_id)
}

/// Whether a post is a long one.
pub open spec fn is_long(value: JsonView) -> bool {
    json::bool_in(json::member(value, "is_note_tweet"@)) == Some(true)
}

/// Who reposted a post.
pub open spec fn reposter_in(value: JsonView) -> Option<AuthorView> {
    let reposter = json::member(value, "reposted_by"@);
    if json::is_object(reposter) {
        Some(author_in(reposter->0))
    } else {
        None
    }
}

/// What a post is, the first that applies.
pub open spec fn kind_of(reposted: bool, article: bool, quotes: bool, long: bool) -> Seq<char> {
    if reposted {
        "repost"@
    } else if article {
        "article"@
    } else if quotes {
        "quote"@
    } else if long {
        "long-post"@
    } else {
        "post"@
    }
}

/// The counts of a post.
pub open spec fn metrics_in(value: JsonView) -> Metrics {
    Metrics {
        bookmark_count: json::number_in(json::member(value, "bookmarks"@)),
        impression_count: json::number_in(json::member(value, "views"@)),
        like_count: json::number_in(json::member(value, "likes"@)),
        quote_count: json::number_in(json::member(value, "quotes"@)),
        reply_count: json::number_in(json::member(value, "replies"@)),
        retweet_count: json::number_in(json::member(value, "reposts"@)),
    }
}

/// The address of a post.
pub open spec fn address_in(value: JsonView, username: Option<Seq<char>>) -> Option<Seq<char>> {
    match json::text_in(json::member(value, "url"@)) {
        Some(url) => Some(links::x_url(url)),
        None => match json::string_in(json::member(value, "id"@)) {
            Some(id) => Some(parse::canonical_url(username, id)),
            None => None,
        },
    }
}

/// A post with the given article, quoted post and moment. Where its text is
/// blank or, as `bare` says, made of URLs only, the article's text takes its place.
pub open spec fn post_with(
    value: JsonView,
    article: Option<ArticleView>,
    bare: bool,
    quoted_post: Option<PostView>,
    created_at: Option<Seq<char>>,
) -> PostView {
    let author = match json::member(value, "author"@) {
        Some(author) => author_in(author),
        None => author_in(JsonView::Null),
    };
    let reposted_by = reposter_in(value);
    PostView {
        article,
        author,
        conversation_id: None,
        created_at,
        date_label: None,
        id: json::string_in(json::member(value, "id"@)),
        is_long_post: is_long(value),
        kind: kind_of(reposted_by is Some, article is Some, quoted_post is Some, is_long(value)),
        lang: json::string_in(json::member(value, "lang"@)),
        links: facet_links(facets_in(value)),
        media: media::media_items(json::member(value, "media"@)),
        metrics: Some(metrics_in(value)),
        parent_id: json::string_in(media::inner(value, "replying_to"@, "status"@)),
        possibly_sensitive: json::bool_in(json::member(value, "possibly_sensitive"@)),
        quoted_post: match quoted_post {
            Some(post) => Some(Box::new(post)),
            None => None,
        },
        reposted_by,
        reposted_post: None,
        source: "fxtwitter-community"@,
        text: match article {
            Some(article) => if text::is_blank(visible_text(value)) || bare {
                article.text
            } else {
                visible_text(value)
            },
            None => visible_text(value),
        },
        url: address_in(value, author.username),
    }
}

/// Whether a post shows the post that it quotes, at a depth of quotes.
pub open spec fn shows_quote(value: JsonView, depth: int) -> bool {
    depth < 2 && (json::member(value, "quote"@) matches Some(quote) && is_status(quote))
}

/// The post that a document describes, at a depth of quotes.
pub open spec fn post_in(value: JsonView, depth: int) -> PostView
    decreases 2 - depth,
{
    let quoted = if depth < 2 && shows_quote(value, depth) {
        Some(post_in(json::member(value, "quote"@)->0, depth + 1))
    } else {
        None
    };
    post_with(
        value,
        article::article_in(json::member(value, "article"@)),
        only_urls(visible_text(value)),
        quoted,
        created_in(value),
    )
}

/// The answer for a document that is no post.
pub open spec fn unknown_post() -> ErrorView {
    plain_error(ErrorKind::InvalidResponse, "FxTwitter 返回了无法识别的推文数据。"@)
}

/// The post that a document describes, or that it describes none.
pub open spec fn community_post(value: JsonView, depth: int) -> Result<PostView, ErrorView> {
    if is_status(value) {
        Ok(post_in(value, depth))
    } else {
        Err(unknown_post())
    }
}

fn read_visible_text(value: &Json) -> (out: String)
    ensures
        out@ == visible_text(value@),
{
    let raw = media::either_text(
        json::text_of(value.get("text")),
        json::text_of(media::get_inner(value, "raw_text", "text")),
    );
    let raw = match raw {
        Some(raw) => raw,
        None => "",
    };
    expand_community_text(raw, value.get("raw_text"))
}

fn read_created(value: &Json) -> (out: Option<String>)
    ensures
        out.deep_view() == created_in(value@),
{
    let by_seconds = match json::double_of(value.get("created_timestamp")) {
        Some(seconds) => dates::timestamp_to_iso(double::millis(seconds)),
        None => None,
    };
    if by_seconds.is_some() {
        return by_seconds;
    }
    let by_date = match json::text_of(value.get("created_at")) {
        Some(date) => dates::parse_date(date),
        None => None,
    };
    if by_date.is_some() {
        return by_date;
    }
    match json::string_of_value(value.get("id")) {
        Some(id) => dates::snowflake_timestamp(id.as_str()),
        None => None,
    }
}

fn read_reposter(value: &Json) -> (out: Option<Author>)
    ensures
        out.deep_view() == reposter_in(value@),
{
    match value.get("reposted_by") {
        Some(reposter) => {
            if json::object(Some(reposter)) {
                Some(normalize_author(reposter))
            } else {
                None
            }
        },
        None => None,
    }
}

fn name_kind(reposted: bool, article: bool, quotes: bool, long: bool) -> (out: &'static str)
    ensures
        out@ == kind_of(reposted, article, quotes, long),
{
    if reposted {
        "repost"
    } else if article {
        "article"
    } else if quotes {
        "quote"
    } else if long {
        "long-post"
    } else {
        "post"
    }
}

fn read_metrics(value: &Json) -> (out: Metrics)
    ensures
        out == metrics_in(value@),
{
    Metrics {
        bookmark_count: json::number_of(value.get("bookmarks")),
        impression_count: json::number_of(value.get("views")),
        like_count: json::number_of(value.get("likes")),
        quote_count: json::number_of(value.get("quotes")),
        reply_count: json::number_of(value.get("replies")),
        retweet_count: json::number_of(value.get("reposts")),
    }
}

fn read_address(value: &Json, username: &Option<String>) -> (out: Option<String>)
    ensures
        out.deep_view() == address_in(value@, username.deep_view()),
{
    if let Some(url) = json::text_of(value.get("url")) {
        return Some(links::normalize_x_url(url));
    }
    let username = match username {
        Some(username) => Some(username.as_str()),
        None => None,
    };
    match json::string_of_value(value.get("id")) {
        Some(id) => Some(parse::canonical_url_text(username, id.as_str())),
        None => None,
    }
}

fn choose_text(article: &Option<Article>, visible: String, bare: bool) -> (out: String)
    ensures
        out@ == (match article.deep_view() {
            Some(article) => if text::is_blank(visible@) || bare {
                article.text
            } else {
                visible@
            },
            None => visible@,
        }),
{
    match article {
        Some(article) => {
            if text::blank(visible.as_str()) || bare {
                article.text.clone()
            } else {
                visible
            }
        },
        None => visible,
    }
}

/// Puts a post together from its document, its article, the post that it quotes
/// and its moment. `bare` says whether its text is made of URLs only.
pub fn assemble_post(
    value: &Json,
    article: Option<Article>,
    bare: bool,
    quoted_post: Option<Box<Post>>,
    created_at: Option<String>,
) -> (out: Post)
    ensures
        out.deep_view() == post_with(
            value@,
            article.deep_view(),
            bare,
            match quoted_post {
                Some(post) => Some(post.deep_view()),
                None => None,
            },
            created_at.deep_view(),
        ),
{
    let nobody = Json::Null;
    let author = match value.get("author") {
        Some(author) => normalize_author(author),
        None => normalize_author(&nobody),
    };
    let reposted_by = read_reposter(value);
    let is_long_post = match json::bool_of(value.get("is_note_tweet")) {
        Some(long) => long,
        None => false,
    };
    let kind = name_kind(
        reposted_by.is_some(),
        article.is_some(),
        quoted_post.is_some(),
        is_long_post,
    );
    let url = read_address(value, &author.username);
    let text = choose_text(&article, read_visible_text(value), bare);
    Post {
        article,
        author,
        conversation_id: None,
        created_at,
        date_label: None,
        id: json::string_of_value(value.get("id")),
        is_long_post,
        kind: kind.to_owned(),
        lang: json::string_of_value(value.get("lang")),
        links: normalize_community_links(value),
        media: media::normalize_community_media(value.get("media")),
        metrics: Some(read_metrics(value)),
        parent_id: json::string_of_value(media::get_inner(value, "replying_to", "status")),
        possibly_sensitive: json::bool_of(value.get("possibly_sensitive")),
        quoted_post,
        reposted_by,
        reposted_post: None,
        source: "fxtwitter-community".to_owned(),
        text,
        url,
    }
}

fn read_post(value: &Json, depth: u8) -> (out: Post)
    ensures
        out.deep_view() == post_in(value@, depth as int),
    decreases 255 - depth,
{
    let mut quoted_post: Option<Box<Post>> = None;
    if depth < 2 {
        if let Some(quote) = value.get("quote") {
            if is_community_status(quote) {
                quoted_post = Some(Box::new(read_post(quote, depth + 1)));
            }
        }
    }
    let article = article::normalize_article(value.get("article"));
    let visible = read_visible_text(value);
    let bare = article.is_some() && is_only_urls(visible.as_str());
    let created_at = read_created(value);
    assemble_post(value, article, bare, quoted_post, created_at)
}

/// Convert the source's deliberately loose JSON into the stable public model.
/// Quoted posts are followed until `depth` reaches two.
pub fn normalize_community_post(value: &Json, depth: u8) -> (out: Result<Post, XReadError>)
    ensures
        result_model(out) == community_post(value@, depth as int),
{
    if !is_community_status(value) {
        return Err(XReadError::invalid_response("FxTwitter 返回了无法识别的推文数据。"));
    }
    Ok(read_post(value, depth))
}

// ----------------------------------------------------------------------
// Laws

proof fn lemma_facet_links_are_unique(facets: Seq<JsonView>)
    ensures
        links::are_unique(facet_links(facets)),
    decreases facets.len(),
{
    if facets.len() > 0 {
        lemma_facet_links_are_unique(facets.drop_last());
        if let Some(link) = facet_link(facets.last()) {
            let before = facet_links(facets.drop_last());
            links::law_added_links_are_unique(before, seq![link]);
            assert(seq![link].drop_last() == Seq::<LinkView>::empty());
        }
    }
}

/// No two links of a post go to the same place.
pub proof fn law_post_links_are_unique(value: JsonView, depth: int)
    ensures
        community_post(value, depth) matches Ok(post) ==> links::are_unique(post.links),
{
    lemma_facet_links_are_unique(facets_in(value));
}

/// How many quoted posts stand inside one another.
pub open spec fn quote_depth(post: PostView) -> nat
    decreases post,
{
    match post.quoted_post {
        Some(quoted) => 1 + quote_depth(*quoted),
        None => 0,
    }
}

/// However deep the quotes of a document go, a post shows at most two of them
/// inside one another.
pub proof fn law_quotes_are_bounded(value: JsonView, depth: int)
    requires
        0 <= depth <= 2,
    ensures
        community_post(value, depth) matches Ok(post) ==> quote_depth(post) <= 2 - depth,
    decreases 2 - depth,
{
    if is_status(value) && depth < 2 && shows_quote(value, depth) {
        law_quotes_are_bounded(json::member(value, "quote"@)->0, depth + 1);
    }
}

} // verus!
