//! What the posts that are read out of documents promise.
//!
//! The laws say of every part of a post which member of its document it comes
//! from, and that no other member has a part in it.

use vstd::prelude::*;

use crate::article;
use crate::bridge;
use crate::bridge::UrlView;
use crate::dates;
use crate::double;
use crate::json;
use crate::json::JsonView;
use crate::links;
use crate::media;
use crate::model::AuthorView;
use crate::model::LinkView;
use crate::model::MediaView;
use crate::model::Metrics;
use crate::model::PostView;
use crate::model::VariantView;
use crate::normalize;
use crate::oembed;
use crate::spans;
use crate::text;
use crate::tokens;

verus! {

// ----------------------------------------------------------------------
// Members

/// Whether a document has a text under a name.
pub open spec fn has_text(value: JsonView, name: Seq<char>, text: Seq<char>) -> bool {
    json::member(value, name) == Some(JsonView::Text(text))
}

/// Whether a document has a whole number under a name.
pub open spec fn has_count(value: JsonView, name: Seq<char>, count: u64) -> bool {
    json::member(value, name) matches Some(JsonView::Number(number)) && number.unsigned == Some(
        count,
    )
}

/// Whether a document has a truth value under a name.
pub open spec fn has_flag(value: JsonView, name: Seq<char>, flag: bool) -> bool {
    json::member(value, name) == Some(JsonView::Bool(flag))
}

/// Whether two documents have the same under every name but one.
pub open spec fn agree_but(left: JsonView, right: JsonView, name: Seq<char>) -> bool {
    forall|other: Seq<char>| #![trigger json::member(left, other)]
        other != name ==> json::member(left, other) == json::member(right, other)
}

// ----------------------------------------------------------------------
// Counts

/// Every count of a post is the number under its own name: replies, reposts,
/// quotes, likes, views and bookmarks.
pub proof fn law_counts_come_from_their_members(value: JsonView, depth: int, count: u64)
    ensures
        normalize::community_post(value, depth) matches Ok(post) ==> (post.metrics matches Some(
            metrics,
        ) && {
            &&& has_count(value, "replies"@, count) ==> metrics.reply_count == Some(count)
            &&& has_count(value, "reposts"@, count) ==> metrics.retweet_count == Some(count)
            &&& has_count(value, "quotes"@, count) ==> metrics.quote_count == Some(count)
            &&& has_count(value, "likes"@, count) ==> metrics.like_count == Some(count)
            &&& has_count(value, "views"@, count) ==> metrics.impression_count == Some(count)
            &&& has_count(value, "bookmarks"@, count) ==> metrics.bookmark_count == Some(count)
            &&& json::member(value, "replies"@) is None ==> metrics.reply_count is None
            &&& json::member(value, "reposts"@) is None ==> metrics.retweet_count is None
            &&& json::member(value, "quotes"@) is None ==> metrics.quote_count is None
            &&& json::member(value, "likes"@) is None ==> metrics.like_count is None
            &&& json::member(value, "views"@) is None ==> metrics.impression_count is None
            &&& json::member(value, "bookmarks"@) is None ==> metrics.bookmark_count is None
        }),
{
}

/// Whether a name is that of a count.
pub open spec fn is_count(name: Seq<char>) -> bool {
    ||| name == "replies"@
    ||| name == "reposts"@
    ||| name == "quotes"@
    ||| name == "likes"@
    ||| name == "views"@
    ||| name == "bookmarks"@
}

/// The names of counts are different, and no other part of a post has them.
proof fn lemma_names_of_counts(name: Seq<char>)
    requires
        is_count(name),
    ensures
        name != "type"@ && name != "id"@ && name != "text"@ && name != "raw_text"@ && name
            != "author"@ && name != "created_timestamp"@ && name != "created_at"@ && name
            != "is_note_tweet"@ && name != "reposted_by"@ && name != "url"@ && name != "lang"@
            && name != "media"@ && name != "replying_to"@ && name != "possibly_sensitive"@ && name
            != "quote"@ && name != "article"@,
        "replies"@ != "reposts"@ && "replies"@ != "quotes"@ && "replies"@ != "likes"@ && "replies"@
            != "views"@ && "replies"@ != "bookmarks"@,
        "reposts"@ != "quotes"@ && "reposts"@ != "likes"@ && "reposts"@ != "views"@ && "reposts"@
            != "bookmarks"@,
        "quotes"@ != "likes"@ && "quotes"@ != "views"@ && "quotes"@ != "bookmarks"@,
        "likes"@ != "views"@ && "likes"@ != "bookmarks"@ && "views"@ != "bookmarks"@,
{
    reveal_strlit("replies");
    reveal_strlit("reposts");
    reveal_strlit("quotes");
    reveal_strlit("likes");
    reveal_strlit("views");
    reveal_strlit("bookmarks");
    reveal_strlit("type");
    reveal_strlit("id");
    reveal_strlit("text");
    reveal_strlit("raw_text");
    reveal_strlit("author");
    reveal_strlit("created_timestamp");
    reveal_strlit("created_at");
    reveal_strlit("is_note_tweet");
    reveal_strlit("reposted_by");
    reveal_strlit("url");
    reveal_strlit("lang");
    reveal_strlit("media");
    reveal_strlit("replying_to");
    reveal_strlit("possibly_sensitive");
    reveal_strlit("quote");
    reveal_strlit("article");
    assert("replies"@[3] == 'l' && "reposts"@[3] == 'o' && "article"@[0] == 'a' && "replies"@[0]
        == 'r' && "reposts"@[0] == 'r');
    assert("quotes"@[0] == 'q' && "author"@[0] == 'a' && "likes"@[0] == 'l' && "views"@[0] == 'v'
        && "media"@[0] == 'm' && "quote"@[0] == 'q');
    assert("replies"@.len() == 7 && "reposts"@.len() == 7 && "quotes"@.len() == 6
        && "likes"@.len() == 5 && "views"@.len() == 5 && "bookmarks"@.len() == 9
        && "type"@.len() == 4 && "id"@.len() == 2 && "text"@.len() == 4 && "raw_text"@.len() == 8
        && "author"@.len() == 6 && "created_timestamp"@.len() == 17 && "created_at"@.len() == 10
        && "is_note_tweet"@.len() == 13 && "reposted_by"@.len() == 11 && "url"@.len() == 3
        && "lang"@.len() == 4 && "media"@.len() == 5 && "replying_to"@.len() == 11
        && "possibly_sensitive"@.len() == 18 && "quote"@.len() == 5 && "article"@.len() == 7);
}

/// The same post with other counts.
pub open spec fn with_counts(post: PostView, metrics: Metrics) -> PostView {
    PostView { metrics: Some(metrics), ..post }
}

/// A document that differs from another under one of the counts only gives a
/// post that differs in that count only.
pub proof fn law_counts_do_not_mix(left: JsonView, right: JsonView, name: Seq<char>, depth: int)
    requires
        is_count(name),
        agree_but(left, right, name),
    ensures
        match (normalize::community_post(left, depth), normalize::community_post(right, depth)) {
            (Ok(one), Ok(other)) => {
                let a = one.metrics->0;
                let b = other.metrics->0;
                &&& other == with_counts(one, b)
                &&& name != "replies"@ ==> a.reply_count == b.reply_count
                &&& name != "reposts"@ ==> a.retweet_count == b.retweet_count
                &&& name != "quotes"@ ==> a.quote_count == b.quote_count
                &&& name != "likes"@ ==> a.like_count == b.like_count
                &&& name != "views"@ ==> a.impression_count == b.impression_count
                &&& name != "bookmarks"@ ==> a.bookmark_count == b.bookmark_count
            },
            (Err(one), Err(other)) => one == other,
            _ => false,
        },
{
    lemma_names_of_counts(name);
    assert(json::member(left, "type"@) == json::member(right, "type"@));
    assert(json::member(left, "id"@) == json::member(right, "id"@));
    assert(json::member(left, "text"@) == json::member(right, "text"@));
    assert(json::member(left, "raw_text"@) == json::member(right, "raw_text"@));
    assert(json::member(left, "author"@) == json::member(right, "author"@));
    assert(json::member(left, "created_timestamp"@) == json::member(right, "created_timestamp"@));
    assert(json::member(left, "created_at"@) == json::member(right, "created_at"@));
    assert(json::member(left, "is_note_tweet"@) == json::member(right, "is_note_tweet"@));
    assert(json::member(left, "reposted_by"@) == json::member(right, "reposted_by"@));
    assert(json::member(left, "url"@) == json::member(right, "url"@));
    assert(json::member(left, "lang"@) == json::member(right, "lang"@));
    assert(json::member(left, "media"@) == json::member(right, "media"@));
    assert(json::member(left, "replying_to"@) == json::member(right, "replying_to"@));
    assert(json::member(left, "possibly_sensitive"@) == json::member(right, "possibly_sensitive"@));
    assert(json::member(left, "quote"@) == json::member(right, "quote"@));
    assert(json::member(left, "article"@) == json::member(right, "article"@));
}

// ----------------------------------------------------------------------
// Authors

/// Whether an author has the parts that a document gives under their names.
pub open spec fn is_author(author: AuthorView, value: JsonView, text: Seq<char>, flag: bool) -> bool {
    &&& has_text(value, "id"@, text) ==> author.id == Some(text)
    &&& has_text(value, "name"@, text) ==> author.name == Some(text)
    &&& has_text(value, "screen_name"@, text) ==> author.username == Some(text)
    &&& has_text(value, "avatar_url"@, text) ==> author.profile_image_url == Some(text)
    &&& json::member(value, "verification"@) matches Some(inside) ==> (has_flag(
        inside,
        "verified"@,
        flag,
    ) ==> author.verified == Some(flag))
    &&& json::member(value, "name"@) is None ==> author.name is None
    &&& json::member(value, "screen_name"@) is None ==> author.username is None
}

/// The author of a post and who reposted it are those of the document: the
/// name is the name, the user name the screen name, the picture the avatar.
pub proof fn law_authors_come_from_their_members(
    value: JsonView,
    depth: int,
    text: Seq<char>,
    flag: bool,
)
    ensures
        normalize::community_post(value, depth) matches Ok(post) ==> {
            &&& json::member(value, "author"@) matches Some(author) && is_author(
                post.author,
                author,
                text,
                flag,
            )
            &&& json::member(value, "reposted_by"@) is None ==> post.reposted_by is None
            &&& json::member(value, "reposted_by"@) matches Some(JsonView::Object(members)) ==> (
            post.reposted_by matches Some(reposter) && is_author(
                reposter,
                JsonView::Object(members),
                text,
                flag,
            ))
        },
{
}

// ----------------------------------------------------------------------
// Identity, kind and place

/// The ID, the language, the parent, the warnings and the source of a post.
pub proof fn law_identity_comes_from_its_members(
    value: JsonView,
    depth: int,
    text: Seq<char>,
    flag: bool,
)
    ensures
        normalize::community_post(value, depth) matches Ok(post) ==> {
            &&& has_text(value, "id"@, text) ==> post.id == Some(text)
            &&& has_text(value, "lang"@, text) ==> post.lang == Some(text)
            &&& json::member(value, "lang"@) is None ==> post.lang is None
            &&& json::member(value, "replying_to"@) matches Some(parent) ==> (has_text(
                parent,
                "status"@,
                text,
            ) ==> post.parent_id == Some(text))
            &&& json::member(value, "replying_to"@) is None ==> post.parent_id is None
            &&& has_flag(value, "possibly_sensitive"@, flag) ==> post.possibly_sensitive == Some(
                flag,
            )
            &&& json::member(value, "possibly_sensitive"@) is None ==> post.possibly_sensitive is None
            &&& has_flag(value, "is_note_tweet"@, flag) ==> post.is_long_post == flag
            &&& json::member(value, "is_note_tweet"@) is None ==> !post.is_long_post
            &&& post.source == "fxtwitter-community"@
            &&& post.reposted_post is None
            &&& post.date_label is None
        },
{
}

/// What a post is called says what it is: a repost where somebody reposted it,
/// else an article, a quote or a long post where it is one, else a post.
pub proof fn law_kinds_say_what_a_post_is(value: JsonView, depth: int)
    ensures
        normalize::community_post(value, depth) matches Ok(post) ==> {
            &&& post.kind == "repost"@ <==> post.reposted_by is Some
            &&& post.kind == "article"@ <==> post.reposted_by is None && post.article is Some
            &&& post.kind == "quote"@ <==> post.reposted_by is None && post.article is None
                && post.quoted_post is Some
            &&& post.kind == "long-post"@ <==> post.reposted_by is None && post.article is None
                && post.quoted_post is None && post.is_long_post
            &&& post.kind == "post"@ <==> post.reposted_by is None && post.article is None
                && post.quoted_post is None && !post.is_long_post
        },
{
    reveal_strlit("repost");
    reveal_strlit("article");
    reveal_strlit("quote");
    reveal_strlit("long-post");
    reveal_strlit("post");
    assert("repost"@.len() == 6 && "article"@.len() == 7 && "quote"@.len() == 5);
    assert("long-post"@.len() == 9 && "post"@.len() == 4);
}

/// The address of a post is the one that the document gives, under the present
/// name of the service, else the one made of the user and the ID.
pub proof fn law_addresses_of_posts(value: JsonView, depth: int, url: Seq<char>, rest: Seq<char>)
    ensures
        normalize::community_post(value, depth) matches Ok(post) ==> {
            &&& has_text(value, "url"@, "https://twitter.com"@ + rest) ==> post.url == Some(
                "https://x.com"@ + rest,
            )
            &&& has_text(value, "url"@, "https://x.com"@ + rest) ==> post.url == Some(
                "https://x.com"@ + rest,
            )
            &&& json::member(value, "url"@) is None ==> (post.id matches Some(id) ==> (match
                post.author.username {
                Some(name) => post.url == Some("https://x.com/"@ + name + "/status/"@ + id),
                None => post.url == Some("https://x.com/"@ + "i"@ + "/status/"@ + id),
            }))
        },
{
    links::law_addresses_move_to_the_present_name(rest);
}

/// A post quotes the post under `quote`, down to two quotes, and nothing else.
pub proof fn law_quotes_come_from_their_member(value: JsonView, depth: int)
    ensures
        normalize::community_post(value, depth) matches Ok(post) ==> {
            &&& json::member(value, "quote"@) is None ==> post.quoted_post is None
            &&& depth >= 2 ==> post.quoted_post is None
            &&& json::member(value, "quote"@) matches Some(quote) ==> {
                &&& normalize::community_post(quote, depth + 1) is Err ==> post.quoted_post is None
                &&& depth < 2 ==> (normalize::community_post(quote, depth + 1) matches Ok(quoted)
                    ==> post.quoted_post == Some(Box::new(quoted)))
            }
        },
{
}

/// What makes a document a post: it has an ID, an author, a text of its own or
/// under `raw_text`, and no type but `status`.
pub proof fn law_what_is_a_post(value: JsonView, depth: int, id: Seq<char>, text: Seq<char>)
    ensures
        ({
            let has_author = json::member(value, "author"@) matches Some(JsonView::Object(_));
            let has_type = json::member(value, "type"@) is Some;
            let post = normalize::community_post(value, depth);
            &&& has_text(value, "id"@, id) && has_text(value, "text"@, text) && has_author
                && !has_type ==> post is Ok
            &&& has_text(value, "id"@, id) && has_text(value, "text"@, text) && has_author
                && has_text(value, "type"@, "status"@) ==> post is Ok
            &&& json::member(value, "id"@) is None ==> post is Err
            &&& !has_author ==> post is Err
            &&& json::member(value, "text"@) is None && json::member(value, "raw_text"@) is None
                ==> post is Err
            &&& json::member(value, "type"@) matches Some(JsonView::Text(kind)) ==> (kind
                != "status"@ ==> post is Err)
            &&& post matches Err(error) ==> error.kind == crate::error::ErrorKind::InvalidResponse
        }),
{
}

// ----------------------------------------------------------------------
// Text, links and dates

/// The text of a post without facets and article is the text of the document,
/// its own before the raw one.
pub proof fn law_texts_come_from_their_members(value: JsonView, depth: int, text: Seq<char>)
    ensures
        normalize::community_post(value, depth) matches Ok(post) ==> {
            let raw = json::member(value, "raw_text"@);
            let plain = post.article is None && (raw is None || (raw matches Some(raw)
                && json::member(raw, "facets"@) is None));
            &&& plain && has_text(value, "text"@, text) ==> post.text == text
            &&& plain && json::member(value, "text"@) is None ==> (raw matches Some(raw) ==> (
            has_text(raw, "text"@, text) ==> post.text == text))
        },
{
    tokens::law_texts_without_tokens_stay(text, Seq::empty());
    assert(normalize::facet_pairs(Seq::empty()) == Seq::<(Seq<char>, Seq<char>)>::empty());
}

/// A text that is a short link becomes what the first facet with it says, where
/// no facet has a longer one in front of it.
pub proof fn law_short_links_become_their_urls(
    value: JsonView,
    depth: int,
    raw: JsonView,
    facet: JsonView,
    source: Seq<char>,
    target: Seq<char>,
)
    requires
        json::member(value, "raw_text"@) == Some(raw),
        json::member(raw, "facets"@) == Some(JsonView::Array(seq![facet])),
        has_text(facet, "type"@, "url"@),
        has_text(facet, "original"@, source),
        has_text(facet, "replacement"@, target),
        source.len() > 0,
    ensures
        normalize::community_post(value, depth) matches Ok(post) ==> (post.article is None
            && has_text(value, "text"@, source) ==> post.text == target),
        normalize::community_post(value, depth) matches Ok(post) ==> (text::starts_with(
            target,
            "https://x.com"@,
        ) ==> post.links.len() == 1 && post.links[0].href == target && (json::member(
            facet,
            "display"@,
        ) is None ==> post.links[0].text == target)),
        forall|display: Seq<char>| #[trigger]
            has_text(facet, "display"@, display) ==> (normalize::community_post(value, depth) matches Ok(
                post,
            ) ==> (text::starts_with(target, "https://x.com"@) ==> post.links[0].text == display)),
{
    let facets = seq![facet];
    assert(facets.drop_last() == Seq::<JsonView>::empty());
    assert(normalize::facet_pairs(facets.drop_last()) == Seq::<(Seq<char>, Seq<char>)>::empty());
    assert(normalize::facet_pairs(facets) == seq![(source, target)]);
    assert(source + Seq::<char>::empty() == source);
    assert(source.subrange(0, source.len() as int) == source);
    tokens::law_tokens_get_their_own(source, Seq::empty(), seq![(source, target)], 0);
    assert(tokens::expand(Seq::<char>::empty(), seq![(source, target)]) == Seq::<char>::empty());
    assert(target + Seq::<char>::empty() == target);
    assert(normalize::facet_links(facets.drop_last()) == Seq::<LinkView>::empty());
    if text::starts_with(target, "https://x.com"@) {
        let rest = target.skip("https://x.com"@.len() as int);
        assert(target == "https://x.com"@ + rest);
        links::law_addresses_move_to_the_present_name(rest);
        reveal_strlit("https://x.com");
        reveal_strlit("https://");
        assert(target.subrange(0, 8) == "https://"@);
    }
}

/// The moment of a post: its seconds where they are a moment, else its date
/// where that is one, else the moment that its ID carries.
pub proof fn law_moments_in_their_order(value: JsonView, depth: int, date: Seq<char>)
    ensures
        normalize::community_post(value, depth) matches Ok(post) ==> {
            &&& json::member(value, "created_timestamp"@) is None && json::member(
                value,
                "created_at"@,
            ) is None ==> post.created_at == dates::moment_of_id(post.id->0)
            &&& json::member(value, "created_timestamp"@) is None && has_text(
                value,
                "created_at"@,
                date,
            ) ==> (bridge::iso_of_rfc3339(date) matches Some(moment) ==> post.created_at == Some(
                moment,
            ))
            &&& json::member(value, "created_timestamp"@) matches Some(JsonView::Number(seconds))
                ==> (seconds.double matches Some(bits) ==> (bridge::iso_of_millis(
                double::millis_of(bits),
            ) matches Some(moment) ==> post.created_at == Some(moment)))
        },
{
}

// ----------------------------------------------------------------------
// Media

/// Whether a media item has the parts that a document gives under their names.
pub open spec fn is_media(
    media: MediaView,
    value: JsonView,
    text: Seq<char>,
    count: u64,
) -> bool {
    &&& has_text(value, "type"@, text) ==> media.media_type == Some(text)
    &&& json::member(value, "type"@) is None ==> media.media_type is None
    &&& has_text(value, "url"@, text) ==> media.url == Some(text)
    &&& has_text(value, "altText"@, text) ==> media.alt_text == Some(text)
    &&& json::member(value, "altText"@) is None && has_text(value, "alt_text"@, text)
        ==> media.alt_text == Some(text)
    &&& json::member(value, "altText"@) is None && json::member(value, "alt_text"@) is None
        ==> media.alt_text is None
    &&& has_text(value, "thumbnailUrl"@, text) ==> media.preview_image_url == Some(text)
    &&& json::member(value, "thumbnailUrl"@) is None && has_text(value, "thumbnail_url"@, text)
        ==> media.preview_image_url == Some(text)
    &&& has_count(value, "width"@, count) ==> media.width == Some(count)
    &&& has_count(value, "height"@, count) ==> media.height == Some(count)
    &&& json::member(value, "width"@) is None ==> media.width is None
    &&& json::member(value, "height"@) is None ==> media.height is None
    &&& has_count(value, "duration_ms"@, count) ==> media.duration_ms == Some(count)
}

/// The media items of a post are those of the document, one for each, in order.
pub proof fn law_media_come_from_their_members(
    value: JsonView,
    depth: int,
    items: Seq<JsonView>,
    text: Seq<char>,
    count: u64,
)
    ensures
        normalize::community_post(value, depth) matches Ok(post) ==> {
            &&& json::member(value, "media"@) is None ==> post.media.len() == 0
            &&& json::member(value, "media"@) matches Some(list) ==> (json::member(list, "all"@)
                == Some(JsonView::Array(items)) ==> {
                &&& post.media.len() == items.len()
                &&& forall|i: int|
                    0 <= i < items.len() ==> is_media(
                        #[trigger] post.media[i],
                        items[i],
                        text,
                        count,
                    )
            })
        },
{
}

/// Whether an encoding has the parts that a document gives under their names.
pub open spec fn is_encoding(
    variant: VariantView,
    value: JsonView,
    text: Seq<char>,
    count: u64,
) -> bool {
    &&& has_text(value, "url"@, text) ==> variant.url == text
    &&& has_count(value, "bitrate"@, count) ==> variant.bit_rate == Some(count)
    &&& json::member(value, "bitrate"@) is None && has_count(value, "bit_rate"@, count)
        ==> variant.bit_rate == Some(count)
    &&& has_text(value, "contentType"@, text) && json::member(value, "content_type"@) is None
        ==> variant.content_type == Some(text)
    &&& has_text(value, "content_type"@, text) && json::member(value, "contentType"@) is None
        ==> variant.content_type == Some(text)
    &&& has_text(value, "container"@, text) && json::member(value, "contentType"@) is None
        && json::member(value, "content_type"@) is None ==> variant.content_type == Some(text)
}

proof fn lemma_encodings(
    values: Seq<JsonView>,
    first: Seq<char>,
    second: Seq<char>,
    text: Seq<char>,
    count: u64,
)
    requires
        forall|i: int|
            0 <= i < values.len() ==> json::member(#[trigger] values[i], "url"@) matches Some(
                JsonView::Text(_),
            ),
        (first == "contentType"@ && second == "content_type"@) || (first == "content_type"@
            && second == "contentType"@),
    ensures
        media::variants_in(values, first, second).len() == values.len(),
        forall|i: int|
            0 <= i < values.len() ==> is_encoding(
                #[trigger] media::variants_in(values, first, second)[i],
                values[i],
                text,
                count,
            ),
    decreases values.len(),
{
    if values.len() > 0 {
        let rest = values.drop_last();
        assert forall|i: int| 0 <= i < rest.len() implies json::member(
            #[trigger] rest[i],
            "url"@,
        ) matches Some(JsonView::Text(_)) by {
            assert(rest[i] == values[i]);
        }
        lemma_encodings(rest, first, second, text, count);
        let all = media::variants_in(values, first, second);
        let before = media::variants_in(rest, first, second);
        assert(json::member(values[values.len() - 1], "url"@) matches Some(JsonView::Text(_)));
        assert forall|i: int| 0 <= i < values.len() implies is_encoding(
            #[trigger] all[i],
            values[i],
            text,
            count,
        ) by {
            if i < rest.len() {
                assert(all[i] == before[i]);
                assert(rest[i] == values[i]);
            }
        }
    }
}

/// The encodings of a video are those of its document, one for each with a URL,
/// in order.
pub proof fn law_encodings_come_from_their_members(
    value: JsonView,
    encodings: Seq<JsonView>,
    text: Seq<char>,
    count: u64,
)
    requires
        json::member(value, "formats"@) == Some(JsonView::Array(encodings)) || (json::member(
            value,
            "formats"@,
        ) is None && json::member(value, "variants"@) == Some(JsonView::Array(encodings))),
        forall|i: int|
            0 <= i < encodings.len() ==> json::member(#[trigger] encodings[i], "url"@) matches Some(
                JsonView::Text(_),
            ),
    ensures
        ({
            let media = media::media_item(value);
            &&& media.variants.len() == encodings.len()
            &&& forall|i: int|
                0 <= i < encodings.len() ==> is_encoding(
                    #[trigger] media.variants[i],
                    encodings[i],
                    text,
                    count,
                )
        }),
{
    lemma_encodings(encodings, "contentType"@, "content_type"@, text, count);
}

/// A media item of an article: its type, its sizes under their own names or
/// under those of the image, its description, and its URL, which for a video
/// that is no MP4 is only a preview.
pub proof fn law_article_media_come_from_their_members(
    value: JsonView,
    info: JsonView,
    text: Seq<char>,
    count: u64,
)
    requires
        json::member(value, "media_info"@) == Some(info),
        has_text(info, "original_img_url"@, text),
    ensures
        media::article_media_in(value) matches Some(media) && {
            &&& has_text(value, "type"@, "photo"@) || has_text(value, "type"@, "image"@) ==> {
                &&& media.media_type == Some("photo"@)
                &&& media.url == Some(text)
                &&& media.preview_image_url is None
            }
            &&& has_text(value, "type"@, "video"@) ==> {
                &&& media.media_type == Some("video"@)
                &&& media.preview_image_url == Some(text)
                &&& media.url == (if text::contains(text::lower_case(text), ".mp4"@) {
                    Some(text)
                } else {
                    None
                })
            }
            &&& has_text(value, "type"@, "animated_gif"@) ==> media.media_type == Some("gif"@)
            &&& has_count(value, "width"@, count) ==> media.width == Some(count)
            &&& has_count(value, "height"@, count) ==> media.height == Some(count)
            &&& json::member(value, "width"@) is None && has_count(
                info,
                "original_img_width"@,
                count,
            ) ==> media.width == Some(count)
            &&& json::member(value, "height"@) is None && has_count(
                info,
                "original_img_height"@,
                count,
            ) ==> media.height == Some(count)
            &&& has_count(value, "duration_ms"@, count) ==> media.duration_ms == Some(count)
            &&& forall|alt: Seq<char>|
                #![trigger has_text(value, "alt_text"@, alt)]
                has_text(value, "alt_text"@, alt) && !text::is_blank(alt) ==> media.alt_text
                    == Some(alt)
        },
{
    reveal_strlit("photo");
    reveal_strlit("image");
    reveal_strlit("video");
    reveal_strlit("gif");
    reveal_strlit("animated_gif");
    assert("photo"@.len() == 5 && "image"@.len() == 5 && "video"@.len() == 5 && "gif"@.len() == 3
        && "animated_gif"@.len() == 12);
    assert("photo"@[0] == 'p' && "image"@[0] == 'i' && "video"@[0] == 'v');
}

// ----------------------------------------------------------------------
// The embedding service

/// The author, the address and the kind of a post from the embedding service:
/// the name is the author's, and the user is the first segment of the path of
/// the author's page.
pub proof fn law_embedded_posts_come_from_their_members(
    payload: JsonView,
    id: Seq<char>,
    text: Seq<char>,
    rest: Seq<char>,
    url: UrlView,
    segments: Seq<Seq<char>>,
)
    ensures
        oembed::oembed_post(payload, id) matches Ok(post) ==> {
            &&& has_text(payload, "author_name"@, text) ==> post.author.name == Some(text)
            &&& json::member(payload, "author_name"@) is None ==> post.author.name is None
            &&& has_text(payload, "author_url"@, text) && bridge::url_parts(text) == Some(url)
                && url.segments == Some(segments) && segments.len() > 0 && segments[0].len() > 0
                ==> post.author.username == Some(segments[0])
            &&& json::member(payload, "author_url"@) is None ==> post.author.username is None
            &&& has_text(payload, "url"@, "https://twitter.com"@ + rest) ==> post.url == Some(
                "https://x.com"@ + rest,
            )
            &&& has_text(payload, "url"@, "https://x.com"@ + rest) ==> post.url == Some(
                "https://x.com"@ + rest,
            )
            &&& json::member(payload, "url"@) is None ==> (match post.author.username {
                Some(name) => post.url == Some("https://x.com/"@ + name + "/status/"@ + id),
                None => post.url == Some("https://x.com/"@ + "i"@ + "/status/"@ + id),
            })
            &&& post.id == Some(id)
            &&& post.created_at == dates::moment_of_id(id)
            &&& post.kind == "post"@
            &&& post.source == "x-oembed"@
            &&& post.media.len() == 0
            &&& post.metrics is None
            &&& post.article is None
            &&& post.quoted_post is None
            &&& post.reposted_post is None
        },
        json::member(payload, "html"@) is None ==> (oembed::oembed_post(payload, id) matches Err(
            error,
        ) && error.kind == crate::error::ErrorKind::InvalidResponse),
{
    links::law_addresses_move_to_the_present_name(rest);
    lemma_first_segment(segments);
}

proof fn lemma_first_segment(segments: Seq<Seq<char>>)
    ensures
        segments.len() > 0 && segments[0].len() > 0 ==> text::drop_empty(segments).len() > 0
            && text::drop_empty(segments)[0] == segments[0],
    decreases segments.len(),
{
    if segments.len() > 1 {
        lemma_first_segment(segments.drop_last());
    } else if segments.len() == 1 {
        assert(text::drop_empty(segments.drop_last()) == Seq::<Seq<char>>::empty());
    }
}

/// Only four members of an answer of the embedding service have a part in the
/// post, each in its own: where two answers have the same HTML they have the
/// same text, links, language and date; where they have the same author name
/// and page they have the same author; and where they agree in all four they
/// give the same post, whatever else they hold.
pub proof fn law_embedded_posts_do_not_mix(left: JsonView, right: JsonView, id: Seq<char>)
    requires
        json::member(left, "html"@) == json::member(right, "html"@),
    ensures
        match (oembed::oembed_post(left, id), oembed::oembed_post(right, id)) {
            (Ok(one), Ok(other)) => {
                &&& one.text == other.text
                &&& one.links == other.links
                &&& one.lang == other.lang
                &&& one.date_label == other.date_label
                &&& json::member(left, "author_name"@) == json::member(right, "author_name"@)
                    ==> one.author.name == other.author.name
                &&& json::member(left, "author_url"@) == json::member(right, "author_url"@)
                    ==> one.author.username == other.author.username
                &&& json::member(left, "author_name"@) == json::member(right, "author_name"@)
                    && json::member(left, "author_url"@) == json::member(right, "author_url"@)
                    && json::member(left, "url"@) == json::member(right, "url"@) ==> one == other
                &&& json::member(left, "author_url"@) == json::member(right, "author_url"@)
                    && json::member(left, "url"@) == json::member(right, "url"@) ==> other
                    == (PostView {
                    author: AuthorView { name: other.author.name, ..one.author },
                    ..one
                })
            },
            (Err(one), Err(other)) => one == other,
            _ => false,
        },
{
}

/// The author of a post from the embedding service does not depend on anything
/// but what is said of the author, not even on the text.
pub proof fn law_embedded_authors_do_not_depend_on_the_rest(
    left: JsonView,
    right: JsonView,
    id: Seq<char>,
    other_id: Seq<char>,
)
    requires
        json::member(left, "author_name"@) == json::member(right, "author_name"@),
    ensures
        match (oembed::oembed_post(left, id), oembed::oembed_post(right, other_id)) {
            (Ok(one), Ok(other)) => one.author.name == other.author.name,
            _ => true,
        },
{
}

// ----------------------------------------------------------------------
// Facets

/// Whether a facet says that it is a URL, or does not say what it is.
pub open spec fn says_url(facet: JsonView) -> bool {
    has_text(facet, "type"@, "url"@) || json::member(facet, "type"@) is None
}

/// Where a facet leads: its replacement, else its long URL, else its URL.
pub open spec fn leads_to(facet: JsonView, href: Seq<char>) -> bool {
    ||| has_text(facet, "replacement"@, href)
    ||| json::member(facet, "replacement"@) is None && has_text(facet, "expanded_url"@, href)
    ||| json::member(facet, "replacement"@) is None && json::member(facet, "expanded_url"@) is None
        && has_text(facet, "url"@, href)
}

/// Every facet of a post that is a URL of a web page is among its links, and a
/// facet that is something else is not.
pub proof fn law_every_facet_has_its_link(
    value: JsonView,
    depth: int,
    raw: JsonView,
    facets: Seq<JsonView>,
    at: int,
    href: Seq<char>,
)
    requires
        json::member(value, "raw_text"@) == Some(raw),
        json::member(raw, "facets"@) == Some(JsonView::Array(facets)),
        0 <= at < facets.len(),
        leads_to(facets[at], href),
        text::starts_with(href, "http://"@) || text::starts_with(href, "https://"@),
        !text::starts_with(href, "https://twitter.com"@),
    ensures
        normalize::community_post(value, depth) matches Ok(post) ==> {
            &&& says_url(facets[at]) ==> links::has_href(post.links, href)
            &&& facets.len() == 1 && has_text(facets[at], "type"@, "mention"@) ==> post.links.len()
                == 0
        },
{
    assert(normalize::facets_in(value) == facets);
    if says_url(facets[at]) {
        assert(normalize::is_url_facet(facets[at]));
        assert(normalize::facet_link(facets[at]) matches Some(link) && link.href == href);
        lemma_facet_link(facets, at);
    }
    if facets.len() == 1 && has_text(facets[at], "type"@, "mention"@) {
        reveal_strlit("mention");
        reveal_strlit("url");
        assert("mention"@.len() == 7 && "url"@.len() == 3);
        assert(normalize::facet_link(facets[0]) is None);
        assert(facets.drop_last() == Seq::<JsonView>::empty());
        assert(normalize::facet_links(facets.drop_last()) == Seq::<LinkView>::empty());
    }
}

proof fn lemma_facet_link(facets: Seq<JsonView>, at: int)
    requires
        0 <= at < facets.len(),
        normalize::facet_link(facets[at]) is Some,
    ensures
        links::has_href(
            normalize::facet_links(facets),
            normalize::facet_link(facets[at])->0.href,
        ),
    decreases facets.len(),
{
    let href = normalize::facet_link(facets[at])->0.href;
    let before = normalize::facet_links(facets.drop_last());
    let after = normalize::facet_links(facets);
    if at < facets.len() - 1 {
        assert(facets.drop_last()[at] == facets[at]);
        lemma_facet_link(facets.drop_last(), at);
        let i = choose|i: int| 0 <= i < before.len() && (#[trigger] before[i]).href == href;
        assert(after[i].href == href);
    } else if !links::has_href(before, href) {
        assert(after[before.len() as int].href == href);
    }
}

/// Whether a facet stands for a text: the original, else the short URL, else
/// the source, else the URL.
pub open spec fn stands_for(facet: JsonView, source: Seq<char>) -> bool {
    ||| has_text(facet, "original"@, source)
    ||| json::member(facet, "original"@) is None && has_text(facet, "short_url"@, source)
    ||| json::member(facet, "original"@) is None && json::member(facet, "short_url"@) is None
        && has_text(facet, "source"@, source)
    ||| json::member(facet, "original"@) is None && json::member(facet, "short_url"@) is None
        && json::member(facet, "source"@) is None && has_text(facet, "url"@, source)
}

/// Whether a facet is shown as a text: the replacement, else the long URL, else
/// the unwound one.
pub open spec fn is_shown_as(facet: JsonView, target: Seq<char>) -> bool {
    ||| has_text(facet, "replacement"@, target)
    ||| json::member(facet, "replacement"@) is None && has_text(facet, "expanded_url"@, target)
    ||| json::member(facet, "replacement"@) is None && json::member(facet, "expanded_url"@) is None
        && has_text(facet, "unwound_url"@, target)
}

/// A short link in the text of a post is shown as its facet says, whichever of
/// its members says so; a facet that is no URL changes no text.
pub proof fn law_facets_replace_what_they_stand_for(
    value: JsonView,
    depth: int,
    raw: JsonView,
    facet: JsonView,
    source: Seq<char>,
    target: Seq<char>,
)
    requires
        json::member(value, "raw_text"@) == Some(raw),
        json::member(raw, "facets"@) == Some(JsonView::Array(seq![facet])),
        stands_for(facet, source),
        is_shown_as(facet, target),
        source.len() > 0,
        has_text(value, "text"@, source),
    ensures
        normalize::community_post(value, depth) matches Ok(post) ==> (post.article is None ==> {
            &&& says_url(facet) ==> post.text == target
            &&& has_text(facet, "type"@, "mention"@) ==> post.text == source
        }),
{
    let facets = seq![facet];
    let none = Seq::<char>::empty();
    assert(facets.last() == facet);
    assert(facets.drop_last() == Seq::<JsonView>::empty());
    assert(normalize::facet_pairs(facets.drop_last()) == Seq::<(Seq<char>, Seq<char>)>::empty());
    assert(normalize::facets_in(value) == facets);
    if says_url(facet) {
        assert(normalize::is_url_facet(facet));
        assert(normalize::facet_pair(facet) == Some((source, target)));
        assert(normalize::facet_pairs(facets) == seq![(source, target)]);
        assert(source + none == source);
        assert(source.subrange(0, source.len() as int) == source);
        tokens::law_tokens_get_their_own(source, none, seq![(source, target)], 0);
        assert(tokens::expand(none, seq![(source, target)]) == none);
        assert(target + none == target);
    }
    if has_text(facet, "type"@, "mention"@) {
        reveal_strlit("mention");
        reveal_strlit("url");
        assert("mention"@.len() == 7 && "url"@.len() == 3);
        assert(normalize::facet_pair(facet) is None);
        assert(normalize::facet_pairs(facets) == Seq::<(Seq<char>, Seq<char>)>::empty());
        tokens::law_texts_without_tokens_stay(source, Seq::empty());
    }
}

// ----------------------------------------------------------------------
// URLs of articles

/// Where a URL entity of an article leads: its long URL, else the unwound one,
/// else its URL.
pub open spec fn entity_leads_to(item: JsonView, href: Seq<char>) -> bool {
    ||| has_text(item, "expanded_url"@, href)
    ||| json::member(item, "expanded_url"@) is None && has_text(item, "unwound_url"@, href)
    ||| json::member(item, "expanded_url"@) is None && json::member(item, "unwound_url"@) is None
        && has_text(item, "url"@, href)
}

/// Every URL entity of an article is among its links.
pub proof fn law_article_urls_are_links(
    value: JsonView,
    entities: JsonView,
    items: Seq<JsonView>,
    at: int,
    href: Seq<char>,
)
    requires
        json::member(value, "entities"@) == Some(entities),
        json::member(entities, "urls"@) == Some(JsonView::Array(items)),
        0 <= at < items.len(),
        entity_leads_to(items[at], href),
    ensures
        article::article_in(Some(value)) matches Some(found) ==> links::has_href(found.links, href),
{
    assert(article::url_entities(Some(entities)) == items);
    assert(article::entity_link(items[at]) matches Some(link) && link.href == href);
    lemma_entity_link(items, at);
    let listed = article::entity_links(items);
    let i = choose|i: int| 0 <= i < listed.len() && (#[trigger] listed[i]).href == href;
    if let Some(found) = article::article_in(Some(value)) {
        let content = json::or(
            json::member(value, "content"@),
            json::member(value, "content_state"@),
        );
        let entries = media::entries_in(json::items_in(json::member(value, "media_entities"@)));
        let rendered = article::finished(
            article::draft_of(
                json::items_in(json::member_in(content, "blocks"@)),
                spans::entities_in(json::member_in(content, "entityMap"@)),
                entries,
            ),
        );
        lemma_added_link(links::unique(rendered.links), listed, i);
    }
}

proof fn lemma_entity_link(items: Seq<JsonView>, at: int)
    requires
        0 <= at < items.len(),
        article::entity_link(items[at]) is Some,
    ensures
        links::has_href(
            article::entity_links(items),
            article::entity_link(items[at])->0.href,
        ),
    decreases items.len(),
{
    let href = article::entity_link(items[at])->0.href;
    let before = article::entity_links(items.drop_last());
    let after = article::entity_links(items);
    if at < items.len() - 1 {
        assert(items.drop_last()[at] == items[at]);
        lemma_entity_link(items.drop_last(), at);
        let i = choose|i: int| 0 <= i < before.len() && (#[trigger] before[i]).href == href;
        assert(after[i].href == href);
    } else {
        assert(after[before.len() as int].href == href);
    }
}

/// A link that is added is there.
proof fn lemma_added_link(list: Seq<LinkView>, more: Seq<LinkView>, at: int)
    requires
        0 <= at < more.len(),
    ensures
        links::has_href(links::add_links(list, more), more[at].href),
    decreases more.len(),
{
    let href = more[at].href;
    let before = links::add_links(list, more.drop_last());
    let after = links::add_links(list, more);
    if at < more.len() - 1 {
        assert(more.drop_last()[at] == more[at]);
        lemma_added_link(list, more.drop_last(), at);
        let i = choose|i: int| 0 <= i < before.len() && (#[trigger] before[i]).href == href;
        assert(after[i].href == href);
    } else if !links::has_href(before, href) {
        assert(after[before.len() as int].href == href);
    }
}

/// A short link that is the text of an article without blocks is shown as its
/// long URL, else as the unwound one.
pub proof fn law_article_texts_show_long_urls(
    value: JsonView,
    entities: JsonView,
    item: JsonView,
    source: Seq<char>,
    target: Seq<char>,
)
    requires
        value is Object,
        json::member(value, "content"@) is None,
        json::member(value, "content_state"@) is None,
        json::member(value, "entities"@) == Some(entities),
        json::member(entities, "urls"@) == Some(JsonView::Array(seq![item])),
        has_text(item, "url"@, source),
        has_text(item, "expanded_url"@, target) || (json::member(item, "expanded_url"@) is None
            && has_text(item, "unwound_url"@, target)),
        has_text(value, "plain_text"@, source),
        !text::is_blank(source),
        target.len() > 0,
    ensures
        article::article_in(Some(value)) matches Some(found) && found.text == target
            && found.markdown == target,
{
    let none = Seq::<Seq<char>>::empty();
    let items = seq![item];
    let entries = media::entries_in(json::items_in(json::member(value, "media_entities"@)));
    let draft = article::draft_of(Seq::empty(), spans::entities_in(None), entries);
    assert(draft == article::empty_draft());
    assert(text::join(none, "\n\n"@) == Seq::<char>::empty());
    assert(text::split(Seq::empty(), '\n') == seq![Seq::<char>::empty()]);
    assert(text::lines(Seq::empty()) == Seq::<Seq<char>>::empty());
    assert(text::collapse(Seq::empty()) == Seq::<char>::empty());
    assert(source.len() > 0) by {
        if source.len() == 0 {
            assert(text::trim(source).len() == 0);
        }
    }
    assert(items.last() == item);
    assert(items.drop_last() == Seq::<JsonView>::empty());
    assert(article::expand_entities(source, items.drop_last()) == source);
    lemma_replaced_whole(source, target);
    assert(article::expand_entities(source, items) == target);
}

/// A text in place of itself is that text.
proof fn lemma_replaced_whole(source: Seq<char>, target: Seq<char>)
    requires
        source.len() > 0,
    ensures
        text::replace(source, source, target) == target,
{
    let none = Seq::<char>::empty();
    assert(source.subrange(0, source.len() as int) == source);
    assert(text::occurs_at(source, source, 0));
    text::lemma_find_from(source, source, 0);
    assert(text::find(source, source) == Some(0int));
    assert(source.skip(source.len() as int) == none);
    text::lemma_find_from(none, source, 0);
    assert(text::find(none, source) is None);
    assert(text::replace(none, source, target) == none);
    assert(source.take(0) + target + none == target);
}

// ----------------------------------------------------------------------
// Which member comes first

/// Where a media item of a post says one thing under several names, the first of
/// them counts: a mosaic and a thumbnail stand in for a missing URL, and seconds
/// for missing milliseconds.
pub proof fn law_names_of_media_in_their_order(
    item: JsonView,
    formats: JsonView,
    text: Seq<char>,
    number: json::JsonNumber,
    bits: u64,
)
    ensures
        ({
            let media = media::media_item(item);
            &&& has_text(item, "altText"@, text) ==> media.alt_text == Some(text)
            &&& json::member(item, "altText"@) is None && has_text(item, "alt_text"@, text)
                ==> media.alt_text == Some(text)
            &&& has_text(item, "thumbnailUrl"@, text) ==> media.preview_image_url == Some(text)
            &&& json::member(item, "thumbnailUrl"@) is None && has_text(item, "thumbnail_url"@, text)
                ==> media.preview_image_url == Some(text)
            &&& has_text(item, "url"@, text) ==> media.url == Some(text)
            &&& json::member(item, "url"@) is None && json::member(item, "formats"@) == Some(formats)
                && has_text(formats, "jpeg"@, text) ==> media.url == Some(text)
            &&& json::member(item, "url"@) is None && json::member(item, "formats"@) == Some(formats)
                && json::member(formats, "jpeg"@) is None && has_text(formats, "webp"@, text)
                ==> media.url == Some(text)
            &&& json::member(item, "url"@) is None && json::member(item, "formats"@) is None
                && has_text(item, "thumbnailUrl"@, text) ==> media.url == Some(text)
            &&& json::member(item, "url"@) is None && json::member(item, "formats"@) is None
                && json::member(item, "thumbnailUrl"@) is None && has_text(
                item,
                "thumbnail_url"@,
                text,
            ) ==> media.url == Some(text)
            &&& json::member(item, "duration_ms"@) is None && json::member(item, "duration"@)
                == Some(JsonView::Number(number)) && number.double == Some(bits)
                ==> media.duration_ms == Some(double::unsigned_millis_of(bits))
        }),
{
}

/// An encoding of a post is of the type under `contentType` before that under
/// `content_type`, one of an article the other way round; one without a URL is
/// left out.
pub proof fn law_names_of_encodings_in_their_order(
    encoding: JsonView,
    item: JsonView,
    first: Seq<char>,
    second: Seq<char>,
)
    requires
        has_text(encoding, "contentType"@, first),
        has_text(encoding, "content_type"@, second),
    ensures
        json::member(encoding, "url"@) is Some && json::member(item, "formats"@) == Some(
            JsonView::Array(seq![encoding]),
        ) ==> media::media_item(item).variants.len() <= 1 && (media::media_item(item).variants.len()
            == 1 ==> media::media_item(item).variants[0].content_type == Some(first)),
        json::member(item, "video_info"@) matches Some(info) ==> (json::member(info, "variants"@)
            == Some(JsonView::Array(seq![encoding])) ==> media::article_variants(item).len() <= 1 && (
        media::article_variants(item).len() == 1 ==> media::article_variants(item)[0].content_type
            == Some(second))),
        json::member(encoding, "url"@) is None && json::member(item, "formats"@) == Some(
            JsonView::Array(seq![encoding]),
        ) ==> media::media_item(item).variants.len() == 0,
{
    let list = seq![encoding];
    assert(list.last() == encoding);
    assert(list.drop_last() == Seq::<JsonView>::empty());
    let none = Seq::<JsonView>::empty();
    assert(media::variants_in(none, "contentType"@, "content_type"@)
        == Seq::<VariantView>::empty());
    assert(media::variants_in(none, "content_type"@, "contentType"@)
        == Seq::<VariantView>::empty());
}

/// The URL of a media item of an article: that of its description, original
/// first, else its own.
pub proof fn law_urls_of_article_media_in_their_order(
    value: JsonView,
    info: JsonView,
    text: Seq<char>,
)
    ensures
        json::member(value, "media_info"@) == Some(info) && has_text(info, "original_img_url"@, text)
            ==> media::source_url_in(value) == Some(text) && media::cover_url_in(Some(value))
            == Some(text),
        json::member(value, "media_info"@) == Some(info) && json::member(info, "original_img_url"@)
            is None && has_text(info, "media_url_https"@, text) ==> media::source_url_in(value)
            == Some(text) && media::cover_url_in(Some(value)) == Some(text),
        json::member(value, "media_info"@) == Some(info) && json::member(info, "original_img_url"@)
            is None && json::member(info, "media_url_https"@) is None && has_text(
            info,
            "media_url"@,
            text,
        ) ==> media::source_url_in(value) == Some(text) && media::cover_url_in(Some(value)) == Some(
            text,
        ),
        json::member(value, "media_info"@) is None && has_text(value, "media_url_https"@, text)
            ==> media::source_url_in(value) == Some(text),
        json::member(value, "media_info"@) is None && json::member(value, "media_url_https"@) is None
            && has_text(value, "media_url"@, text) ==> media::source_url_in(value) == Some(text),
        json::member(value, "media_info"@) is None && json::member(value, "media_url_https"@) is None
            && json::member(value, "media_url"@) is None && has_text(value, "url"@, text)
            ==> media::source_url_in(value) == Some(text) && media::cover_url_in(Some(value))
            == Some(text),
        media::cover_url_in(None) is None,
{
}

/// A media item of an article that does not say what it is is a video where it
/// has encodings and a photo where it has none; one with neither a URL nor
/// encodings is none.
pub proof fn law_article_media_without_a_type(value: JsonView, url: Seq<char>)
    requires
        json::member(value, "type"@) is None,
        json::member(value, "media_info"@) is None,
    ensures
        json::member(value, "video_info"@) is None && has_text(value, "media_url_https"@, url) ==> (
        media::article_media_in(value) matches Some(found) && found.media_type == Some("photo"@)
            && found.url == Some(url)),
        media::article_variants(value).len() > 0 ==> (media::article_media_in(value) matches Some(
            found,
        ) && found.media_type == Some("video"@)),
        json::member(value, "video_info"@) is None && json::member(value, "media_url_https"@) is None
            && json::member(value, "media_url"@) is None && json::member(value, "url"@) is None
            ==> media::article_media_in(value) is None,
{
    reveal_strlit("photo");
    reveal_strlit("image");
    reveal_strlit("video");
    reveal_strlit("gif");
    reveal_strlit("animated_gif");
    assert("photo"@.len() == 5 && "image"@.len() == 5 && "video"@.len() == 5 && "gif"@.len() == 3
        && "animated_gif"@.len() == 12);
    assert("photo"@[0] == 'p' && "image"@[0] == 'i' && "video"@[0] == 'v');
    assert(media::variants_in(Seq::empty(), "content_type"@, "contentType"@)
        == Seq::<VariantView>::empty());
}

/// A media item of an article is found under any of its IDs; of two under one ID
/// the last counts.
pub proof fn law_article_media_are_found_by_their_ids(
    values: Seq<JsonView>,
    value: JsonView,
    id: Seq<char>,
)
    requires
        media::article_media_in(value) is Some,
        has_text(value, "id"@, id) || has_text(value, "id_str"@, id) || has_text(
            value,
            "media_id"@,
            id,
        ) || has_text(value, "media_key"@, id),
    ensures
        media::media_named(media::entries_in(values.push(value)), id) == media::article_media_in(
            value,
        ),
{
    let none = Seq::<Seq<char>>::empty();
    let first = text::with_text(none, json::string_in(json::member(value, "id"@)));
    let second = text::with_text(first, json::string_in(json::member(value, "id_str"@)));
    let third = text::with_text(second, json::string_in(json::member(value, "media_id"@)));
    let fourth = text::with_text(third, json::string_in(json::member(value, "media_key"@)));
    crate::readable::lemma_with_text(none, json::string_in(json::member(value, "id"@)));
    crate::readable::lemma_with_text(first, json::string_in(json::member(value, "id_str"@)));
    crate::readable::lemma_with_text(second, json::string_in(json::member(value, "media_id"@)));
    crate::readable::lemma_with_text(third, json::string_in(json::member(value, "media_key"@)));
    assert(fourth.contains(id));
    assert(values.push(value).drop_last() == values);
    assert(values.push(value).last() == value);
}

/// An entity of media embeds the items that it lists, by their IDs or the IDs
/// they had before they were uploaded.
pub proof fn law_entities_name_their_media(
    data: JsonView,
    items: Seq<JsonView>,
    at: int,
    id: Seq<char>,
)
    requires
        json::member(data, "mediaItems"@) == Some(JsonView::Array(items)),
        0 <= at < items.len(),
        has_text(items[at], "mediaId"@, id) || (json::member(items[at], "mediaId"@) is None
            && has_text(items[at], "localMediaId"@, id)),
    ensures
        article::media_ids_in(data).contains(id),
{
    lemma_item_id(items, at, id);
    let listed = article::item_ids(items);
    if let Some(own) = article::media_id_in(data) {
        if !listed.contains(own) {
            crate::shown::lemma_pushed(listed, own);
        }
    }
}

proof fn lemma_item_id(items: Seq<JsonView>, at: int, id: Seq<char>)
    requires
        0 <= at < items.len(),
        article::media_id_in(items[at]) == Some(id),
    ensures
        article::item_ids(items).contains(id),
    decreases items.len(),
{
    let rest = items.drop_last();
    let before = article::item_ids(rest);
    if at < rest.len() {
        assert(rest[at] == items[at]);
        lemma_item_id(rest, at, id);
    }
    crate::readable::lemma_with_text(before, article::media_id_in(items.last()));
}

/// A post with an article shows its own text where that says something, and the
/// article's where it is blank or made of URLs alone.
pub proof fn law_articles_stand_in_for_texts(
    value: JsonView,
    depth: int,
    text: Seq<char>,
    at: int,
)
    requires
        has_text(value, "text"@, text),
        json::member(value, "raw_text"@) is None,
    ensures
        normalize::community_post(value, depth) matches Ok(post) ==> (post.article matches Some(
            article,
        ) ==> {
            let words = text::words(text);
            &&& text::is_blank(text) ==> post.text == article.text
            &&& words.len() > 0 && (forall|i: int|
                0 <= i < words.len() ==> (bridge::url_parts(#[trigger] words[i]) matches Some(url)
                    && (url.scheme == "http"@ || url.scheme == "https"@))) ==> post.text
                == article.text
            &&& !text::is_blank(text) && 0 <= at < words.len() && bridge::url_parts(words[at])
                is None ==> post.text == text
        }),
{
    let words = text::words(text);
    let none = Seq::<(Seq<char>, Seq<char>)>::empty();
    tokens::law_texts_without_tokens_stay(text, none);
    assert(normalize::facets_in(value) == Seq::<JsonView>::empty());
    assert(normalize::facet_pairs(Seq::empty()) == none);
    assert(normalize::visible_text(value) == text);
    if 0 <= at < words.len() && bridge::url_parts(words[at]) is None {
        assert(!normalize::is_web_url(bridge::url_parts(words[at])));
        assert(!normalize::only_urls(text));
    }
    if words.len() > 0 && forall|i: int|
        0 <= i < words.len() ==> (bridge::url_parts(#[trigger] words[i]) matches Some(url) && (
        url.scheme == "http"@ || url.scheme == "https"@)) {
        assert(normalize::only_urls(text));
    }
}

} // verus!
