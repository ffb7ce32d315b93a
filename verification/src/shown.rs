//! What the views of a result show, by the parts of the result.

use vstd::prelude::*;

use crate::links;
use crate::markdown;
use crate::model::AuthorView;
use crate::model::LinkView;
use crate::model::MediaView;
use crate::model::PostView;
use crate::model::ResultView;
use crate::model::VideoQuality;
use crate::render;
use crate::text;
use crate::video;
use crate::views;

verus! {

// ----------------------------------------------------------------------
// Parts of texts

/// Whether a text has ink at both of its ends.
pub open spec fn has_ink(s: Seq<char>) -> bool {
    s.len() > 0 && !text::is_whitespace(s[0]) && !text::is_whitespace(s.last())
}

proof fn lemma_ink(s: Seq<char>)
    requires
        has_ink(s),
    ensures
        text::trim(s) == s,
        !text::is_blank(s),
{
    text::lemma_ink(s, 0);
}

pub proof fn lemma_self(s: Seq<char>)
    ensures
        text::contains(s, s),
{
    assert(s.subrange(0, s.len() as int) == s);
    assert(text::occurs_at(s, s, 0));
}

pub proof fn lemma_in_front(s: Seq<char>, after: Seq<char>)
    ensures
        text::contains(s + after, s),
{
    assert((s + after).subrange(0, s.len() as int) == s);
    assert(text::occurs_at(s + after, s, 0));
}

pub proof fn lemma_at_end(before: Seq<char>, s: Seq<char>)
    ensures
        text::contains(before + s, s),
{
    text::lemma_contains_middle(before, s, Seq::empty());
}

pub proof fn lemma_sum(front: Seq<char>, middle: Seq<char>, back: Seq<char>)
    ensures
        front + (middle + back) == front + middle + back,
{
}

pub proof fn lemma_two_ends(front: Seq<char>, middle: Seq<char>, back: Seq<char>)
    ensures
        text::contains(front + middle + back, front),
        text::contains(front + middle + back, back),
{
    lemma_at_end(front + middle, back);
    lemma_in_front(front, middle + back);
    assert(front + (middle + back) == front + middle + back);
}

/// A link holds what it is called and where it leads.
proof fn lemma_link(front: Seq<char>, label: Seq<char>, url: Seq<char>, back: Seq<char>)
    ensures
        text::contains(front + label + "]("@ + url + back, label),
        text::contains(front + label + "]("@ + url + back, "]("@ + url + back),
{
    let middle = "]("@;
    let tail = middle + url + back;
    text::lemma_contains_middle(front, label, tail);
    lemma_at_end(front + label, tail);
    lemma_sum(front + label, middle + url, back);
    lemma_sum(front + label, middle, url);
}

/// A list whose joined text is looked at holds a text.
pub proof fn lemma_joined_contains(
    lines: Seq<Seq<char>>,
    line: Seq<char>,
    inside: Seq<char>,
    sep: Seq<char>,
)
    requires
        lines.contains(line),
        text::contains(line, inside),
    ensures
        text::contains(text::join(lines, sep), inside),
{
    let at = choose|at: int| 0 <= at < lines.len() && lines[at] == line;
    text::lemma_join_contains(lines, sep, at);
    text::lemma_contains_through(text::join(lines, sep), line, inside);
}

pub proof fn lemma_pushed(lines: Seq<Seq<char>>, more: Seq<char>)
    ensures
        lines.push(more).contains(more),
        forall|line: Seq<char>| #[trigger] lines.contains(line) ==> lines.push(more).contains(line),
{
    assert(lines.push(more)[lines.len() as int] == more);
    assert forall|line: Seq<char>| #[trigger] lines.contains(line) implies lines.push(
        more,
    ).contains(line) by {
        let at = choose|at: int| 0 <= at < lines.len() && lines[at] == line;
        assert(lines.push(more)[at] == line);
    }
}

// ----------------------------------------------------------------------
// Authors and days

/// The name and the user name of an author are shown.
pub proof fn lemma_author_text(author: AuthorView)
    ensures
        author.username matches Some(name) ==> text::contains(
            render::author_text(author),
            "@"@ + name,
        ),
        author.name matches Some(name) ==> text::contains(render::author_text(author), name),
{
    let none = Seq::<char>::empty();
    let username = match author.username {
        Some(username) => "@"@ + username,
        None => "@未知用户"@,
    };
    lemma_self(username);
    if let Some(name) = author.name {
        text::lemma_contains_middle(name + " ("@, username, ")"@);
        text::lemma_contains_middle(none, name, " ("@ + username + ")"@);
        assert(none + name + (" ("@ + username + ")"@) == name + " ("@ + username + ")"@);
    }
}

proof fn lemma_opened()
    ensures
        " (@"@ == " ("@ + "@"@,
{
    reveal_strlit(" (@");
    reveal_strlit(" (");
    reveal_strlit("@");
}

proof fn lemma_author_markdown(author: AuthorView)
    ensures
        author.username matches Some(name) ==> text::contains(
            markdown::author_markdown(author),
            "@"@ + name,
        ),
{
    if let Some(username) = author.username {
        lemma_self("@"@ + username);
        if let Some(name) = author.name {
            let front = markdown::escaped(name);
            lemma_opened();
            lemma_sum(front, " ("@, "@"@);
            lemma_sum(front + " ("@, "@"@, username);
            text::lemma_contains_middle(front + " ("@, "@"@ + username, ")"@);
        }
    }
}

// ----------------------------------------------------------------------
// Plain text

/// The own words of a post: those of its article, else its text.
pub open spec fn has_words(post: PostView, words: Seq<char>) -> bool {
    &&& has_ink(words)
    &&& match post.article {
        Some(article) => article.text == words,
        None => post.text == words,
    }
}

/// The plain text shows the words of the post, of the posts that it quotes and
/// reposts, and of every reply, with the user name of whoever wrote it.
pub proof fn law_text_shows_the_words(result: ResultView, words: Seq<char>, at: int)
    ensures
        has_words(result.post, words) ==> text::contains(render::text_view(result), words),
        result.post.quoted_post matches Some(post) ==> (has_words(*post, words) ==> text::contains(
            render::text_view(result),
            words,
        )),
        result.post.reposted_post matches Some(post) ==> (has_words(*post, words)
            ==> text::contains(render::text_view(result), words)),
        result.reply_info is Some && 0 <= at < result.replies.len() ==> {
            &&& has_words(result.replies[at], words) ==> text::contains(
                render::text_view(result),
                words,
            )
            &&& result.replies[at].author.username matches Some(name) ==> text::contains(
                render::text_view(result),
                "@"@ + name,
            )
        },
{
    views::law_text_keeps_the_bodies(result);
    if has_ink(words) {
        lemma_ink(words);
    }
    if result.reply_info is Some && 0 <= at < result.replies.len() {
        lemma_text_names_the_replies(result, at);
    }
}

/// The plain text names who wrote a reply.
proof fn lemma_text_names_the_replies(result: ResultView, at: int)
    requires
        result.reply_info is Some,
        0 <= at < result.replies.len(),
    ensures
        result.replies[at].author.username matches Some(name) ==> text::contains(
            render::text_view(result),
            "@"@ + name,
        ),
{
    let reply = result.replies[at];
    lemma_author_text(reply.author);
    views::lemma_plain_reply_is_shown(result, at);
    let front = render::author_text(reply.author);
    let rest = ":\n"@ + render::body_text(reply);
    lemma_in_front(front, rest);
    assert(front + rest == front + ":\n"@ + render::body_text(reply));
    if let Some(name) = reply.author.username {
        text::lemma_contains_through(front + rest, front, "@"@ + name);
        text::lemma_contains_through(render::text_view(result), front + rest, "@"@ + name);
    }
}

// ----------------------------------------------------------------------
// Markdown

/// Whether a text shows what a post holds: its words, the title, the cover and
/// the words of its article, where its links lead, the descriptions of its media
/// and an MP4 of each of its videos.
#[verifier::opaque]
pub open spec fn shows_content(view: Seq<char>, post: PostView) -> bool {
    &&& post.article is None && has_ink(post.text) ==> text::contains(view, post.text)
    &&& post.article matches Some(article) ==> {
        &&& has_ink(article.markdown) ==> text::contains(view, article.markdown)
        &&& text::is_blank(article.markdown) && has_ink(post.text) ==> text::contains(
            view,
            post.text,
        )
        &&& article.title matches Some(title) ==> text::contains(view, "# "@ + title)
        &&& article.cover_media_url matches Some(cover) ==> text::contains(view, cover)
        &&& forall|i: int|
            0 <= i < article.links.len() ==> text::contains(
                view,
                (#[trigger] article.links[i]).href,
            )
    }
    &&& forall|i: int|
        0 <= i < post.links.len() ==> text::contains(view, (#[trigger] post.links[i]).href)
    &&& forall|i: int|
        0 <= i < post.media.len() ==> ((#[trigger] post.media[i]).alt_text matches Some(alt) ==> (
        has_ink(alt) ==> text::contains(view, "- Media description: "@ + alt)))
    &&& forall|i: int| 0 <= i < post.media.len() ==> shows_video(view, #[trigger] post.media[i])
}

/// Whether a text shows an MP4 of a media item, where the item is a video that
/// has one.
pub open spec fn shows_video(view: Seq<char>, media: MediaView) -> bool {
    (media.media_type == Some("video"@) || media.media_type == Some("gif"@)) && (exists|i: int|
        0 <= i < media.variants.len() && video::says_mp4(#[trigger] media.variants[i]))
        ==> exists|i: int|
        0 <= i < media.variants.len() && video::says_mp4(#[trigger] media.variants[i])
            && text::contains(view, "- "@ + media.variants[i].url)
}

/// A text shows what one of its parts shows.
proof fn lemma_shows_through(whole: Seq<char>, part: Seq<char>, post: PostView)
    requires
        text::contains(whole, part),
        shows_content(part, post),
    ensures
        shows_content(whole, post),
{
    reveal(shows_content);
    assert forall|inside: Seq<char>| #[trigger] text::contains(part, inside) implies text::contains(
        whole,
        inside,
    ) by {
        text::lemma_contains_through(whole, part, inside);
    }
    assert forall|i: int| 0 <= i < post.media.len() implies shows_video(
        whole,
        #[trigger] post.media[i],
    ) by {
        let media = post.media[i];
        assert(shows_video(part, media));
        if (media.media_type == Some("video"@) || media.media_type == Some("gif"@)) && exists|j: int|
            0 <= j < media.variants.len() && video::says_mp4(#[trigger] media.variants[j]) {
            let j = choose|j: int|
                0 <= j < media.variants.len() && video::says_mp4(#[trigger] media.variants[j])
                    && text::contains(part, "- "@ + media.variants[j].url);
            assert(text::contains(whole, "- "@ + media.variants[j].url));
        }
    }
}

/// A link stands in the body or is missing from it.
proof fn lemma_link_is_missing(body: Seq<char>, all: Seq<LinkView>, at: int)
    requires
        0 <= at < all.len(),
        !text::contains(body, all[at].href),
    ensures
        links::has_href(markdown::missing_links(body, all), all[at].href),
    decreases all.len(),
{
    let last = all.last();
    let before = markdown::missing_links(body, all.drop_last());
    let after = markdown::missing_links(body, all);
    if at < all.len() - 1 {
        assert(all.drop_last()[at] == all[at]);
        lemma_link_is_missing(body, all.drop_last(), at);
        let j = choose|j: int| 0 <= j < before.len() && (#[trigger] before[j]).href == all[at].href;
        assert(after[j].href == all[at].href);
    } else if !links::has_href(before, last.href) {
        assert(after == before.push(last));
        assert(after[before.len() as int].href == last.href);
    }
}

/// A description that is not blank has its line.
proof fn lemma_description(media: Seq<MediaView>, at: int)
    requires
        0 <= at < media.len(),
        media[at].alt_text is Some,
        !text::is_blank(media[at].alt_text->0),
    ensures
        markdown::description_lines(media).contains("- Media description: "@ + media[at].alt_text->0),
    decreases media.len(),
{
    let line = "- Media description: "@ + media[at].alt_text->0;
    let before = markdown::description_lines(media.drop_last());
    if at < media.len() - 1 {
        assert(media.drop_last()[at] == media[at]);
        lemma_description(media.drop_last(), at);
        if let Some(alt) = media.last().alt_text {
            lemma_pushed(before, "- Media description: "@ + alt);
        }
    } else {
        lemma_pushed(before, line);
    }
}

/// The URL that is selected for a media item is among those of all.
proof fn lemma_url_is_added(urls: Seq<Seq<char>>, media: Seq<MediaView>, at: int, url: Seq<char>)
    requires
        0 <= at < media.len(),
        video::selected_url(media[at], VideoQuality::Best) == Some(url),
    ensures
        video::add_media_urls(urls, media, VideoQuality::Best).contains(url),
    decreases media.len(),
{
    let before = video::add_media_urls(urls, media.drop_last(), VideoQuality::Best);
    if at < media.len() - 1 {
        assert(media.drop_last()[at] == media[at]);
        lemma_url_is_added(urls, media.drop_last(), at, url);
    }
    if let Some(last) = video::selected_url(media.last(), VideoQuality::Best) {
        lemma_pushed(before, last);
    }
}

/// The body of a post holds its words, and the title, the cover and the words of
/// its article.
proof fn lemma_body(post: PostView)
    ensures
        post.article is None && has_ink(post.text) ==> markdown::body_markdown(post) == post.text,
        post.article matches Some(article) ==> {
            let body = markdown::body_markdown(post);
            &&& has_ink(article.markdown) ==> text::contains(body, article.markdown)
            &&& text::is_blank(article.markdown) && has_ink(post.text) ==> text::contains(
                body,
                post.text,
            )
            &&& article.title matches Some(title) ==> text::contains(body, "# "@ + title)
            &&& article.cover_media_url matches Some(cover) ==> text::contains(body, cover)
        },
{
    if has_ink(post.text) {
        lemma_ink(post.text);
    }
    if let Some(article) = post.article {
        if has_ink(article.markdown) {
            lemma_ink(article.markdown);
        }
        let body = if text::is_blank(article.markdown) {
            text::trim(post.text)
        } else {
            text::trim(article.markdown)
        };
        let titled = match article.title {
            Some(title) => seq!["# "@ + title],
            None => Seq::empty(),
        };
        let covered = match article.cover_media_url {
            Some(cover) => if text::contains(body, cover) {
                titled
            } else {
                titled.push("![](<"@ + cover + ">)"@)
            },
            None => titled,
        };
        let parts = if body.len() == 0 {
            covered
        } else {
            covered.push(body)
        };
        let whole = markdown::body_markdown(post);
        assert(whole == text::join(parts, "\n\n"@));
        if body.len() > 0 {
            assert(parts[parts.len() - 1] == body);
            text::lemma_join_contains(parts, "\n\n"@, parts.len() - 1);
        }
        if let Some(title) = article.title {
            assert(parts[0] == "# "@ + title);
            text::lemma_join_contains(parts, "\n\n"@, 0);
        }
        if let Some(cover) = article.cover_media_url {
            if text::contains(body, cover) {
                if body.len() > 0 {
                    text::lemma_contains_through(whole, body, cover);
                } else {
                    assert(cover.len() == 0);
                    assert(whole.subrange(0, 0) == cover);
                    assert(text::occurs_at(whole, cover, 0));
                }
            } else {
                let line = "![](<"@ + cover + ">)"@;
                assert(parts[titled.len() as int] == line);
                text::lemma_join_contains(parts, "\n\n"@, titled.len() as int);
                text::lemma_contains_middle("![](<"@, cover, ">)"@);
                text::lemma_contains_through(whole, line, cover);
            }
        }
    }
}

/// Where a link of a post leads stands in one of its blocks.
proof fn lemma_links_are_shown(post: PostView, at: int)
    requires
        0 <= at < markdown::all_links(post).len(),
    ensures
        text::contains(
            text::join(markdown::content_blocks(post), "\n\n"@),
            markdown::all_links(post)[at].href,
        ),
{
    let blocks = markdown::content_blocks(post);
    let whole = text::join(blocks, "\n\n"@);
    let body = markdown::body_markdown(post);
    let all = markdown::all_links(post);
    let href = all[at].href;
    let missing = markdown::missing_links(body, all);
    if text::contains(body, href) {
        assert(blocks[0] == body);
        text::lemma_join_contains(blocks, "\n\n"@, 0);
        text::lemma_contains_through(whole, body, href);
    } else {
        lemma_link_is_missing(body, all, at);
        let j = choose|j: int| 0 <= j < missing.len() && (#[trigger] missing[j]).href == href;
        let lines = markdown::link_lines(missing);
        let block = "### Links\n\n"@ + text::join(lines, "\n"@);
        assert(blocks[1] == block);
        text::lemma_join_contains(blocks, "\n\n"@, 1);
        let label = markdown::escaped(
            if text::is_blank(missing[j].text) {
                href
            } else {
                missing[j].text
            },
        );
        assert(lines[j] == "- ["@ + label + "]("@ + href + ")"@);
        text::lemma_contains_middle("- ["@ + label + "]("@, href, ")"@);
        assert(lines.contains(lines[j]));
        lemma_joined_contains(lines, lines[j], href, "\n"@);
        lemma_at_end("### Links\n\n"@, text::join(lines, "\n"@));
        text::lemma_contains_through(block, text::join(lines, "\n"@), href);
        text::lemma_contains_through(whole, block, href);
    }
}

/// The description of a media item stands in one of the blocks.
proof fn lemma_description_is_shown(post: PostView, at: int)
    requires
        0 <= at < post.media.len(),
        post.media[at].alt_text is Some,
        !text::is_blank(post.media[at].alt_text->0),
    ensures
        text::contains(
            text::join(markdown::content_blocks(post), "\n\n"@),
            "- Media description: "@ + post.media[at].alt_text->0,
        ),
{
    let blocks = markdown::content_blocks(post);
    let line = "- Media description: "@ + post.media[at].alt_text->0;
    let lines = markdown::description_lines(post.media);
    let block = text::join(lines, "\n"@);
    lemma_description(post.media, at);
    lemma_self(line);
    lemma_joined_contains(lines, line, line, "\n"@);
    let body = markdown::body_markdown(post);
    let place: int = if markdown::missing_links(body, markdown::all_links(post)).len() == 0 {
        1
    } else {
        2
    };
    assert(blocks[place] == block);
    assert(blocks.contains(block));
    lemma_joined_contains(blocks, block, line, "\n\n"@);
}

/// The URL that is selected for a media item stands in one of the blocks.
proof fn lemma_video_is_shown(post: PostView, at: int, url: Seq<char>)
    requires
        0 <= at < post.media.len(),
        video::selected_url(post.media[at], VideoQuality::Best) == Some(url),
    ensures
        text::contains(text::join(markdown::content_blocks(post), "\n\n"@), "- "@ + url),
{
    let blocks = markdown::content_blocks(post);
    let none = Seq::<Seq<char>>::empty();
    let urls = video::add_media_urls(none, post.media, VideoQuality::Best);
    lemma_url_is_added(none, post.media, at, url);
    let j = choose|j: int| 0 <= j < urls.len() && urls[j] == url;
    let lines = markdown::url_lines(urls);
    let line = "- "@ + url;
    assert(lines[j] == line);
    assert(lines.contains(line));
    lemma_self(line);
    lemma_joined_contains(lines, line, line, "\n"@);
    let block = "### Videos\n\n"@ + text::join(lines, "\n"@);
    lemma_at_end("### Videos\n\n"@, text::join(lines, "\n"@));
    text::lemma_contains_through(block, text::join(lines, "\n"@), line);
    assert(blocks[blocks.len() - 1] == block);
    assert(blocks.contains(block));
    lemma_joined_contains(blocks, block, line, "\n\n"@);
}

/// The blocks of a post show what it holds.
proof fn lemma_blocks_show(post: PostView)
    ensures
        shows_content(text::join(markdown::content_blocks(post), "\n\n"@), post),
{
    reveal(shows_content);
    let blocks = markdown::content_blocks(post);
    let whole = text::join(blocks, "\n\n"@);
    let body = markdown::body_markdown(post);
    lemma_body(post);
    assert(blocks[0] == body);
    text::lemma_join_contains(blocks, "\n\n"@, 0);
    let all = markdown::all_links(post);
    if let Some(article) = post.article {
        if has_ink(article.markdown) {
            text::lemma_contains_through(whole, body, article.markdown);
        }
        if text::is_blank(article.markdown) && has_ink(post.text) {
            text::lemma_contains_through(whole, body, post.text);
        }
        if let Some(title) = article.title {
            text::lemma_contains_through(whole, body, "# "@ + title);
        }
        if let Some(cover) = article.cover_media_url {
            text::lemma_contains_through(whole, body, cover);
        }
        assert forall|i: int| 0 <= i < article.links.len() implies text::contains(
            whole,
            (#[trigger] article.links[i]).href,
        ) by {
            assert(all[post.links.len() + i] == article.links[i]);
            lemma_links_are_shown(post, post.links.len() + i);
        }
    }
    assert forall|i: int| 0 <= i < post.links.len() implies text::contains(
        whole,
        (#[trigger] post.links[i]).href,
    ) by {
        assert(all[i] == post.links[i]);
        lemma_links_are_shown(post, i);
    }
    assert forall|i: int| 0 <= i < post.media.len() implies ((
    #[trigger] post.media[i]).alt_text matches Some(alt) ==> (has_ink(alt) ==> text::contains(
        whole,
        "- Media description: "@ + alt,
    ))) by {
        if let Some(alt) = post.media[i].alt_text {
            if has_ink(alt) {
                lemma_ink(alt);
                lemma_description_is_shown(post, i);
            }
        }
    }
    assert forall|i: int| 0 <= i < post.media.len() implies shows_video(
        whole,
        #[trigger] post.media[i],
    ) by {
        let media = post.media[i];
        if (media.media_type == Some("video"@) || media.media_type == Some("gif"@)) && exists|j: int|
            0 <= j < media.variants.len() && video::says_mp4(#[trigger] media.variants[j]) {
            video::law_only_mp4_is_selected(media, VideoQuality::Best);
            let url = video::selected_url(media, VideoQuality::Best)->0;
            let j = choose|j: int|
                0 <= j < media.variants.len() && video::says_mp4(#[trigger] media.variants[j])
                    && media.variants[j].url == url;
            lemma_video_is_shown(post, i, url);
            assert(text::contains(whole, "- "@ + media.variants[j].url));
        }
    }
}

/// Blocks joined stand in more blocks joined.
proof fn lemma_fewer_blocks(blocks: Seq<Seq<char>>, more: Seq<char>, sep: Seq<char>)
    requires
        blocks.len() > 0,
    ensures
        text::contains(text::join(blocks.push(more), sep), text::join(blocks, sep)),
{
    assert(blocks.push(more).drop_last() == blocks);
    lemma_in_front(text::join(blocks, sep), sep + more);
    assert(text::join(blocks, sep) + (sep + more) == text::join(blocks, sep) + sep + more);
}

/// The Markdown of a post shows what it holds.
pub proof fn law_markdown_shows_the_post(post: PostView, include_provenance: bool)
    ensures
        shows_content(markdown::post_markdown(post, include_provenance), post),
{
    let blocks = markdown::content_blocks(post);
    lemma_blocks_show(post);
    if include_provenance {
        if let Some(line) = markdown::provenance(post) {
            lemma_fewer_blocks(blocks, line, "\n\n"@);
            lemma_shows_through(
                markdown::post_markdown(post, include_provenance),
                text::join(blocks, "\n\n"@),
                post,
            );
        }
    }
}

/// The Markdown of a post with its provenance shows who wrote it and where it is.
pub proof fn law_markdown_shows_where_a_post_is(post: PostView)
    ensures
        post.url matches Some(url) ==> text::contains(
            markdown::post_markdown(post, true),
            "]("@ + url + ")_"@,
        ),
        post.author.username matches Some(name) ==> text::contains(
            markdown::post_markdown(post, true),
            "@"@ + name,
        ),
        post.created_at is None ==> (post.date_label matches Some(label) ==> text::contains(
            markdown::post_markdown(post, true),
            label,
        )),
{
    lemma_label(post);
    lemma_provenance(post);
    let label = markdown::label_of(post);
    let shown = markdown::post_markdown(post, true);
    if label.len() > 0 {
        if let Some(name) = post.author.username {
            text::lemma_contains_through(shown, label, "@"@ + name);
        }
        if post.created_at is None && post.date_label is Some {
            text::lemma_contains_through(shown, label, post.date_label->0);
        }
    } else {
        if let Some(name) = post.author.username {
            reveal_strlit("@");
            let at = choose|at: int| text::occurs_at(label, "@"@ + name, at);
            assert(("@"@ + name).len() > 0);
        }
        if post.created_at is None && post.date_label is Some {
            let at = choose|at: int| text::occurs_at(label, post.date_label->0, at);
            assert(shown.subrange(0, 0) == post.date_label->0);
            assert(text::occurs_at(shown, post.date_label->0, 0));
        }
    }
}

/// The Markdown of a post with its provenance holds its label and its address.
proof fn lemma_provenance(post: PostView)
    ensures
        markdown::label_of(post).len() > 0 ==> text::contains(
            markdown::post_markdown(post, true),
            markdown::label_of(post),
        ),
        post.url matches Some(url) ==> text::contains(
            markdown::post_markdown(post, true),
            "]("@ + url + ")_"@,
        ),
{
    let label = markdown::label_of(post);
    let blocks = markdown::content_blocks(post);
    if let Some(line) = markdown::provenance(post) {
        let all = blocks.push(line);
        lemma_pushed(blocks, line);
        match post.url {
            Some(url) => {
                lemma_link("_["@, label, url, ")_"@);
                lemma_joined_contains(all, line, "]("@ + url + ")_"@, "\n\n"@);
            },
            None => {
                text::lemma_contains_middle("_"@, label, "_"@);
            },
        }
        lemma_joined_contains(all, line, label, "\n\n"@);
    }
}

/// The line that names the author of a post and its day holds both.
proof fn lemma_label(post: PostView)
    ensures
        post.author.username matches Some(name) ==> text::contains(
            markdown::label_of(post),
            "@"@ + name,
        ),
        post.created_at is None ==> (post.date_label matches Some(label) ==> text::contains(
            markdown::label_of(post),
            label,
        )),
{
    lemma_author_markdown(post.author);
    let first = seq![markdown::author_markdown(post.author)];
    let dated = text::with_text(first, render::day_of(post));
    let parts = text::with_text(dated, render::media_summary(post.media));
    assert(parts[0] == markdown::author_markdown(post.author));
    text::lemma_join_contains(parts, " · "@, 0);
    if let Some(name) = post.author.username {
        text::lemma_contains_through(markdown::label_of(post), parts[0], "@"@ + name);
    }
    if post.created_at is None && post.date_label is Some {
        assert(parts[1] == post.date_label->0);
        text::lemma_join_contains(parts, " · "@, 1);
    }
}

/// The Markdown of a result shows the post, who wrote it and where it is.
pub proof fn law_markdown_shows_the_post_of_a_result(result: ResultView)
    requires
        result.post.url is Some || result.post.author.username is Some,
    ensures
        shows_content(markdown::markdown_view(result), result.post),
        result.post.url matches Some(url) ==> text::contains(
            markdown::markdown_view(result),
            "]("@ + url + ")_"@,
        ),
        result.post.author.username matches Some(name) ==> text::contains(
            markdown::markdown_view(result),
            "@"@ + name,
        ),
{
    let view = markdown::markdown_view(result);
    let own = markdown::post_markdown(result.post, true);
    law_markdown_shows_the_post(result.post, true);
    law_markdown_shows_where_a_post_is(result.post);
    if let Some(url) = result.post.url {
        let part = "]("@ + url + ")_"@;
        reveal_strlit("](");
        assert(part[0] == ']');
        text::lemma_ink(part, 0);
        views::lemma_blank_inside(own, part);
    } else {
        let part = "@"@ + result.post.author.username->0;
        reveal_strlit("@");
        assert(part[0] == '@');
        text::lemma_ink(part, 0);
        views::lemma_blank_inside(own, part);
    }
    views::law_markdown_keeps_the_content(result);
    lemma_shows_through(view, own, result.post);
    if let Some(url) = result.post.url {
        text::lemma_contains_through(view, own, "]("@ + url + ")_"@);
    }
    if let Some(name) = result.post.author.username {
        text::lemma_contains_through(view, own, "@"@ + name);
    }
}

/// The Markdown of a reply shows it, who wrote it and where it is.
proof fn lemma_reply(reply: PostView)
    ensures
        shows_content(markdown::reply_markdown(reply), reply),
        reply.url matches Some(url) ==> text::contains(
            markdown::reply_markdown(reply),
            "]("@ + url + ")"@,
        ),
        reply.author.username matches Some(name) ==> text::contains(
            markdown::reply_markdown(reply),
            "@"@ + name,
        ),
{
    let label = markdown::label_of(reply);
    let body = markdown::post_markdown(reply, false);
    let whole = markdown::reply_markdown(reply);
    law_markdown_shows_the_post(reply, false);
    lemma_label(reply);
    let heading = match reply.url {
        Some(url) => "### ["@ + label + "]("@ + url + ")"@,
        None => "### "@ + label,
    };
    assert(whole == heading + "\n\n"@ + body);
    lemma_two_ends(heading, "\n\n"@, body);
    lemma_shows_through(whole, body, reply);
    if let Some(url) = reply.url {
        lemma_link("### ["@, label, url, ")"@);
        text::lemma_contains_through(whole, heading, "]("@ + url + ")"@);
    } else {
        lemma_at_end("### "@, label);
    }
    if let Some(name) = reply.author.username {
        text::lemma_contains_through(heading, label, "@"@ + name);
        text::lemma_contains_through(whole, heading, "@"@ + name);
    }
}

/// The Markdown of a result shows every reply, who wrote it and where it is.
pub proof fn law_markdown_shows_every_reply(result: ResultView, at: int)
    requires
        result.reply_info is Some,
        0 <= at < result.replies.len(),
    ensures
        shows_content(markdown::markdown_view(result), result.replies[at]),
        result.replies[at].url matches Some(url) ==> text::contains(
            markdown::markdown_view(result),
            "]("@ + url + ")"@,
        ),
        result.replies[at].author.username matches Some(name) ==> text::contains(
            markdown::markdown_view(result),
            "@"@ + name,
        ),
{
    let view = markdown::markdown_view(result);
    let reply = result.replies[at];
    let whole = markdown::reply_markdown(reply);
    lemma_reply(reply);
    views::law_markdown_keeps_the_content(result);
    lemma_shows_through(view, whole, reply);
    if let Some(url) = reply.url {
        text::lemma_contains_through(view, whole, "]("@ + url + ")"@);
    }
    if let Some(name) = reply.author.username {
        text::lemma_contains_through(view, whole, "@"@ + name);
    }
}

/// A cover that stands in the words of an article is not repeated, links that
/// stand in the words of a post are not listed, and a post without words says so.
pub proof fn law_markdown_repeats_nothing(post: PostView)
    ensures
        post.article matches Some(article) ==> (article.title is None && has_ink(article.markdown)
            && (article.cover_media_url matches Some(cover) ==> text::contains(
            article.markdown,
            cover,
        )) ==> markdown::body_markdown(post) == article.markdown),
        post.article is None && has_ink(post.text) && post.media.len() == 0 && (forall|i: int|
            0 <= i < post.links.len() ==> text::contains(
                post.text,
                (#[trigger] post.links[i]).href,
            )) ==> markdown::post_markdown(post, false) == post.text,
        post.article is None && post.text.len() == 0 ==> markdown::body_markdown(post)
            == "(no text content)"@,
{
    if let Some(article) = post.article {
        if article.title is None && has_ink(article.markdown) && (
        article.cover_media_url matches Some(cover) ==> text::contains(article.markdown, cover)) {
            lemma_ink(article.markdown);
            let none = Seq::<Seq<char>>::empty();
            assert(text::join(none.push(article.markdown), "\n\n"@) == article.markdown);
        }
    } else {
        if has_ink(post.text) && post.media.len() == 0 && forall|i: int|
            0 <= i < post.links.len() ==> text::contains(
                post.text,
                (#[trigger] post.links[i]).href,
            ) {
            lemma_ink(post.text);
            let all = markdown::all_links(post);
            assert(all == post.links);
            lemma_no_missing(post.text, all);
            assert(markdown::content_blocks(post) == seq![post.text]);
            assert(text::join(seq![post.text], "\n\n"@) == post.text);
        }
        if post.text.len() == 0 {
            text::lemma_all_white(post.text);
        }
    }
}

proof fn lemma_no_missing(body: Seq<char>, all: Seq<LinkView>)
    requires
        forall|i: int| 0 <= i < all.len() ==> text::contains(body, (#[trigger] all[i]).href),
    ensures
        markdown::missing_links(body, all).len() == 0,
    decreases all.len(),
{
    if all.len() > 0 {
        let rest = all.drop_last();
        assert(all.last() == all[all.len() - 1]);
        assert forall|i: int| 0 <= i < rest.len() implies text::contains(
            body,
            (#[trigger] rest[i]).href,
        ) by {
            assert(rest[i] == all[i]);
        }
        lemma_no_missing(body, rest);
    }
}

/// The plain text and the Markdown put the posts that the post quotes and reposts
/// under their own headings, and count the replies.
pub proof fn law_posts_inside_have_their_headings(result: ResultView, words: Seq<char>)
    ensures
        result.post.quoted_post matches Some(post) ==> {
            &&& has_words(*post, words) ==> text::contains(
                render::text_view(result),
                "Quoted post:\n"@ + words,
            )
            &&& text::contains(
                markdown::markdown_view(result),
                "## Quoted post\n\n"@ + markdown::quoted(markdown::post_markdown(*post, true)),
            )
        },
        result.post.reposted_post matches Some(post) ==> {
            &&& has_words(*post, words) ==> text::contains(
                render::text_view(result),
                "Reposted content:\n"@ + words,
            )
            &&& text::contains(
                markdown::markdown_view(result),
                "## Reposted content\n\n"@ + markdown::quoted(
                    markdown::post_markdown(*post, true),
                ),
            )
        },
{
    let plain = render::plain_sections(result);
    let marked = markdown::markdown_sections(result);
    if has_ink(words) {
        lemma_ink(words);
    }
    reveal_strlit("Quoted post:\n");
    reveal_strlit("Reposted content:\n");
    reveal_strlit("## Quoted post\n\n");
    reveal_strlit("## Reposted content\n\n");
    if let Some(post) = result.post.quoted_post {
        let text_section = "Quoted post:\n"@ + render::body_text(*post);
        let section = "## Quoted post\n\n"@ + markdown::quoted(
            markdown::post_markdown(*post, true),
        );
        assert(text_section[0] == 'Q' && section[0] == '#');
        text::lemma_ink(text_section, 0);
        text::lemma_ink(section, 0);
        assert(plain[1] == text_section);
        assert(marked[1] == section);
        text::lemma_sections_contain(plain, "\n\n"@, 1);
        text::lemma_sections_contain(marked, "\n\n"@, 1);
    }
    if let Some(post) = result.post.reposted_post {
        let at: int = if result.post.quoted_post is Some {
            2
        } else {
            1
        };
        let text_section = "Reposted content:\n"@ + render::body_text(*post);
        let section = "## Reposted content\n\n"@ + markdown::quoted(
            markdown::post_markdown(*post, true),
        );
        assert(text_section[0] == 'R' && section[0] == '#');
        text::lemma_ink(text_section, 0);
        text::lemma_ink(section, 0);
        assert(plain[at] == text_section);
        assert(marked[at] == section);
        text::lemma_sections_contain(plain, "\n\n"@, at);
        text::lemma_sections_contain(marked, "\n\n"@, at);
    }
}

} // verus!
