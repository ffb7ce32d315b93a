//! The Markdown view of a read result.

use vstd::prelude::*;

use crate::links;
use crate::model::Article;
use crate::model::ArticleView;
use crate::model::Author;
use crate::model::AuthorView;
use crate::model::Link;
use crate::model::LinkView;
use crate::model::Media;
use crate::model::MediaView;
use crate::model::Post;
use crate::model::PostView;
use crate::model::ReadResult;
use crate::model::ReplyInfo;
use crate::model::ReplyInfoView;
use crate::model::ResultView;
use crate::model::VideoQuality;
use crate::render;
use crate::text;
use crate::video;

verus! {

// ----------------------------------------------------------------------
// Pieces

/// `value` with its square brackets escaped.
pub open spec fn escaped(value: Seq<char>) -> Seq<char> {
    text::replace(text::replace(value, "["@, "\\["@), "]"@, "\\]"@)
}

/// Escapes square brackets.
pub fn escape_markdown(value: &str) -> (out: String)
    ensures
        out@ == escaped(value@),
{
    let opened = text::replace_text(value, "[", "\\[");
    text::replace_text(opened.as_str(), "]", "\\]")
}

/// An author.
pub open spec fn author_markdown(author: AuthorView) -> Seq<char> {
    match (author.name, author.username) {
        (Some(name), Some(username)) => escaped(name) + " (@"@ + username + ")"@,
        (Some(name), None) => escaped(name),
        (None, Some(username)) => "@"@ + username,
        (None, None) => "unknown author"@,
    }
}

/// Writes an author.
pub fn markdown_author(author: &Author) -> (out: String)
    ensures
        out@ == author_markdown(author.deep_view()),
{
    match (&author.name, &author.username) {
        (Some(name), Some(username)) => {
            let name = escape_markdown(name.as_str());
            text::cat4(name.as_str(), " (@", username.as_str(), ")")
        },
        (Some(name), None) => escape_markdown(name.as_str()),
        (None, Some(username)) => text::cat2("@", username.as_str()),
        (None, None) => "unknown author".to_owned(),
    }
}

/// A text as a block quote.
pub open spec fn quoted(value: Seq<char>) -> Seq<char> {
    text::join(text::prefixed(text::lines(value), "> "@, ">"@), "\n"@)
}

/// Writes a text as a block quote.
pub fn markdown_quote(value: &str) -> (out: String)
    ensures
        out@ == quoted(value@),
{
    text::prefix_lines(value, "> ", ">")
}

/// The line that names the author, the day and the media of a post.
pub open spec fn label_of(post: PostView) -> Seq<char> {
    text::join(
        text::with_text(
            text::with_text(seq![author_markdown(post.author)], render::day_of(post)),
            render::media_summary(post.media),
        ),
        " · "@,
    )
}

fn write_label(post: &Post) -> (out: String)
    ensures
        out@ == label_of(post.deep_view()),
{
    let mut parts: Vec<String> = Vec::new();
    text::push_line(&mut parts, markdown_author(&post.author));
    assert(parts.deep_view() == seq![author_markdown(post.author.deep_view())]);
    text::push_text(&mut parts, render::compact_date(post));
    text::push_text(&mut parts, render::compact_media_summary(&post.media));
    text::join_strings(parts.as_slice(), " · ")
}

// ----------------------------------------------------------------------
// The body

/// The body of a post with an article: title, cover and text. A cover that
/// stands in the text is not repeated.
pub open spec fn article_body(article: ArticleView, fallback: Seq<char>) -> Seq<char> {
    let body = if text::is_blank(article.markdown) {
        text::trim(fallback)
    } else {
        text::trim(article.markdown)
    };
    let titled = match article.title {
        Some(title) => seq!["# "@ + title],
        None => Seq::empty(),
    };
    let covered = match article.cover_media_url {
        Some(cover) => if text::contains(body, cover) {
            titled
        } else {
            titled.push("![](<"@ + cover + ">)"@)
        },
        None => titled,
    };
    text::join(
        if body.len() == 0 {
            covered
        } else {
            covered.push(body)
        },
        "\n\n"@,
    )
}

/// The body of a post.
pub open spec fn body_markdown(post: PostView) -> Seq<char> {
    match post.article {
        Some(article) => article_body(article, post.text),
        None => if text::is_blank(post.text) {
            "(no text content)"@
        } else {
            text::trim(post.text)
        },
    }
}

fn write_article_body(article: &Article, fallback: &str) -> (out: String)
    ensures
        out@ == article_body(article.deep_view(), fallback@),
{
    let body = if text::blank(article.markdown.as_str()) {
        text::trim_text(fallback)
    } else {
        text::trim_text(article.markdown.as_str())
    };
    let mut parts: Vec<String> = Vec::new();
    assert(parts.deep_view() == Seq::<Seq<char>>::empty());
    if let Some(title) = &article.title {
        text::push_line(&mut parts, text::cat2("# ", title.as_str()));
        assert(parts.deep_view() == seq!["# "@ + title@]);
    }
    if let Some(cover) = &article.cover_media_url {
        if !text::text_contains(body, cover.as_str()) {
            text::push_line(&mut parts, text::cat3("![](<", cover.as_str(), ">)"));
        }
    }
    if !body.is_empty() {
        text::push_line(&mut parts, body.to_owned());
    }
    text::join_strings(parts.as_slice(), "\n\n")
}

/// Writes the body of a post.
pub fn markdown_body(post: &Post) -> (out: String)
    ensures
        out@ == body_markdown(post.deep_view()),
{
    if let Some(article) = &post.article {
        return write_article_body(article, post.text.as_str());
    }
    if text::blank(post.text.as_str()) {
        "(no text content)".to_owned()
    } else {
        text::trim_text(post.text.as_str()).to_owned()
    }
}

// ----------------------------------------------------------------------
// Links, descriptions and videos

/// The links that do not stand in the body, without repetition.
pub open spec fn missing_links(body: Seq<char>, all: Seq<LinkView>) -> Seq<LinkView>
    decreases all.len(),
{
    if all.len() == 0 {
        Seq::empty()
    } else {
        let before = missing_links(body, all.drop_last());
        if text::contains(body, all.last().href) {
            before
        } else {
            links::add_link(before, all.last())
        }
    }
}

/// The links of a post and of its article.
pub open spec fn all_links(post: PostView) -> Seq<LinkView> {
    post.links + (match post.article {
        Some(article) => article.links,
        None => Seq::empty(),
    })
}

/// A link as an item of a list.
pub open spec fn link_line(link: LinkView) -> Seq<char> {
    "- ["@ + escaped(
        if text::is_blank(link.text) {
            link.href
        } else {
            link.text
        },
    ) + "]("@ + link.href + ")"@
}

/// The links as items of a list.
pub open spec fn link_lines(all: Seq<LinkView>) -> Seq<Seq<char>> {
    all.map_values(|link: LinkView| link_line(link))
}

/// The descriptions of the media items as items of a list.
pub open spec fn description_lines(media: Seq<MediaView>) -> Seq<Seq<char>>
    decreases media.len(),
{
    if media.len() == 0 {
        Seq::empty()
    } else {
        let before = description_lines(media.drop_last());
        match media.last().alt_text {
            Some(alt) => if text::is_blank(alt) {
                before
            } else {
                before.push("- Media description: "@ + alt)
            },
            None => before,
        }
    }
}

/// The URLs as items of a list.
pub open spec fn url_lines(urls: Seq<Seq<char>>) -> Seq<Seq<char>> {
    urls.map_values(|url: Seq<char>| "- "@ + url)
}

fn push_missing(missing: &mut Vec<Link>, body: &str, more: &Vec<Link>, Ghost(before): Ghost<
    Seq<LinkView>,
>)
    requires
        old(missing).deep_view() == missing_links(body@, before),
    ensures
        final(missing).deep_view() == missing_links(body@, before + more.deep_view()),
{
    let ghost model = more.deep_view();
    let mut i: usize = 0;
    assert(before + model.take(0) == before);
    while i < more.len()
        invariant
            i <= more@.len(),
            model == more.deep_view(),
            model.len() == more@.len(),
            missing.deep_view() == missing_links(body@, before + model.take(i as int)),
        decreases more.len() - i,
    {
        let ghost next = before + model.take(i + 1);
        assert(next.drop_last() == before + model.take(i as int));
        assert(next.last() == model[i as int]);
        assert(model[i as int] == more@[i as int].deep_view());
        if !text::text_contains(body, more[i].href.as_str()) {
            links::push_link(missing, more[i].clone());
        }
        i = i + 1;
    }
    assert(model.take(i as int) == model);
}

fn find_missing_links(body: &str, post: &Post) -> (out: Vec<Link>)
    ensures
        out.deep_view() == missing_links(body@, all_links(post.deep_view())),
{
    let mut out: Vec<Link> = Vec::new();
    assert(out.deep_view() == Seq::<LinkView>::empty());
    push_missing(&mut out, body, &post.links, Ghost(Seq::empty()));
    assert(Seq::<LinkView>::empty() + post.links.deep_view() == post.links.deep_view());
    match &post.article {
        Some(article) => {
            push_missing(&mut out, body, &article.links, Ghost(post.links.deep_view()));
        },
        None => {
            assert(all_links(post.deep_view()) == post.links.deep_view());
        },
    }
    out
}

fn write_links(all: &Vec<Link>) -> (out: String)
    ensures
        out@ == text::join(link_lines(all.deep_view()), "\n"@),
{
    let ghost wanted = link_lines(all.deep_view());
    let mut lines: Vec<String> = Vec::new();
    assert(lines.deep_view() == wanted.take(0));
    let mut i: usize = 0;
    while i < all.len()
        invariant
            i <= all@.len(),
            wanted == link_lines(all.deep_view()),
            lines.deep_view() == wanted.take(i as int),
        decreases all.len() - i,
    {
        assert(all.deep_view()[i as int] == all@[i as int].deep_view());
        let link = &all[i];
        let label = if text::blank(link.text.as_str()) {
            link.href.as_str()
        } else {
            link.text.as_str()
        };
        let label = escape_markdown(label);
        let ghost before = lines.deep_view();
        text::push_line(
            &mut lines,
            text::cat5("- [", label.as_str(), "](", link.href.as_str(), ")"),
        );
        assert(lines.deep_view() == before.push(wanted[i as int]));
        i = i + 1;
    }
    assert(wanted.take(i as int) == wanted);
    text::join_strings(lines.as_slice(), "\n")
}

fn write_descriptions(media: &Vec<Media>) -> (out: Vec<String>)
    ensures
        out.deep_view() == description_lines(media.deep_view()),
{
    let ghost model = media.deep_view();
    let mut out: Vec<String> = Vec::new();
    assert(out.deep_view() == Seq::<Seq<char>>::empty());
    let mut i: usize = 0;
    while i < media.len()
        invariant
            i <= media@.len(),
            model == media.deep_view(),
            model.len() == media@.len(),
            out.deep_view() == description_lines(model.take(i as int)),
        decreases media.len() - i,
    {
        assert(model.take(i + 1).drop_last() == model.take(i as int));
        assert(model[i as int] == media@[i as int].deep_view());
        if let Some(alt) = &media[i].alt_text {
            if !text::blank(alt.as_str()) {
                text::push_line(&mut out, text::cat2("- Media description: ", alt.as_str()));
            }
        }
        i = i + 1;
    }
    assert(model.take(i as int) == model);
    out
}

fn write_urls(urls: &Vec<String>) -> (out: String)
    ensures
        out@ == text::join(url_lines(urls.deep_view()), "\n"@),
{
    let ghost wanted = url_lines(urls.deep_view());
    let mut lines: Vec<String> = Vec::new();
    assert(lines.deep_view() == wanted.take(0));
    let mut i: usize = 0;
    while i < urls.len()
        invariant
            i <= urls@.len(),
            wanted == url_lines(urls.deep_view()),
            lines.deep_view() == wanted.take(i as int),
        decreases urls.len() - i,
    {
        assert(urls.deep_view()[i as int] == urls@[i as int]@);
        let ghost before = lines.deep_view();
        text::push_line(&mut lines, text::cat2("- ", urls[i].as_str()));
        assert(lines.deep_view() == before.push(wanted[i as int]));
        i = i + 1;
    }
    assert(wanted.take(i as int) == wanted);
    text::join_strings(lines.as_slice(), "\n")
}

// ----------------------------------------------------------------------
// A post

/// The blocks of a post without its provenance: the body, the links that do not
/// stand in it, the descriptions of the media, and the best MP4 of every video.
/// The URLs of its images are left out.
pub open spec fn content_blocks(post: PostView) -> Seq<Seq<char>> {
    let body = body_markdown(post);
    let missing = missing_links(body, all_links(post));
    let descriptions = description_lines(post.media);
    let urls = video::add_media_urls(Seq::empty(), post.media, VideoQuality::Best);
    let linked = if missing.len() == 0 {
        seq![body]
    } else {
        seq![body].push("### Links\n\n"@ + text::join(link_lines(missing), "\n"@))
    };
    let described = if descriptions.len() == 0 {
        linked
    } else {
        linked.push(text::join(descriptions, "\n"@))
    };
    if urls.len() == 0 {
        described
    } else {
        described.push("### Videos\n\n"@ + text::join(url_lines(urls), "\n"@))
    }
}

/// Where a post comes from, as the last of its blocks.
pub open spec fn provenance(post: PostView) -> Option<Seq<char>> {
    let label = label_of(post);
    match post.url {
        Some(url) => Some("_["@ + label + "]("@ + url + ")_"@),
        None => if label.len() == 0 {
            None
        } else {
            Some("_"@ + label + "_"@)
        },
    }
}

/// A post, with its provenance or without.
pub open spec fn post_markdown(post: PostView, include_provenance: bool) -> Seq<char> {
    let blocks = content_blocks(post);
    text::join(
        if include_provenance {
            text::with_text(blocks, provenance(post))
        } else {
            blocks
        },
        "\n\n"@,
    )
}

fn write_content(post: &Post) -> (out: Vec<String>)
    ensures
        out.deep_view() == content_blocks(post.deep_view()),
{
    let body = markdown_body(post);
    let missing = find_missing_links(body.as_str(), post);
    let descriptions = write_descriptions(&post.media);
    let urls = post.own_video_urls(VideoQuality::Best);
    assert(missing@.len() == missing.deep_view().len());
    assert(descriptions@.len() == descriptions.deep_view().len());
    assert(urls@.len() == urls.deep_view().len());
    let mut blocks: Vec<String> = Vec::new();
    let ghost start = body@;
    text::push_line(&mut blocks, body);
    assert(blocks.deep_view() == seq![start]);
    if missing.len() > 0 {
        text::push_line(
            &mut blocks,
            text::cat2("### Links\n\n", write_links(&missing).as_str()),
        );
    }
    if descriptions.len() > 0 {
        text::push_line(&mut blocks, text::join_strings(descriptions.as_slice(), "\n"));
    }
    if urls.len() > 0 {
        text::push_line(&mut blocks, text::cat2("### Videos\n\n", write_urls(&urls).as_str()));
    }
    blocks
}

fn write_provenance(post: &Post) -> (out: Option<String>)
    ensures
        out.deep_view() == provenance(post.deep_view()),
{
    let label = write_label(post);
    match &post.url {
        Some(url) => Some(text::cat5("_[", label.as_str(), "](", url.as_str(), ")_")),
        None => {
            if label.as_str().is_empty() {
                None
            } else {
                Some(text::cat3("_", label.as_str(), "_"))
            }
        },
    }
}

/// Writes a post, with its provenance or without.
pub fn markdown_post(post: &Post, include_provenance: bool) -> (out: String)
    ensures
        out@ == post_markdown(post.deep_view(), include_provenance),
{
    let mut blocks = write_content(post);
    if include_provenance {
        text::push_text(&mut blocks, write_provenance(post));
    }
    text::join_strings(blocks.as_slice(), "\n\n")
}

// ----------------------------------------------------------------------
// A result

/// A reply under its heading.
pub open spec fn reply_markdown(reply: PostView) -> Seq<char> {
    let label = label_of(reply);
    let heading = match reply.url {
        Some(url) => "### ["@ + label + "]("@ + url + ")"@,
        None => "### "@ + label,
    };
    heading + "\n\n"@ + post_markdown(reply, false)
}

/// `blocks` with the replies.
pub open spec fn add_replies(blocks: Seq<Seq<char>>, replies: Seq<PostView>) -> Seq<Seq<char>>
    decreases replies.len(),
{
    if replies.len() == 0 {
        blocks
    } else {
        add_replies(blocks, replies.drop_last()).push(reply_markdown(replies.last()))
    }
}

/// The replies of a result, with a note where they could not be had.
pub open spec fn replies_markdown(info: ReplyInfoView, replies: Seq<PostView>) -> Seq<char> {
    let heading = seq![
        "## Replies ("@ + text::decimal(replies.len()) + " shown"@ + render::partial_note(info)
            + ")"@,
    ];
    let started = if replies.len() == 0 {
        heading.push("No visible replies were returned."@)
    } else {
        heading
    };
    let all = add_replies(started, replies);
    text::join(
        if info.error is Some {
            all.push("> Note: replies were unavailable from the free upstream source."@)
        } else {
            all
        },
        "\n\n"@,
    )
}

/// The sections of a result: the post, what it quotes and reposts, the replies,
/// and a note where the content may be incomplete.
pub open spec fn markdown_sections(result: ResultView) -> Seq<Seq<char>> {
    let own = seq![post_markdown(result.post, true)];
    let with_quoted = match result.post.quoted_post {
        Some(post) => own.push("## Quoted post\n\n"@ + quoted(post_markdown(*post, true))),
        None => own,
    };
    let with_reposted = match result.post.reposted_post {
        Some(post) => with_quoted.push(
            "## Reposted content\n\n"@ + quoted(post_markdown(*post, true)),
        ),
        None => with_quoted,
    };
    let with_replies = match result.reply_info {
        Some(info) => with_reposted.push(replies_markdown(info, result.replies)),
        None => with_reposted,
    };
    if result.post.source == "x-oembed"@ {
        with_replies.push(
            "> Note: the structured source was unavailable; oEmbed fallback content may be incomplete."@,
        )
    } else {
        with_replies
    }
}

/// A result as Markdown.
pub open spec fn markdown_view(result: ResultView) -> Seq<char> {
    text::join(text::drop_blank(markdown_sections(result)), "\n\n"@)
}

fn write_reply(reply: &Post) -> (out: String)
    ensures
        out@ == reply_markdown(reply.deep_view()),
{
    let label = write_label(reply);
    let heading = match &reply.url {
        Some(url) => text::cat5("### [", label.as_str(), "](", url.as_str(), ")"),
        None => text::cat2("### ", label.as_str()),
    };
    text::cat3(heading.as_str(), "\n\n", markdown_post(reply, false).as_str())
}

fn write_replies(info: &ReplyInfo, replies: &Vec<Post>) -> (out: String)
    ensures
        out@ == replies_markdown(info.deep_view(), replies.deep_view()),
{
    let ghost model = replies.deep_view();
    assert(model.len() == replies@.len());
    let count = text::number_text(replies.len() as u64);
    let heading = text::cat5("## Replies (", count.as_str(), " shown", render::partial(info), ")");
    let mut blocks: Vec<String> = Vec::new();
    let ghost first = heading@;
    text::push_line(&mut blocks, heading);
    assert(blocks.deep_view() == seq![first]);
    if replies.len() == 0 {
        text::push_line(&mut blocks, "No visible replies were returned.".to_owned());
    }
    let ghost start = blocks.deep_view();
    let mut i: usize = 0;
    while i < replies.len()
        invariant
            i <= replies@.len(),
            model == replies.deep_view(),
            model.len() == replies@.len(),
            blocks.deep_view() == add_replies(start, model.take(i as int)),
        decreases replies.len() - i,
    {
        assert(model.take(i + 1).drop_last() == model.take(i as int));
        assert(model[i as int] == replies@[i as int].deep_view());
        text::push_line(&mut blocks, write_reply(&replies[i]));
        i = i + 1;
    }
    assert(model.take(i as int) == model);
    if info.error.is_some() {
        text::push_line(
            &mut blocks,
            "> Note: replies were unavailable from the free upstream source.".to_owned(),
        );
    }
    text::join_strings(blocks.as_slice(), "\n\n")
}

/// Compact Markdown intended to be piped directly into an LLM context.
pub fn render_markdown(result: &ReadResult) -> (out: String)
    ensures
        out@ == markdown_view(result.deep_view()),
{
    let mut sections: Vec<String> = Vec::new();
    text::push_line(&mut sections, markdown_post(&result.post, true));
    assert(sections.deep_view() == seq![post_markdown(result.post.deep_view(), true)]);
    if let Some(post) = &result.post.quoted_post {
        let body = markdown_quote(markdown_post(post, true).as_str());
        text::push_line(&mut sections, text::cat2("## Quoted post\n\n", body.as_str()));
    }
    if let Some(post) = &result.post.reposted_post {
        let body = markdown_quote(markdown_post(post, true).as_str());
        text::push_line(&mut sections, text::cat2("## Reposted content\n\n", body.as_str()));
    }
    if let Some(info) = &result.reply_info {
        text::push_line(&mut sections, write_replies(info, &result.replies));
    }
    if text::same(result.post.source.as_str(), "x-oembed") {
        text::push_line(
            &mut sections,
            "> Note: the structured source was unavailable; oEmbed fallback content may be incomplete.".to_owned(),
        );
    }
    let filled = text::without_blank(sections.as_slice());
    text::join_strings(filled.as_slice(), "\n\n")
}

// ----------------------------------------------------------------------
// Laws

/// Text without brackets stays as it is, and a bracket gets a backslash in front
/// of it.
pub proof fn law_brackets_are_escaped(value: Seq<char>)
    requires
        forall|i: int| 0 <= i < value.len() ==> #[trigger] value[i] != '[' && value[i] != ']',
    ensures
        escaped(value) == value,
        escaped(seq!['['] + value + seq![']']) == seq!['\\', '['] + value + seq!['\\', ']'],
{
    let none = Seq::<char>::empty();
    let open = seq!['['];
    let close = seq![']'];
    reveal_strlit("[");
    reveal_strlit("]");
    reveal_strlit("\\[");
    reveal_strlit("\\]");
    assert("["@ == open && "]"@ == close);
    assert("\\["@ == seq!['\\', '[']);
    assert("\\]"@ == seq!['\\', ']']);
    text::law_replacing(value, '[', none, "\\["@);
    text::law_replacing(value, ']', none, "\\]"@);
    let rest = value + close;
    text::law_replacing(none, '[', rest, "\\["@);
    assert(none + open + rest == open + value + close);
    text::law_replacing(rest, '[', none, "\\["@);
    let once = "\\["@ + rest;
    assert(none + "\\["@ + rest == once);
    let front = "\\["@ + value;
    text::law_replacing(front, ']', none, "\\]"@);
    assert(front + close + none == once);
    text::law_replacing(none, ']', none, "\\]"@);
    assert(front + "\\]"@ + none == front + "\\]"@);
}

/// An author is called by name and user name, else by the one that is known.
pub proof fn law_authors_are_called(author: AuthorView, name: Seq<char>, username: Seq<char>)
    requires
        forall|i: int| 0 <= i < name.len() ==> #[trigger] name[i] != '[' && name[i] != ']',
    ensures
        author.name == Some(name) && author.username == Some(username) ==> author_markdown(author)
            == name + " (@"@ + username + ")"@,
        author.name == Some(name) && author.username is None ==> author_markdown(author) == name,
        author.name is None && author.username == Some(username) ==> author_markdown(author) == "@"@
            + username,
        author.name is None && author.username is None ==> author_markdown(author)
            == "unknown author"@,
{
    law_brackets_are_escaped(name);
}

} // verus!
