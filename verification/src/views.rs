//! What the views of a result promise.

use vstd::prelude::*;

use crate::human;
use crate::markdown;
use crate::model::ArticleView;
use crate::model::MediaView;
use crate::model::PostView;
use crate::model::ReplyInfoView;
use crate::model::ResultView;
use crate::model::VideoQuality;
use crate::render;
use crate::text;
use crate::video;

verus! {

// ----------------------------------------------------------------------
// What is kept

/// Whether a text stands in a view, unless it is blank.
pub open spec fn holds(view: Seq<char>, value: Seq<char>) -> bool {
    !text::is_blank(value) ==> text::contains(view, value)
}

proof fn lemma_titled(title: Seq<char>, body: Seq<char>)
    requires
        title.len() > 0,
        !text::is_whitespace(title[0]),
    ensures
        !text::is_blank(title + body),
        text::contains(title + body, body),
{
    assert((title + body)[0] == title[0]);
    text::lemma_ink(title + body, 0);
    text::lemma_contains_middle(title, body, Seq::empty());
}

proof fn lemma_plain_reply(lines: Seq<Seq<char>>, replies: Seq<PostView>, i: int)
    requires
        0 <= i < replies.len(),
    ensures
        render::add_plain_replies(lines, replies).len() == lines.len() + replies.len(),
        render::add_plain_replies(lines, replies)[lines.len() + i] == render::author_text(
            replies[i].author,
        ) + ":\n"@ + render::body_text(replies[i]),
        lines.len() > 0 ==> render::add_plain_replies(lines, replies)[0] == lines[0],
    decreases replies.len(),
{
    let rest = replies.drop_last();
    if rest.len() > 0 {
        lemma_plain_reply(lines, rest, if i < rest.len() {
            i
        } else {
            0
        });
    } else {
        assert(render::add_plain_replies(lines, rest) == lines);
    }
}

/// The plain text holds the body of the post, of the posts that it quotes and
/// reposts, and of every reply.
pub proof fn law_text_keeps_the_bodies(result: ResultView)
    ensures
        holds(render::text_view(result), render::body_text(result.post)),
        result.post.quoted_post matches Some(post) ==> text::contains(
            render::text_view(result),
            render::body_text(*post),
        ),
        result.post.reposted_post matches Some(post) ==> text::contains(
            render::text_view(result),
            render::body_text(*post),
        ),
        result.reply_info is Some ==> forall|i: int|
            0 <= i < result.replies.len() ==> text::contains(
                render::text_view(result),
                render::body_text(#[trigger] result.replies[i]),
            ),
{
    let sections = render::plain_sections(result);
    let view = render::text_view(result);
    let sep = "\n\n"@;
    if !text::is_blank(render::body_text(result.post)) {
        assert(sections[0] == render::body_text(result.post));
        text::lemma_sections_contain(sections, sep, 0);
    }
    if let Some(post) = result.post.quoted_post {
        let section = "Quoted post:\n"@ + render::body_text(*post);
        reveal_strlit("Quoted post:\n");
        lemma_titled("Quoted post:\n"@, render::body_text(*post));
        assert(sections[1] == section);
        text::lemma_sections_contain(sections, sep, 1);
        text::lemma_contains_through(view, section, render::body_text(*post));
    }
    if let Some(post) = result.post.reposted_post {
        let section = "Reposted content:\n"@ + render::body_text(*post);
        let at = if result.post.quoted_post is Some {
            2int
        } else {
            1int
        };
        reveal_strlit("Reposted content:\n");
        lemma_titled("Reposted content:\n"@, render::body_text(*post));
        assert(sections[at] == section);
        text::lemma_sections_contain(sections, sep, at);
        text::lemma_contains_through(view, section, render::body_text(*post));
    }
    if let Some(info) = result.reply_info {
        let section = render::plain_replies(info, result.replies);
        let heading = "Replies ("@ + text::decimal(result.replies.len()) + " shown"@
            + render::partial_note(info) + "):"@;
        let lines = render::add_plain_replies(seq![heading], result.replies);
        assert forall|i: int| 0 <= i < result.replies.len() implies text::contains(
            view,
            render::body_text(#[trigger] result.replies[i]),
        ) by {
            let body = render::body_text(result.replies[i]);
            lemma_plain_reply(seq![heading], result.replies, i);
            text::lemma_join_contains(lines, sep, 1 + i);
            let front = render::author_text(result.replies[i].author) + ":\n"@;
            text::lemma_contains_middle(front, body, Seq::empty());
            text::lemma_contains_through(section, front + body, body);
            text::lemma_join_contains(lines, sep, 0);
            reveal_strlit("Replies (");
            assert(heading[0] == 'R');
            lemma_blank_inside(section, heading);
            let last = sections.len() - 1;
            assert(sections[last] == section);
            text::lemma_sections_contain(sections, sep, last);
            text::lemma_contains_through(view, section, body);
        }
    }
}

/// Every reply stands in the plain text, behind its author.
pub proof fn lemma_plain_reply_is_shown(result: ResultView, at: int)
    requires
        result.reply_info is Some,
        0 <= at < result.replies.len(),
    ensures
        text::contains(
            render::text_view(result),
            render::author_text(result.replies[at].author) + ":\n"@ + render::body_text(
                result.replies[at],
            ),
        ),
{
    let info = result.reply_info->0;
    let sections = render::plain_sections(result);
    let section = render::plain_replies(info, result.replies);
    let heading = "Replies ("@ + text::decimal(result.replies.len()) + " shown"@
        + render::partial_note(info) + "):"@;
    let lines = render::add_plain_replies(seq![heading], result.replies);
    lemma_plain_reply(seq![heading], result.replies, at);
    text::lemma_join_contains(lines, "\n\n"@, 1 + at);
    text::lemma_join_contains(lines, "\n\n"@, 0);
    reveal_strlit("Replies (");
    assert(heading[0] == 'R');
    lemma_blank_inside(section, heading);
    let last = sections.len() - 1;
    assert(sections[last] == section);
    text::lemma_sections_contain(sections, "\n\n"@, last);
    text::lemma_contains_through(render::text_view(result), section, lines[1 + at]);
}

pub proof fn lemma_blank_inside(whole: Seq<char>, part: Seq<char>)
    requires
        text::contains(whole, part),
        part.len() > 0,
        !text::is_whitespace(part[0]),
    ensures
        !text::is_blank(whole),
{
    let at = choose|at: int| text::occurs_at(whole, part, at);
    assert(whole.subrange(at, at + part.len())[0] == whole[at]);
    text::lemma_ink(whole, at);
}

proof fn lemma_markdown_reply(blocks: Seq<Seq<char>>, replies: Seq<PostView>, i: int)
    requires
        0 <= i < replies.len(),
    ensures
        markdown::add_replies(blocks, replies).len() == blocks.len() + replies.len(),
        markdown::add_replies(blocks, replies)[blocks.len() + i] == markdown::reply_markdown(
            replies[i],
        ),
        blocks.len() > 0 ==> markdown::add_replies(blocks, replies)[0] == blocks[0],
    decreases replies.len(),
{
    let rest = replies.drop_last();
    if rest.len() > 0 {
        lemma_markdown_reply(blocks, rest, if i < rest.len() {
            i
        } else {
            0
        });
    } else {
        assert(markdown::add_replies(blocks, rest) == blocks);
    }
}

/// The Markdown holds the post, the posts that it quotes and reposts, and every
/// reply.
pub proof fn law_markdown_keeps_the_content(result: ResultView)
    ensures
        holds(markdown::markdown_view(result), markdown::post_markdown(result.post, true)),
        result.post.quoted_post matches Some(post) ==> text::contains(
            markdown::markdown_view(result),
            markdown::quoted(markdown::post_markdown(*post, true)),
        ),
        result.post.reposted_post matches Some(post) ==> text::contains(
            markdown::markdown_view(result),
            markdown::quoted(markdown::post_markdown(*post, true)),
        ),
        result.reply_info is Some ==> forall|i: int|
            0 <= i < result.replies.len() ==> text::contains(
                markdown::markdown_view(result),
                markdown::reply_markdown(#[trigger] result.replies[i]),
            ),
{
    let sections = markdown::markdown_sections(result);
    let view = markdown::markdown_view(result);
    let sep = "\n\n"@;
    if !text::is_blank(markdown::post_markdown(result.post, true)) {
        assert(sections[0] == markdown::post_markdown(result.post, true));
        text::lemma_sections_contain(sections, sep, 0);
    }
    if let Some(post) = result.post.quoted_post {
        let body = markdown::quoted(markdown::post_markdown(*post, true));
        let section = "## Quoted post\n\n"@ + body;
        reveal_strlit("## Quoted post\n\n");
        lemma_titled("## Quoted post\n\n"@, body);
        assert(sections[1] == section);
        text::lemma_sections_contain(sections, sep, 1);
        text::lemma_contains_through(view, section, body);
    }
    if let Some(post) = result.post.reposted_post {
        let body = markdown::quoted(markdown::post_markdown(*post, true));
        let section = "## Reposted content\n\n"@ + body;
        let at = if result.post.quoted_post is Some {
            2int
        } else {
            1int
        };
        reveal_strlit("## Reposted content\n\n");
        lemma_titled("## Reposted content\n\n"@, body);
        assert(sections[at] == section);
        text::lemma_sections_contain(sections, sep, at);
        text::lemma_contains_through(view, section, body);
    }
    if let Some(info) = result.reply_info {
        lemma_replies_section(result, info);
        let section = markdown::replies_markdown(info, result.replies);
        assert forall|i: int| 0 <= i < result.replies.len() implies text::contains(
            view,
            markdown::reply_markdown(#[trigger] result.replies[i]),
        ) by {
            let heading = seq![replies_heading(info, result.replies.len())];
            lemma_markdown_reply(heading, result.replies, i);
            let all = markdown::add_replies(heading, result.replies);
            let blocks = reply_blocks(info, result.replies);
            assert(blocks[1 + i] == all[1 + i]);
            text::lemma_join_contains(blocks, sep, 1 + i);
            text::lemma_contains_through(
                view,
                section,
                markdown::reply_markdown(result.replies[i]),
            );
        }
    }
}

spec fn replies_heading(info: ReplyInfoView, count: nat) -> Seq<char> {
    "## Replies ("@ + text::decimal(count) + " shown"@ + render::partial_note(info) + ")"@
}

spec fn reply_blocks(info: ReplyInfoView, replies: Seq<PostView>) -> Seq<Seq<char>> {
    let heading = seq![replies_heading(info, replies.len())];
    let started = if replies.len() == 0 {
        heading.push("No visible replies were returned."@)
    } else {
        heading
    };
    let all = markdown::add_replies(started, replies);
    if info.error is Some {
        all.push("> Note: replies were unavailable from the free upstream source."@)
    } else {
        all
    }
}

/// The section of the replies stands in the view, behind its heading.
proof fn lemma_replies_section(result: ResultView, info: ReplyInfoView)
    requires
        result.reply_info == Some(info),
    ensures
        text::contains(
            markdown::markdown_view(result),
            markdown::replies_markdown(info, result.replies),
        ),
        markdown::replies_markdown(info, result.replies) == text::join(
            reply_blocks(info, result.replies),
            "\n\n"@,
        ),
        reply_blocks(info, result.replies).len() > 0,
        reply_blocks(info, result.replies)[0] == replies_heading(info, result.replies.len()),
{
    let blocks = reply_blocks(info, result.replies);
    let section = markdown::replies_markdown(info, result.replies);
    let heading = replies_heading(info, result.replies.len());
    if result.replies.len() > 0 {
        lemma_markdown_reply(seq![heading], result.replies, 0);
    }
    assert(section == text::join(blocks, "\n\n"@));
    text::lemma_join_contains(blocks, "\n\n"@, 0);
    reveal_strlit("## Replies (");
    assert(heading[0] == '#');
    lemma_blank_inside(section, heading);
    let sections = markdown::markdown_sections(result);
    let at = if result.post.source == "x-oembed"@ {
        sections.len() - 2
    } else {
        sections.len() - 1
    };
    assert(sections[at] == section);
    text::lemma_sections_contain(sections, "\n\n"@, at);
}

/// Limitations that change how the content reads stay in the Markdown: that it
/// came from the fallback source, that replies could not be had, and that they
/// may not be all.
pub proof fn law_markdown_keeps_the_limitations(result: ResultView)
    ensures
        result.post.source == "x-oembed"@ ==> text::contains(
            markdown::markdown_view(result),
            "> Note: the structured source was unavailable; oEmbed fallback content may be incomplete."@,
        ),
        result.reply_info matches Some(info) ==> {
            &&& info.error is Some ==> text::contains(
                markdown::markdown_view(result),
                "> Note: replies were unavailable from the free upstream source."@,
            )
            &&& info.truncated ==> text::contains(markdown::markdown_view(result), ", partial"@)
        },
{
    let view = markdown::markdown_view(result);
    let sections = markdown::markdown_sections(result);
    if result.post.source == "x-oembed"@ {
        let note =
            "> Note: the structured source was unavailable; oEmbed fallback content may be incomplete."@;
        reveal_strlit(
            "> Note: the structured source was unavailable; oEmbed fallback content may be incomplete.",
        );
        text::lemma_ink(note, 0);
        assert(sections[sections.len() - 1] == note);
        text::lemma_sections_contain(sections, "\n\n"@, sections.len() - 1);
    }
    if let Some(info) = result.reply_info {
        lemma_replies_section(result, info);
        let section = markdown::replies_markdown(info, result.replies);
        let blocks = reply_blocks(info, result.replies);
        if info.error is Some {
            let last = blocks.len() - 1;
            text::lemma_join_contains(blocks, "\n\n"@, last);
            text::lemma_contains_through(view, section, blocks[last]);
        }
        if info.truncated {
            let heading = replies_heading(info, result.replies.len());
            text::lemma_join_contains(blocks, "\n\n"@, 0);
            text::lemma_contains_through(view, section, heading);
            text::lemma_contains_middle(
                "## Replies ("@ + text::decimal(result.replies.len()) + " shown"@,
                ", partial"@,
                ")"@,
            );
            text::lemma_contains_through(view, heading, ", partial"@);
        }
    }
}

// ----------------------------------------------------------------------
// What is left out

/// Whether two articles have the same title, cover, text and links.
pub open spec fn same_article(left: Option<ArticleView>, right: Option<ArticleView>) -> bool {
    match (left, right) {
        (Some(left), Some(right)) => {
            &&& left.title == right.title
            &&& left.cover_media_url == right.cover_media_url
            &&& left.markdown == right.markdown
            &&& left.text == right.text
            &&& left.links == right.links
        },
        (None, None) => true,
        _ => false,
    }
}

/// Whether two posts have the same content: text, article, links, media, date,
/// address and the names of the author. Counts, IDs, language, source,
/// verification, pictures and all the rest may differ.
pub open spec fn same_content(left: PostView, right: PostView) -> bool {
    &&& same_article(left.article, right.article)
    &&& left.author.name == right.author.name
    &&& left.author.username == right.author.username
    &&& left.created_at == right.created_at
    &&& left.date_label == right.date_label
    &&& left.links == right.links
    &&& left.media == right.media
    &&& left.text == right.text
    &&& left.url == right.url
}

/// `same_content` of posts that may be absent.
pub open spec fn same_inner(left: Option<Box<PostView>>, right: Option<Box<PostView>>) -> bool {
    match (left, right) {
        (Some(left), Some(right)) => same_content(*left, *right),
        (None, None) => true,
        _ => false,
    }
}

/// `same_content` of every post of two lists.
pub open spec fn same_posts(left: Seq<PostView>, right: Seq<PostView>) -> bool {
    left.len() == right.len() && forall|i: int|
        0 <= i < left.len() ==> same_content(#[trigger] left[i], right[i])
}

/// Whether two results have the same content and the same limitations: whether
/// there are replies, whether they failed, whether they may not be all, and
/// whether the post came from the fallback source.
pub open spec fn same_result(left: ResultView, right: ResultView) -> bool {
    &&& same_content(left.post, right.post)
    &&& same_inner(left.post.quoted_post, right.post.quoted_post)
    &&& same_inner(left.post.reposted_post, right.post.reposted_post)
    &&& same_posts(left.replies, right.replies)
    &&& match (left.reply_info, right.reply_info) {
        (Some(left), Some(right)) => left.truncated == right.truncated && (left.error is Some
            <==> right.error is Some),
        (None, None) => true,
        _ => false,
    }
    &&& left.post.source == "x-oembed"@ <==> right.post.source == "x-oembed"@
}

proof fn lemma_same_content(left: PostView, right: PostView)
    requires
        same_content(left, right),
    ensures
        markdown::post_markdown(left, true) == markdown::post_markdown(right, true),
        markdown::reply_markdown(left) == markdown::reply_markdown(right),
        render::body_text(left) == render::body_text(right),
        render::author_text(left.author) == render::author_text(right.author),
{
    assert(markdown::body_markdown(left) == markdown::body_markdown(right));
    assert(markdown::all_links(left) == markdown::all_links(right));
    assert(markdown::content_blocks(left) == markdown::content_blocks(right));
    assert(markdown::label_of(left) == markdown::label_of(right));
}

proof fn lemma_same_posts(
    blocks: Seq<Seq<char>>,
    lines: Seq<Seq<char>>,
    left: Seq<PostView>,
    right: Seq<PostView>,
)
    requires
        same_posts(left, right),
    ensures
        markdown::add_replies(blocks, left) == markdown::add_replies(blocks, right),
        render::add_plain_replies(lines, left) == render::add_plain_replies(lines, right),
    decreases left.len(),
{
    if left.len() > 0 {
        let last = left.len() - 1;
        assert(same_content(left[last], right[last]));
        lemma_same_content(left[last], right[last]);
        assert forall|i: int| 0 <= i < last implies same_content(
            #[trigger] left.drop_last()[i],
            right.drop_last()[i],
        ) by {
            assert(same_content(left[i], right[i]));
        }
        lemma_same_posts(blocks, lines, left.drop_last(), right.drop_last());
    }
}

/// The Markdown and the plain text show the content and its limitations, and
/// nothing else: they do not depend on warnings, counts, IDs, language, source,
/// verification or the pictures of authors, neither of the post nor of the
/// posts that it quotes and reposts, nor of the replies.
pub proof fn law_views_omit_diagnostics(left: ResultView, right: ResultView)
    requires
        same_result(left, right),
    ensures
        markdown::markdown_view(left) == markdown::markdown_view(right),
        render::text_view(left) == render::text_view(right),
{
    lemma_same_content(left.post, right.post);
    if let (Some(one), Some(other)) = (left.post.quoted_post, right.post.quoted_post) {
        lemma_same_content(*one, *other);
    }
    if let (Some(one), Some(other)) = (left.post.reposted_post, right.post.reposted_post) {
        lemma_same_content(*one, *other);
    }
    if let (Some(one), Some(other)) = (left.reply_info, right.reply_info) {
        let heading = seq![
            "## Replies ("@ + text::decimal(left.replies.len()) + " shown"@ + render::partial_note(
                one,
            ) + ")"@,
        ];
        let started = if left.replies.len() == 0 {
            heading.push("No visible replies were returned."@)
        } else {
            heading
        };
        let plain = "Replies ("@ + text::decimal(left.replies.len()) + " shown"@
            + render::partial_note(one) + "):"@;
        lemma_same_posts(started, seq![plain], left.replies, right.replies);
        assert(markdown::replies_markdown(one, left.replies) == markdown::replies_markdown(
            other,
            right.replies,
        ));
        assert(render::plain_replies(one, left.replies) == render::plain_replies(
            other,
            right.replies,
        ));
    }
    assert(markdown::markdown_sections(left) == markdown::markdown_sections(right));
    assert(render::plain_sections(left) == render::plain_sections(right));
}

/// The view for people does not depend on the warnings of a result either.
pub proof fn law_warnings_are_in_no_view(result: ResultView, warnings: Seq<Seq<char>>)
    ensures
        human::human_view(ResultView { warnings, ..result }) == human::human_view(result),
        markdown::markdown_view(ResultView { warnings, ..result }) == markdown::markdown_view(
            result,
        ),
        render::text_view(ResultView { warnings, ..result }) == render::text_view(result),
{
    let other = ResultView { warnings, ..result };
    assert(markdown::markdown_sections(other) == markdown::markdown_sections(result));
    assert(render::plain_sections(other) == render::plain_sections(result));
}

/// Whether two lists of media items differ in the addresses of their photos only.
pub open spec fn same_but_photo_urls(left: Seq<MediaView>, right: Seq<MediaView>) -> bool {
    left.len() == right.len() && forall|i: int|
        0 <= i < left.len() ==> (#[trigger] left[i] == right[i] || (render::is_photo(left[i])
            && render::is_photo(right[i]) && left[i].alt_text == right[i].alt_text))
}

proof fn lemma_photo_urls(left: Seq<MediaView>, right: Seq<MediaView>)
    requires
        same_but_photo_urls(left, right),
    ensures
        render::photos(left) == render::photos(right),
        render::videos(left) == render::videos(right),
        markdown::description_lines(left) == markdown::description_lines(right),
        video::add_media_urls(Seq::empty(), left, VideoQuality::Best) == video::add_media_urls(
            Seq::empty(),
            right,
            VideoQuality::Best,
        ),
    decreases left.len(),
{
    if left.len() > 0 {
        let last = left.len() - 1;
        assert(left[last] == right[last] || (render::is_photo(left[last]) && render::is_photo(
            right[last],
        ) && left[last].alt_text == right[last].alt_text));
        assert forall|i: int| 0 <= i < last implies (#[trigger] left.drop_last()[i]
            == right.drop_last()[i] || (render::is_photo(left.drop_last()[i]) && render::is_photo(
            right.drop_last()[i],
        ) && left.drop_last()[i].alt_text == right.drop_last()[i].alt_text)) by {
            assert(left[i] == left.drop_last()[i]);
        }
        lemma_photo_urls(left.drop_last(), right.drop_last());
        reveal_strlit("photo");
        reveal_strlit("video");
        reveal_strlit("gif");
        assert("photo"@[0] == 'p' && "video"@[0] == 'v' && "gif"@[0] == 'g');
    }
}

/// The Markdown of a post shows no address of a photo: it is the same wherever
/// the photos are.
pub proof fn law_markdown_omits_photo_urls(
    post: PostView,
    media: Seq<MediaView>,
    include_provenance: bool,
)
    requires
        same_but_photo_urls(post.media, media),
    ensures
        markdown::post_markdown(PostView { media, ..post }, include_provenance)
            == markdown::post_markdown(post, include_provenance),
{
    let other = PostView { media, ..post };
    lemma_photo_urls(post.media, media);
    assert(markdown::content_blocks(other) == markdown::content_blocks(post));
    assert(markdown::label_of(other) == markdown::label_of(post));
}

} // verus!
