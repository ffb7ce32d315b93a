//! What the view for people shows, by the parts of the result.

use vstd::prelude::*;

use crate::human;
use crate::markdown;
use crate::model::ArticleView;
use crate::model::LinkView;
use crate::model::MediaView;
use crate::model::Metrics;
use crate::model::PostView;
use crate::model::ReplyInfoView;
use crate::model::ResultView;
use crate::paragraphs;
use crate::render;
use crate::shown;
use crate::text;
use crate::views;

verus! {

// ----------------------------------------------------------------------
// Lines that stay

/// Whether every line of one list is in another.
pub open spec fn keeps(before: Seq<Seq<char>>, after: Seq<Seq<char>>) -> bool {
    forall|line: Seq<char>| #[trigger] before.contains(line) ==> after.contains(line)
}

proof fn lemma_push_keeps(lines: Seq<Seq<char>>, more: Seq<char>)
    ensures
        keeps(lines, lines.push(more)),
        lines.push(more).contains(more),
{
    shown::lemma_pushed(lines, more);
}

/// The links stay and every link has its line.
proof fn lemma_numbered(lines: Seq<Seq<char>>, links: Seq<LinkView>, at: int)
    ensures
        keeps(lines, human::add_numbered(lines, links)),
        0 <= at < links.len() ==> human::add_numbered(lines, links).contains(
            human::numbered_link((at + 1) as nat, links[at]),
        ),
    decreases links.len(),
{
    if links.len() > 0 {
        let rest = links.drop_last();
        lemma_numbered(lines, rest, at);
        if 0 <= at < rest.len() {
            assert(rest[at] == links[at]);
        }
        lemma_push_keeps(
            human::add_numbered(lines, rest),
            human::numbered_link(links.len(), links.last()),
        );
    }
}

proof fn lemma_links(lines: Seq<Seq<char>>, links: Seq<LinkView>, title: Seq<char>, at: int)
    ensures
        keeps(lines, human::with_links(lines, links, title)),
        0 <= at < links.len() ==> human::with_links(lines, links, title).contains(
            human::numbered_link((at + 1) as nat, links[at]),
        ),
{
    lemma_push_keeps(lines, ""@);
    lemma_push_keeps(lines.push(""@), title + "："@);
    lemma_numbered(lines.push(""@).push(title + "："@), links, at);
}

proof fn lemma_media_lines(lines: Seq<Seq<char>>, media: Seq<MediaView>, at: int)
    ensures
        keeps(lines, human::add_media_lines(lines, media)),
        0 <= at < media.len() ==> human::add_media_lines(lines, media).contains(
            human::media_line(media[at]),
        ),
    decreases media.len(),
{
    if media.len() > 0 {
        let rest = media.drop_last();
        lemma_media_lines(lines, rest, at);
        if 0 <= at < rest.len() {
            assert(rest[at] == media[at]);
        }
        lemma_push_keeps(human::add_media_lines(lines, rest), human::media_line(media.last()));
    }
}

proof fn lemma_media(lines: Seq<Seq<char>>, media: Seq<MediaView>, at: int)
    ensures
        keeps(lines, human::with_media(lines, media)),
        0 <= at < media.len() ==> human::with_media(lines, media).contains(
            human::media_line(media[at]),
        ),
{
    lemma_push_keeps(lines, ""@);
    lemma_push_keeps(lines.push(""@), "媒体："@);
    lemma_media_lines(lines.push(""@).push("媒体："@), media, at);
}

proof fn lemma_metrics(lines: Seq<Seq<char>>, metrics: Option<Metrics>)
    ensures
        keeps(lines, human::with_metrics(lines, metrics)),
        human::metrics_text(metrics).len() > 0 ==> human::with_metrics(lines, metrics).contains(
            human::metrics_text(metrics),
        ),
{
    lemma_push_keeps(lines, ""@);
    lemma_push_keeps(lines.push(""@), human::metrics_text(metrics));
}

/// An article has its title, its words, its cover and its links.
proof fn lemma_article(
    lines: Seq<Seq<char>>,
    article: ArticleView,
    fallback: Seq<char>,
    at: int,
)
    ensures
        keeps(lines, human::with_article(lines, article, fallback)),
        article.title matches Some(title) ==> human::with_article(
            lines,
            article,
            fallback,
        ).contains("# "@ + title),
        article.markdown.len() > 0 ==> human::with_article(lines, article, fallback).contains(
            article.markdown,
        ),
        article.cover_media_url matches Some(cover) ==> human::with_article(
            lines,
            article,
            fallback,
        ).contains("封面："@ + cover),
        0 <= at < article.links.len() ==> human::with_article(lines, article, fallback).contains(
            human::numbered_link((at + 1) as nat, article.links[at]),
        ),
{
    let titled = match article.title {
        Some(title) => lines.push("# "@ + title),
        None => lines,
    };
    if let Some(title) = article.title {
        lemma_push_keeps(lines, "# "@ + title);
    }
    let filled = if article.markdown.len() > 0 {
        titled.push(""@).push(article.markdown)
    } else if fallback.len() > 0 {
        titled.push(fallback)
    } else {
        titled
    };
    lemma_push_keeps(titled, ""@);
    lemma_push_keeps(titled.push(""@), article.markdown);
    lemma_push_keeps(titled, fallback);
    let covered = match article.cover_media_url {
        Some(cover) => filled.push(""@).push("封面："@ + cover),
        None => filled,
    };
    if let Some(cover) = article.cover_media_url {
        lemma_push_keeps(filled, ""@);
        lemma_push_keeps(filled.push(""@), "封面："@ + cover);
    }
    lemma_links(covered, article.links, "文中链接"@, at);
}

/// What stands before the content: who wrote the post, and when.
proof fn lemma_heading(post: PostView)
    ensures
        human::heading_lines(post).contains(human::date_text(post)),
        human::heading_lines(post).len() > 0,
        text::contains(human::heading_lines(post)[0], render::author_text(post.author)),
        human::heading_lines(post).contains(human::heading_lines(post)[0]),
        post.reposted_by matches Some(reposter) ==> human::heading_lines(post).contains(
            "转推者："@ + render::author_text(reposter),
        ),
{
    let author = render::author_text(post.author);
    let start = if human::badge(post).len() == 0 {
        author
    } else {
        author + " · "@ + human::badge(post)
    };
    let first = seq![start];
    shown::lemma_self(author);
    shown::lemma_two_ends(author, " · "@, human::badge(post));
    let reposted = match post.reposted_by {
        Some(reposter) => first.push("转推者："@ + render::author_text(reposter)),
        None => first,
    };
    let dated = reposted.push(human::date_text(post));
    if let Some(reposter) = post.reposted_by {
        lemma_push_keeps(first, "转推者："@ + render::author_text(reposter));
    }
    lemma_push_keeps(reposted, human::date_text(post));
    lemma_push_keeps(dated, text::repeat("─"@, 48));
    lemma_push_keeps(dated.push(text::repeat("─"@, 48)), ""@);
    assert(human::heading_lines(post)[0] == start);
}

/// The lines of a post hold its heading, its content, its links and media, what
/// it quotes and reposts, its counts, its address and its source.
proof fn lemma_post_lines(post: PostView, at: int)
    ensures
        keeps(human::heading_lines(post), human::post_lines(post)),
        post.article is None && post.text.len() > 0 ==> human::post_lines(post).contains(post.text),
        post.article matches Some(article) ==> keeps(
            human::with_article(human::heading_lines(post), article, post.text),
            human::post_lines(post),
        ),
        0 <= at < post.links.len() ==> human::post_lines(post).contains(
            human::numbered_link((at + 1) as nat, post.links[at]),
        ),
        0 <= at < post.media.len() ==> human::post_lines(post).contains(
            human::media_line(post.media[at]),
        ),
        post.quoted_post matches Some(quoted) ==> human::post_lines(post).contains(
            human::nested_text(*quoted),
        ),
        post.reposted_post matches Some(reposted) ==> human::post_lines(post).contains(
            human::nested_text(*reposted),
        ),
        human::metrics_text(post.metrics).len() > 0 ==> human::post_lines(post).contains(
            human::metrics_text(post.metrics),
        ),
        post.url matches Some(url) ==> human::post_lines(post).contains("原帖："@ + url),
        human::post_lines(post).contains("来源："@ + human::source_name(post.source)),
{
    let headed = human::heading_lines(post);
    let content = human::with_content(headed, post);
    match post.article {
        Some(article) => lemma_article(headed, article, post.text, at),
        None => lemma_push_keeps(
            headed,
            if post.text.len() == 0 {
                "（无文本正文）"@
            } else {
                post.text
            },
        ),
    }
    let linked = human::with_links(content, post.links, "链接"@);
    lemma_links(content, post.links, "链接"@, at);
    let illustrated = human::with_media(linked, post.media);
    lemma_media(linked, post.media, at);
    let with_quoted = match post.quoted_post {
        Some(quoted) => illustrated.push(""@).push("引用内容："@).push(
            human::nested_text(*quoted),
        ),
        None => illustrated,
    };
    if let Some(quoted) = post.quoted_post {
        lemma_three(illustrated, "引用内容："@, human::nested_text(*quoted));
    }
    let with_reposted = match post.reposted_post {
        Some(reposted) => with_quoted.push(""@).push("转推原文："@).push(
            human::nested_text(*reposted),
        ),
        None => with_quoted,
    };
    if let Some(reposted) = post.reposted_post {
        lemma_three(with_quoted, "转推原文："@, human::nested_text(*reposted));
    }
    let measured = human::with_metrics(with_reposted, post.metrics);
    lemma_metrics(with_reposted, post.metrics);
    let address = match post.url {
        Some(url) => url,
        None => "未知"@,
    };
    lemma_three(measured, "原帖："@ + address, "来源："@ + human::source_name(post.source));
}

proof fn lemma_three(lines: Seq<Seq<char>>, second: Seq<char>, third: Seq<char>)
    ensures
        keeps(lines, lines.push(""@).push(second).push(third)),
        lines.push(""@).push(second).push(third).contains(second),
        lines.push(""@).push(second).push(third).contains(third),
{
    lemma_push_keeps(lines, ""@);
    lemma_push_keeps(lines.push(""@), second);
    lemma_push_keeps(lines.push(""@).push(second), third);
}

// ----------------------------------------------------------------------
// One line of a text behind a mark

/// What stands before a line of a joined text and behind it.
proof fn lemma_joined_lines(parts: Seq<Seq<char>>, at: int) -> (sides: (Seq<char>, Seq<char>))
    requires
        0 <= at < parts.len(),
    ensures
        text::join(parts, "\n"@) == sides.0 + parts[at] + sides.1,
        sides.0.len() == 0 || sides.0.last() == '\n',
        sides.1.len() == 0 || sides.1[0] == '\n',
    decreases parts.len(),
{
    reveal_strlit("\n");
    let none = Seq::<char>::empty();
    if parts.len() == 1 {
        assert(none + parts[0] + none == parts[0]);
        (none, none)
    } else {
        let rest = parts.drop_last();
        let last = parts[parts.len() - 1];
        if at == parts.len() - 1 {
            let front = text::join(rest, "\n"@) + "\n"@;
            assert(front + last + none == front + last);
            assert(front.last() == "\n"@[0]);
            (front, none)
        } else {
            let (front, back) = lemma_joined_lines(rest, at);
            let behind = back + "\n"@ + last;
            shown::lemma_sum(front + parts[at], back + "\n"@, last);
            shown::lemma_sum(front + parts[at], back, "\n"@);
            if back.len() == 0 {
                assert(behind[0] == "\n"@[0]);
            } else {
                assert(behind[0] == back[0]);
            }
            (front, behind)
        }
    }
}

/// A line of a text stands behind the mark of every line.
proof fn lemma_marked(
    front: Seq<char>,
    line: Seq<char>,
    back: Seq<char>,
    mark: Seq<char>,
    alone: Seq<char>,
)
    requires
        paragraphs::is_line(line),
        front.len() == 0 || front.last() == '\n',
        back.len() == 0 || back[0] == '\n',
    ensures
        text::contains(
            text::join(
                text::prefixed(text::lines(front + line + back), mark, alone),
                "\n"@,
            ),
            mark + line,
        ),
{
    let at = paragraphs::lemma_line(front, line, back);
    let marked = text::prefixed(text::lines(front + line + back), mark, alone);
    assert(marked[at] == mark + line);
    text::lemma_join_contains(marked, "\n"@, at);
}

/// A post inside another shows its words, where they are one line, its address
/// and where its links lead.
proof fn lemma_nested(post: PostView)
    ensures
        post.article is None && paragraphs::is_line(post.text) ==> text::contains(
            human::nested_text(post),
            "│ "@ + post.text,
        ),
        post.url matches Some(url) ==> (paragraphs::is_line(url) ==> text::contains(
            human::nested_text(post),
            "│ "@ + url,
        )),
{
    let heading = seq![render::author_text(post.author) + " · "@ + human::date_text(post)];
    let titled = match post.article {
        Some(article) => match article.title {
            Some(title) => heading.push("Article："@ + title),
            None => heading,
        },
        None => heading,
    };
    let bodied = titled.push(human::body_of(post));
    let lines = human::nested_lines(post);
    lemma_push_keeps(titled, human::body_of(post));
    lemma_hrefs(bodied, post.links);
    let linked = human::add_hrefs(bodied, post.links);
    if let Some(url) = post.url {
        lemma_push_keeps(linked, url);
    }
    if post.article is None && paragraphs::is_line(post.text) {
        let i = choose|i: int| 0 <= i < lines.len() && lines[i] == post.text;
        let sides = lemma_joined_lines(lines, i);
        lemma_marked(sides.0, post.text, sides.1, "│ "@, "│ "@);
    }
    if let Some(url) = post.url {
        if paragraphs::is_line(url) {
            let i = choose|i: int| 0 <= i < lines.len() && lines[i] == url;
            let sides = lemma_joined_lines(lines, i);
            lemma_marked(sides.0, url, sides.1, "│ "@, "│ "@);
        }
    }
}

proof fn lemma_hrefs(lines: Seq<Seq<char>>, links: Seq<LinkView>)
    ensures
        keeps(lines, human::add_hrefs(lines, links)),
    decreases links.len(),
{
    if links.len() > 0 {
        lemma_hrefs(lines, links.drop_last());
        lemma_push_keeps(human::add_hrefs(lines, links.drop_last()), "链接："@ + links.last().href);
    }
}

// ----------------------------------------------------------------------
// Replies

proof fn lemma_reply_media(lines: Seq<Seq<char>>, media: Seq<MediaView>)
    ensures
        keeps(lines, human::add_reply_media(lines, media)),
    decreases media.len(),
{
    if media.len() > 0 {
        let before = human::add_reply_media(lines, media.drop_last());
        lemma_reply_media(lines, media.drop_last());
        lemma_push_keeps(
            before,
            "    媒体："@ + human::type_of_media(media.last()) + human::around(
                " "@,
                human::url_of_media(media.last()),
                ""@,
            ),
        );
    }
}

/// The line that opens a reply.
spec fn opening(number: nat, reply: PostView) -> Seq<char> {
    "["@ + text::decimal(number) + "] "@ + render::author_text(reply.author) + " · "@
        + human::date_text(reply)
}

/// A reply has its opening, its words, what it answers and its address.
proof fn lemma_with_reply(
    lines: Seq<Seq<char>>,
    info: ReplyInfoView,
    number: nat,
    reply: PostView,
)
    ensures
        keeps(lines, human::with_reply(lines, info, number, reply)),
        human::with_reply(lines, info, number, reply).contains(opening(number, reply)),
        human::with_reply(lines, info, number, reply).contains(
            human::indented(human::body_of(reply), "    "@),
        ),
        info.mode == "thread"@ ==> (reply.parent_id matches Some(parent) ==> human::with_reply(
            lines,
            info,
            number,
            reply,
        ).contains("    ↳ 回复推文 "@ + parent)),
        reply.url matches Some(url) ==> human::with_reply(lines, info, number, reply).contains(
            "    "@ + url,
        ),
{
    let body = human::indented(human::body_of(reply), "    "@);
    let started = lines.push(""@).push(opening(number, reply)).push(body);
    lemma_three(lines, opening(number, reply), body);
    let threaded = if info.mode == "thread"@ {
        match reply.parent_id {
            Some(parent) => started.push("    ↳ 回复推文 "@ + parent),
            None => started,
        }
    } else {
        started
    };
    if let Some(parent) = reply.parent_id {
        lemma_push_keeps(started, "    ↳ 回复推文 "@ + parent);
    }
    let counts = "    "@ + human::metrics_text(reply.metrics);
    let measured = if human::metrics_text(reply.metrics).len() == 0 {
        threaded
    } else {
        threaded.push(counts)
    };
    lemma_push_keeps(threaded, counts);
    lemma_reply_media(measured, reply.media);
    let illustrated = human::add_reply_media(measured, reply.media);
    if let Some(url) = reply.url {
        lemma_push_keeps(illustrated, "    "@ + url);
    }
}

proof fn lemma_add_replies(
    lines: Seq<Seq<char>>,
    info: ReplyInfoView,
    replies: Seq<PostView>,
    at: int,
)
    ensures
        keeps(lines, human::add_replies(lines, info, replies)),
        0 <= at < replies.len() ==> {
            let all = human::add_replies(lines, info, replies);
            let reply = replies[at];
            &&& all.contains(opening((at + 1) as nat, reply))
            &&& all.contains(human::indented(human::body_of(reply), "    "@))
            &&& info.mode == "thread"@ ==> (reply.parent_id matches Some(parent) ==> all.contains(
                "    ↳ 回复推文 "@ + parent,
            ))
            &&& reply.url matches Some(url) ==> all.contains("    "@ + url)
        },
    decreases replies.len(),
{
    if replies.len() > 0 {
        let rest = replies.drop_last();
        lemma_add_replies(lines, info, rest, at);
        if 0 <= at < rest.len() {
            assert(rest[at] == replies[at]);
        }
        lemma_with_reply(
            human::add_replies(lines, info, rest),
            info,
            replies.len(),
            replies.last(),
        );
    }
}

/// The lines of a result hold those of its post.
proof fn lemma_result_lines(result: ResultView) -> (lines: Seq<Seq<char>>)
    ensures
        human::human_view(result) == text::join(lines, "\n"@),
        keeps(human::post_lines(result.post), lines),
        result.reply_info matches Some(info) ==> lines == human::with_replies(
            human::post_lines(result.post),
            info,
            result.replies,
        ),
{
    let own = human::post_lines(result.post);
    match result.reply_info {
        Some(info) => {
            lemma_with_replies(own, info, result.replies, 0);
            human::with_replies(own, info, result.replies)
        },
        None => own,
    }
}

proof fn lemma_with_replies(
    lines: Seq<Seq<char>>,
    info: ReplyInfoView,
    replies: Seq<PostView>,
    at: int,
)
    ensures
        keeps(lines, human::with_replies(lines, info, replies)),
        0 <= at < replies.len() ==> {
            let all = human::with_replies(lines, info, replies);
            let reply = replies[at];
            &&& all.contains(opening((at + 1) as nat, reply))
            &&& all.contains(human::indented(human::body_of(reply), "    "@))
            &&& info.mode == "thread"@ ==> (reply.parent_id matches Some(parent) ==> all.contains(
                "    ↳ 回复推文 "@ + parent,
            ))
            &&& reply.url matches Some(url) ==> all.contains("    "@ + url)
        },
{
    let heading = human::replies_heading(info, replies.len());
    let headed = lines.push(""@).push(heading);
    lemma_push_keeps(lines, ""@);
    lemma_push_keeps(lines.push(""@), heading);
    let started = if replies.len() == 0 {
        headed.push("（没有返回可见回复）"@)
    } else {
        headed
    };
    lemma_push_keeps(headed, "（没有返回可见回复）"@);
    lemma_add_replies(started, info, replies, at);
}

// ----------------------------------------------------------------------
// Laws

/// The view for people shows who wrote the post, when, its words, and where it
/// is and comes from.
pub proof fn law_people_see_the_post(result: ResultView)
    ensures
        ({
            let view = human::human_view(result);
            let post = result.post;
            &&& post.author.username matches Some(name) ==> text::contains(view, "@"@ + name)
            &&& post.author.name matches Some(name) ==> text::contains(view, name)
            &&& post.reposted_by matches Some(reposter) ==> (reposter.username matches Some(name)
                ==> text::contains(view, "@"@ + name))
            &&& post.created_at matches Some(date) ==> text::contains(view, date)
            &&& post.created_at is None ==> (post.date_label matches Some(label)
                ==> text::contains(view, label))
            &&& post.article is None && post.text.len() > 0 ==> text::contains(view, post.text)
            &&& post.url matches Some(url) ==> text::contains(view, "原帖："@ + url)
            &&& post.source == "fxtwitter-community"@ ==> text::contains(
                view,
                "来源：FxTwitter v2（第三方免费结构化源）"@,
            )
            &&& post.source == "x-oembed"@ ==> text::contains(
                view,
                "来源：X 官方 oEmbed（免登录）"@,
            )
        }),
{
    let view = human::human_view(result);
    let post = result.post;
    let lines = lemma_result_lines(result);
    lemma_post_lines(post, 0);
    lemma_heading(post);
    let first = human::heading_lines(post)[0];
    let author = render::author_text(post.author);
    shown::lemma_author_text(post.author);
    shown::lemma_joined_contains(lines, first, author, "\n"@);
    if let Some(name) = post.author.username {
        text::lemma_contains_through(view, author, "@"@ + name);
    }
    if let Some(name) = post.author.name {
        text::lemma_contains_through(view, author, name);
    }
    if let Some(reposter) = post.reposted_by {
        let line = "转推者："@ + render::author_text(reposter);
        shown::lemma_author_text(reposter);
        shown::lemma_at_end("转推者："@, render::author_text(reposter));
        shown::lemma_joined_contains(lines, line, render::author_text(reposter), "\n"@);
        if let Some(name) = reposter.username {
            text::lemma_contains_through(view, render::author_text(reposter), "@"@ + name);
        }
    }
    lemma_line_is_shown(lines, human::date_text(post));
    if post.article is None && post.text.len() > 0 {
        lemma_line_is_shown(lines, post.text);
    }
    if let Some(url) = post.url {
        lemma_line_is_shown(lines, "原帖："@ + url);
    }
    lemma_line_is_shown(lines, "来源："@ + human::source_name(post.source));
    lemma_sources();
}

proof fn lemma_line_is_shown(lines: Seq<Seq<char>>, line: Seq<char>)
    requires
        lines.contains(line),
    ensures
        text::contains(text::join(lines, "\n"@), line),
{
    shown::lemma_self(line);
    shown::lemma_joined_contains(lines, line, line, "\n"@);
}

proof fn lemma_sources()
    ensures
        "来源："@ + human::source_name("fxtwitter-community"@)
            == "来源：FxTwitter v2（第三方免费结构化源）"@,
        "来源："@ + human::source_name("x-oembed"@) == "来源：X 官方 oEmbed（免登录）"@,
{
    reveal_strlit("来源：");
    reveal_strlit("fxtwitter-community");
    reveal_strlit("x-oembed");
    reveal_strlit("FxTwitter v2（第三方免费结构化源）");
    reveal_strlit("来源：FxTwitter v2（第三方免费结构化源）");
    reveal_strlit("X 官方 oEmbed（免登录）");
    reveal_strlit("来源：X 官方 oEmbed（免登录）");
    assert("fxtwitter-community"@.len() == 19 && "x-oembed"@.len() == 8);
}

/// The view for people shows the title, the words, the cover and the links of
/// an article.
pub proof fn law_people_see_the_article(result: ResultView, article: ArticleView, at: int)
    requires
        result.post.article == Some(article),
    ensures
        article.title matches Some(title) ==> text::contains(
            human::human_view(result),
            "# "@ + title,
        ),
        article.markdown.len() > 0 ==> text::contains(human::human_view(result), article.markdown),
        article.cover_media_url matches Some(cover) ==> text::contains(
            human::human_view(result),
            "封面："@ + cover,
        ),
        0 <= at < article.links.len() ==> text::contains(
            human::human_view(result),
            article.links[at].href,
        ),
{
    let lines = lemma_result_lines(result);
    let headed = human::heading_lines(result.post);
    lemma_post_lines(result.post, at);
    lemma_article(headed, article, result.post.text, at);
    if let Some(title) = article.title {
        lemma_line_is_shown(lines, "# "@ + title);
    }
    if article.markdown.len() > 0 {
        lemma_line_is_shown(lines, article.markdown);
    }
    if let Some(cover) = article.cover_media_url {
        lemma_line_is_shown(lines, "封面："@ + cover);
    }
    if 0 <= at < article.links.len() {
        lemma_href((at + 1) as nat, article.links[at]);
        shown::lemma_joined_contains(
            lines,
            human::numbered_link((at + 1) as nat, article.links[at]),
            article.links[at].href,
            "\n"@,
        );
    }
}

proof fn lemma_href(number: nat, link: LinkView)
    ensures
        text::contains(human::numbered_link(number, link), link.href),
{
    let label = if link.text.len() == 0 || link.text == link.href {
        ""@
    } else {
        link.text + " — "@
    };
    shown::lemma_at_end(text::decimal(number) + ". "@ + label, link.href);
}

/// The view for people shows where every link of the post leads, and every media
/// item with its URL and its description.
pub proof fn law_people_see_links_and_media(result: ResultView, at: int)
    ensures
        0 <= at < result.post.links.len() ==> text::contains(
            human::human_view(result),
            result.post.links[at].href,
        ),
        0 <= at < result.post.media.len() ==> {
            let media = result.post.media[at];
            &&& media.url matches Some(url) ==> text::contains(
                human::human_view(result),
                ": "@ + url,
            )
            &&& media.url is None ==> (media.preview_image_url matches Some(url)
                ==> text::contains(human::human_view(result), ": "@ + url))
            &&& media.alt_text matches Some(alt) ==> text::contains(
                human::human_view(result),
                "（"@ + alt + "）"@,
            )
        },
{
    let lines = lemma_result_lines(result);
    lemma_post_lines(result.post, at);
    if 0 <= at < result.post.links.len() {
        let link = result.post.links[at];
        lemma_href((at + 1) as nat, link);
        shown::lemma_joined_contains(
            lines,
            human::numbered_link((at + 1) as nat, link),
            link.href,
            "\n"@,
        );
    }
    if 0 <= at < result.post.media.len() {
        let media = result.post.media[at];
        let line = human::media_line(media);
        lemma_line_is_shown(lines, line);
        let front = "- "@ + human::type_of_media(media);
        let back = human::around("（"@, media.alt_text, "）"@);
        if let Some(url) = human::url_of_media(media) {
            reveal_strlit("");
            assert(": "@ + url + ""@ == ": "@ + url);
            text::lemma_contains_middle(front, ": "@ + url, back);
            text::lemma_contains_through(human::human_view(result), line, ": "@ + url);
        }
        if let Some(alt) = media.alt_text {
            shown::lemma_at_end(
                front + human::around(": "@, human::url_of_media(media), ""@),
                back,
            );
            text::lemma_contains_through(human::human_view(result), line, back);
        }
    }
}

/// The view for people shows every known count under its label.
pub proof fn law_people_see_the_counts(result: ResultView, metrics: Metrics, count: u64)
    requires
        result.post.metrics == Some(metrics),
    ensures
        ({
            let view = human::human_view(result);
            let shown = " "@ + render::grouped(text::decimal(count as nat));
            &&& metrics.like_count == Some(count) ==> text::contains(view, "喜欢"@ + shown)
            &&& metrics.reply_count == Some(count) ==> text::contains(view, "回复"@ + shown)
            &&& metrics.retweet_count == Some(count) ==> text::contains(view, "转帖"@ + shown)
            &&& metrics.quote_count == Some(count) ==> text::contains(view, "引用"@ + shown)
            &&& metrics.bookmark_count == Some(count) ==> text::contains(view, "书签"@ + shown)
            &&& metrics.impression_count == Some(count) ==> text::contains(view, "浏览"@ + shown)
        }),
{
    let shown = " "@ + render::grouped(text::decimal(count as nat));
    lemma_counts(metrics);
    reveal_strlit(" ");
    assert(shown[0] == " "@[0]);
    if metrics.like_count == Some(count) {
        lemma_count_is_shown(result, metrics, "喜欢"@, count);
    }
    if metrics.reply_count == Some(count) {
        lemma_count_is_shown(result, metrics, "回复"@, count);
    }
    if metrics.retweet_count == Some(count) {
        lemma_count_is_shown(result, metrics, "转帖"@, count);
    }
    if metrics.quote_count == Some(count) {
        lemma_count_is_shown(result, metrics, "引用"@, count);
    }
    if metrics.bookmark_count == Some(count) {
        lemma_count_is_shown(result, metrics, "书签"@, count);
    }
    if metrics.impression_count == Some(count) {
        lemma_count_is_shown(result, metrics, "浏览"@, count);
    }
}

/// The parts of the text of counts.
spec fn counts(metrics: Metrics) -> Seq<Seq<char>> {
    let likes = text::with_text(Seq::empty(), human::metric(metrics.like_count, "喜欢"@));
    let replies = text::with_text(likes, human::metric(metrics.reply_count, "回复"@));
    let reposts = text::with_text(replies, human::metric(metrics.retweet_count, "转帖"@));
    let quotes = text::with_text(reposts, human::metric(metrics.quote_count, "引用"@));
    let bookmarks = text::with_text(quotes, human::metric(metrics.bookmark_count, "书签"@));
    text::with_text(bookmarks, human::metric(metrics.impression_count, "浏览"@))
}

/// A list with one text more keeps what is there.
pub proof fn lemma_with_text(list: Seq<Seq<char>>, value: Option<Seq<char>>)
    ensures
        keeps(list, text::with_text(list, value)),
        value matches Some(value) ==> text::with_text(list, Some(value)).contains(value),
{
    if let Some(value) = value {
        lemma_push_keeps(list, value);
    }
}

/// Every known count is among the parts.
proof fn lemma_counts(metrics: Metrics)
    ensures
        metrics.like_count matches Some(count) ==> counts(metrics).contains(
            human::metric(Some(count), "喜欢"@)->0,
        ),
        metrics.reply_count matches Some(count) ==> counts(metrics).contains(
            human::metric(Some(count), "回复"@)->0,
        ),
        metrics.retweet_count matches Some(count) ==> counts(metrics).contains(
            human::metric(Some(count), "转帖"@)->0,
        ),
        metrics.quote_count matches Some(count) ==> counts(metrics).contains(
            human::metric(Some(count), "引用"@)->0,
        ),
        metrics.bookmark_count matches Some(count) ==> counts(metrics).contains(
            human::metric(Some(count), "书签"@)->0,
        ),
        metrics.impression_count matches Some(count) ==> counts(metrics).contains(
            human::metric(Some(count), "浏览"@)->0,
        ),
{
    let none = Seq::<Seq<char>>::empty();
    let likes = text::with_text(none, human::metric(metrics.like_count, "喜欢"@));
    lemma_with_text(none, human::metric(metrics.like_count, "喜欢"@));
    let replies = text::with_text(likes, human::metric(metrics.reply_count, "回复"@));
    lemma_with_text(likes, human::metric(metrics.reply_count, "回复"@));
    let reposts = text::with_text(replies, human::metric(metrics.retweet_count, "转帖"@));
    lemma_with_text(replies, human::metric(metrics.retweet_count, "转帖"@));
    let quotes = text::with_text(reposts, human::metric(metrics.quote_count, "引用"@));
    lemma_with_text(reposts, human::metric(metrics.quote_count, "引用"@));
    let bookmarks = text::with_text(quotes, human::metric(metrics.bookmark_count, "书签"@));
    lemma_with_text(quotes, human::metric(metrics.bookmark_count, "书签"@));
    lemma_with_text(bookmarks, human::metric(metrics.impression_count, "浏览"@));
}

/// A part of the counts is shown.
proof fn lemma_count_is_shown(result: ResultView, metrics: Metrics, label: Seq<char>, count: u64)
    requires
        result.post.metrics == Some(metrics),
        counts(metrics).contains(human::metric(Some(count), label)->0),
    ensures
        text::contains(
            human::human_view(result),
            label + (" "@ + render::grouped(text::decimal(count as nat))),
        ),
{
    let number = render::grouped(text::decimal(count as nat));
    let part = label + " "@ + number;
    let all = human::metrics_text(result.post.metrics);
    let lines = lemma_result_lines(result);
    lemma_post_lines(result.post, 0);
    assert(all == text::join(counts(metrics), " · "@));
    shown::lemma_sum(label, " "@, number);
    shown::lemma_self(part);
    shown::lemma_joined_contains(counts(metrics), part, part, " · "@);
    reveal_strlit(" ");
    assert(" "@.len() == 1);
    let at = choose|at: int| text::occurs_at(all, part, at);
    assert(all.len() > 0);
    lemma_line_is_shown(lines, all);
    text::lemma_contains_through(human::human_view(result), all, part);
}

/// The view for people shows every reply: its number, who wrote it, its words
/// where they are one line, and where it is.
pub proof fn law_people_see_every_reply(result: ResultView, info: ReplyInfoView, at: int)
    requires
        result.reply_info == Some(info),
        0 <= at < result.replies.len(),
    ensures
        ({
            let view = human::human_view(result);
            let reply = result.replies[at];
            &&& text::contains(view, "["@ + text::decimal((at + 1) as nat) + "] "@)
            &&& reply.author.username matches Some(name) ==> text::contains(view, "@"@ + name)
            &&& reply.created_at matches Some(date) ==> text::contains(view, date)
            &&& reply.article is None && paragraphs::is_line(reply.text) ==> text::contains(
                view,
                "    "@ + reply.text,
            )
            &&& info.mode == "thread"@ ==> (reply.parent_id matches Some(parent) ==> text::contains(
                view,
                "↳ 回复推文 "@ + parent,
            ))
            &&& reply.url matches Some(url) ==> text::contains(view, "    "@ + url)
        }),
{
    let view = human::human_view(result);
    let reply = result.replies[at];
    let number = (at + 1) as nat;
    let lines = lemma_result_lines(result);
    lemma_with_replies(human::post_lines(result.post), info, result.replies, at);
    lemma_opening(number, reply);
    lemma_line_is_shown(lines, opening(number, reply));
    text::lemma_contains_through(
        view,
        opening(number, reply),
        "["@ + text::decimal(number) + "] "@,
    );
    if let Some(name) = reply.author.username {
        text::lemma_contains_through(view, opening(number, reply), "@"@ + name);
    }
    text::lemma_contains_through(view, opening(number, reply), human::date_text(reply));
    let body = human::indented(human::body_of(reply), "    "@);
    lemma_line_is_shown(lines, body);
    if reply.article is None && paragraphs::is_line(reply.text) {
        let none = Seq::<char>::empty();
        assert(none + reply.text + none == reply.text);
        lemma_marked(none, reply.text, none, "    "@, "    "@);
        text::lemma_contains_through(view, body, "    "@ + reply.text);
    }
    if info.mode == "thread"@ {
        if let Some(parent) = reply.parent_id {
            let line = "    ↳ 回复推文 "@ + parent;
            lemma_line_is_shown(lines, line);
            lemma_parent(parent);
            text::lemma_contains_through(view, line, "↳ 回复推文 "@ + parent);
        }
    }
    if let Some(url) = reply.url {
        lemma_line_is_shown(lines, "    "@ + url);
    }
}

proof fn lemma_parent(parent: Seq<char>)
    ensures
        text::contains("    ↳ 回复推文 "@ + parent, "↳ 回复推文 "@ + parent),
{
    reveal_strlit("    ↳ 回复推文 ");
    reveal_strlit("↳ 回复推文 ");
    reveal_strlit("    ");
    assert("    ↳ 回复推文 "@ == "    "@ + "↳ 回复推文 "@);
    shown::lemma_sum("    "@, "↳ 回复推文 "@, parent);
    shown::lemma_at_end("    "@, "↳ 回复推文 "@ + parent);
}

/// The line that opens a reply holds its number, its author and its date.
proof fn lemma_opening(number: nat, reply: PostView)
    ensures
        text::contains(opening(number, reply), "["@ + text::decimal(number) + "] "@),
        reply.author.username matches Some(name) ==> text::contains(
            opening(number, reply),
            "@"@ + name,
        ),
        text::contains(opening(number, reply), human::date_text(reply)),
{
    let front = "["@ + text::decimal(number) + "] "@;
    let author = render::author_text(reply.author);
    let date = human::date_text(reply);
    let whole = opening(number, reply);
    shown::lemma_at_end(front + author + " · "@, date);
    shown::lemma_sum(front, author, " · "@);
    shown::lemma_sum(front, author + " · "@, date);
    shown::lemma_in_front(front, author + " · "@ + date);
    shown::lemma_sum(front + author, " · "@, date);
    text::lemma_contains_middle(front, author, " · "@ + date);
    shown::lemma_author_text(reply.author);
    if let Some(name) = reply.author.username {
        text::lemma_contains_through(whole, author, "@"@ + name);
    }
}

/// The view for people shows the words of the posts that the post quotes and
/// reposts, where they are one line, and where those posts are.
pub proof fn law_people_see_the_posts_inside(result: ResultView, inside: PostView)
    requires
        (result.post.quoted_post matches Some(post) && *post == inside) || (
        result.post.reposted_post matches Some(post) && *post == inside),
    ensures
        inside.article is None && paragraphs::is_line(inside.text) ==> text::contains(
            human::human_view(result),
            "│ "@ + inside.text,
        ),
        inside.url matches Some(url) ==> (paragraphs::is_line(url) ==> text::contains(
            human::human_view(result),
            "│ "@ + url,
        )),
{
    let view = human::human_view(result);
    let lines = lemma_result_lines(result);
    let nested = human::nested_text(inside);
    lemma_post_lines(result.post, 0);
    lemma_line_is_shown(lines, nested);
    lemma_nested(inside);
    if inside.article is None && paragraphs::is_line(inside.text) {
        text::lemma_contains_through(view, nested, "│ "@ + inside.text);
    }
    if let Some(url) = inside.url {
        if paragraphs::is_line(url) {
            text::lemma_contains_through(view, nested, "│ "@ + url);
        }
    }
}

/// Every kind of post has its own badge.
pub proof fn law_kinds_have_their_badges(post: PostView)
    ensures
        post.kind == "article"@ ==> human::badge(post) == "Article"@,
        post.kind == "long-post"@ ==> human::badge(post) == "长推文"@,
        post.kind == "quote"@ ==> human::badge(post) == "引用推文"@,
        post.kind == "repost"@ ==> human::badge(post) == "转推"@,
        post.kind == "post"@ && !post.is_long_post ==> human::badge(post).len() == 0,
{
    reveal_strlit("article");
    reveal_strlit("long-post");
    reveal_strlit("quote");
    reveal_strlit("repost");
    reveal_strlit("post");
    reveal_strlit("");
    assert("article"@.len() == 7 && "long-post"@.len() == 9 && "quote"@.len() == 5
        && "repost"@.len() == 6 && "post"@.len() == 4 && ""@.len() == 0);
}

/// The Markdown shows the words of the posts that the post quotes and reposts
/// as block quotes, where they are one line.
pub proof fn law_markdown_quotes_the_posts_inside(result: ResultView, inside: PostView)
    requires
        (result.post.quoted_post matches Some(post) && *post == inside) || (
        result.post.reposted_post matches Some(post) && *post == inside),
        inside.article is None,
        paragraphs::is_line(inside.text),
    ensures
        text::contains(markdown::markdown_view(result), "> "@ + inside.text),
{
    let view = markdown::markdown_view(result);
    let quoted = markdown::quoted(markdown::post_markdown(inside, true));
    let content = markdown::content_blocks(inside);
    let blocks = text::with_text(content, markdown::provenance(inside));
    views::law_markdown_keeps_the_content(result);
    text::lemma_ink(inside.text, 0);
    assert(blocks[0] == content[0]);
    let sides = paragraphs::lemma_joined(blocks, 0);
    lemma_marked(sides.0, inside.text, sides.1, "> "@, ">"@);
    text::lemma_contains_through(view, quoted, "> "@ + inside.text);
}

/// What is said of the replies as a whole tells whether they are direct, how
/// they are ranked, how many there are and how many are shown, and that they may
/// not be all.
pub proof fn law_people_see_what_replies_are_shown(result: ResultView, info: ReplyInfoView)
    requires
        result.reply_info == Some(info),
    ensures
        ({
            let view = human::human_view(result);
            &&& info.mode == "direct"@ ==> text::contains(view, "直接回复"@ + "（"@)
            &&& info.mode == "thread"@ ==> text::contains(view, "整段对话中的回复"@ + "（"@)
            &&& info.sort == "recent"@ ==> text::contains(view, "免费最新首批"@)
            &&& info.sort == "relevance"@ ==> text::contains(view, "免费精选首批"@)
            &&& info.available_count matches Some(count) ==> text::contains(
                view,
                "，原帖显示共 "@ + render::grouped(text::decimal(count as nat)) + " 条回复"@,
            )
            &&& text::contains(
                view,
                "，返回 "@ + text::decimal(result.replies.len()) + " 条"@,
            )
            &&& info.truncated ==> text::contains(view, "，结果可能不完整"@)
            &&& result.replies.len() == 0 ==> text::contains(view, "（没有返回可见回复）"@)
        }),
{
    let view = human::human_view(result);
    let own = human::post_lines(result.post);
    let lines = lemma_result_lines(result);
    let count = result.replies.len();
    let heading = human::replies_heading(info, count);
    let headed = own.push(""@).push(heading);
    lemma_push_keeps(own, ""@);
    lemma_push_keeps(own.push(""@), heading);
    let started = if count == 0 {
        headed.push("（没有返回可见回复）"@)
    } else {
        headed
    };
    lemma_push_keeps(headed, "（没有返回可见回复）"@);
    lemma_add_replies(started, info, result.replies, 0);
    lemma_line_is_shown(lines, heading);
    if count == 0 {
        lemma_line_is_shown(lines, "（没有返回可见回复）"@);
    }
    lemma_heading_parts(info, count, view);
}

/// The parts of what is said of replies.
proof fn lemma_heading_parts(info: ReplyInfoView, count: nat, view: Seq<char>)
    requires
        text::contains(view, human::replies_heading(info, count)),
    ensures
        info.mode == "direct"@ ==> text::contains(view, "直接回复"@ + "（"@),
        info.mode == "thread"@ ==> text::contains(view, "整段对话中的回复"@ + "（"@),
        info.sort == "recent"@ ==> text::contains(view, "免费最新首批"@),
        info.sort == "relevance"@ ==> text::contains(view, "免费精选首批"@),
        info.available_count matches Some(count) ==> text::contains(
            view,
            "，原帖显示共 "@ + render::grouped(text::decimal(count as nat)) + " 条回复"@,
        ),
        text::contains(view, "，返回 "@ + text::decimal(count) + " 条"@),
        info.truncated ==> text::contains(view, "，结果可能不完整"@),
{
    lemma_words_of_modes();
    let heading = human::replies_heading(info, count);
    let scope = if info.mode == "direct"@ {
        "直接回复"@
    } else {
        "整段对话中的回复"@
    };
    let ranking = if info.sort == "recent"@ {
        "免费最新首批"@
    } else {
        "免费精选首批"@
    };
    let range = match info.available_count {
        Some(available) => ranking + "，原帖显示共 "@ + render::grouped(
            text::decimal(available as nat),
        ) + " 条回复"@,
        None => ranking,
    };
    let incomplete = if info.truncated {
        "，结果可能不完整"@
    } else {
        ""@
    };
    let head = scope + "（"@;
    let shown = "，返回 "@ + text::decimal(count) + " 条"@;
    let front = head + range;
    let tail = incomplete + "）"@;
    shown::lemma_sum(front, "，返回 "@, text::decimal(count));
    shown::lemma_sum(front, "，返回 "@ + text::decimal(count), " 条"@);
    shown::lemma_sum(front + shown, incomplete, "）"@);
    assert(heading == front + shown + tail);
    text::lemma_contains_middle(front, shown, tail);
    shown::lemma_sum(front, shown, tail);
    text::lemma_contains_middle(head, range, shown + tail);
    shown::lemma_sum(head, range, shown + tail);
    shown::lemma_in_front(head, range + (shown + tail));
    text::lemma_contains_middle(front + shown, incomplete, "）"@);
    text::lemma_contains_through(view, heading, shown);
    text::lemma_contains_through(view, heading, range);
    text::lemma_contains_through(view, heading, head);
    text::lemma_contains_through(view, heading, incomplete);
    if let Some(available) = info.available_count {
        let number = render::grouped(text::decimal(available as nat));
        let total = "，原帖显示共 "@ + number + " 条回复"@;
        shown::lemma_sum(ranking, "，原帖显示共 "@, number);
        shown::lemma_sum(ranking, "，原帖显示共 "@ + number, " 条回复"@);
        shown::lemma_at_end(ranking, total);
        shown::lemma_in_front(ranking, total);
        text::lemma_contains_through(view, range, total);
        text::lemma_contains_through(view, range, ranking);
    }
}

proof fn lemma_words_of_modes()
    ensures
        "direct"@ != "thread"@,
        "recent"@ != "relevance"@,
{
    reveal_strlit("direct");
    reveal_strlit("thread");
    reveal_strlit("recent");
    reveal_strlit("relevance");
    assert("direct"@[0] == 'd' && "thread"@[0] == 't');
    assert("recent"@.len() == 6 && "relevance"@.len() == 9);
}

/// A post inside another begins with who wrote it and when.
pub proof fn law_posts_inside_name_their_authors(post: PostView)
    ensures
        human::nested_lines(post).len() > 0,
        post.author.username matches Some(name) ==> text::contains(
            human::nested_lines(post)[0],
            "@"@ + name,
        ),
        post.created_at matches Some(date) ==> text::contains(human::nested_lines(post)[0], date),
        post.article matches Some(article) ==> (article.title matches Some(title)
            ==> human::nested_lines(post).contains("Article："@ + title)),
        post.article matches Some(article) ==> (article.markdown.len() > 0
            ==> human::nested_lines(post).contains(article.markdown)),
{
    let author = render::author_text(post.author);
    let first = author + " · "@ + human::date_text(post);
    let heading = seq![first];
    let titled = match post.article {
        Some(article) => match article.title {
            Some(title) => heading.push("Article："@ + title),
            None => heading,
        },
        None => heading,
    };
    let bodied = titled.push(human::body_of(post));
    lemma_push_keeps(titled, human::body_of(post));
    if let Some(article) = post.article {
        if let Some(title) = article.title {
            lemma_push_keeps(heading, "Article："@ + title);
        }
    }
    lemma_hrefs(bodied, post.links);
    let linked = human::add_hrefs(bodied, post.links);
    if let Some(url) = post.url {
        lemma_push_keeps(linked, url);
    }
    lemma_first_line(bodied, post.links);
    assert(human::nested_lines(post)[0] == first);
    shown::lemma_two_ends(author, " · "@, human::date_text(post));
    shown::lemma_author_text(post.author);
    if let Some(name) = post.author.username {
        text::lemma_contains_through(first, author, "@"@ + name);
    }
}

proof fn lemma_first_line(lines: Seq<Seq<char>>, links: Seq<LinkView>)
    requires
        lines.len() > 0,
    ensures
        human::add_hrefs(lines, links).len() > 0,
        human::add_hrefs(lines, links)[0] == lines[0],
    decreases links.len(),
{
    if links.len() > 0 {
        lemma_first_line(lines, links.drop_last());
    }
}

/// A reply has its counts and its media on lines of their own.
pub proof fn law_replies_have_counts_and_media(
    lines: Seq<Seq<char>>,
    info: ReplyInfoView,
    number: nat,
    reply: PostView,
    likes: u64,
    at: int,
)
    ensures
        ({
            let all = human::with_reply(lines, info, number, reply);
            &&& reply.metrics matches Some(metrics) ==> (metrics.like_count == Some(likes)
                ==> exists|i: int|
                0 <= i < all.len() && text::contains(
                    #[trigger] all[i],
                    "喜欢"@ + (" "@ + render::grouped(text::decimal(likes as nat))),
                ))
            &&& 0 <= at < reply.media.len() ==> (reply.media[at].url matches Some(url) ==> exists|
                i: int,
            |
                0 <= i < all.len() && text::contains(#[trigger] all[i], url))
        }),
{
    let all = human::with_reply(lines, info, number, reply);
    let body = human::indented(human::body_of(reply), "    "@);
    let started = lines.push(""@).push(opening(number, reply)).push(body);
    let threaded = if info.mode == "thread"@ {
        match reply.parent_id {
            Some(parent) => started.push("    ↳ 回复推文 "@ + parent),
            None => started,
        }
    } else {
        started
    };
    let counted = human::metrics_text(reply.metrics);
    let measured = if counted.len() == 0 {
        threaded
    } else {
        threaded.push("    "@ + counted)
    };
    let illustrated = human::add_reply_media(measured, reply.media);
    lemma_push_keeps(threaded, "    "@ + counted);
    lemma_reply_media(measured, reply.media);
    if let Some(url) = reply.url {
        lemma_push_keeps(illustrated, "    "@ + url);
    }
    if let Some(metrics) = reply.metrics {
        if metrics.like_count == Some(likes) {
            let number = render::grouped(text::decimal(likes as nat));
            let part = "喜欢"@ + " "@ + number;
            lemma_counts(metrics);
            assert(counted == text::join(counts(metrics), " · "@));
            shown::lemma_sum("喜欢"@, " "@, number);
            shown::lemma_self(part);
            shown::lemma_joined_contains(counts(metrics), part, part, " · "@);
            reveal_strlit(" ");
            assert(" "@.len() == 1);
            let place = choose|place: int| text::occurs_at(counted, part, place);
            assert(counted.len() > 0);
            let line = "    "@ + counted;
            shown::lemma_at_end("    "@, counted);
            text::lemma_contains_through(line, counted, part);
            assert(all.contains(line));
            let i = choose|i: int| 0 <= i < all.len() && all[i] == line;
            assert(text::contains(all[i], part));
        }
    }
    if 0 <= at < reply.media.len() {
        if let Some(url) = reply.media[at].url {
            lemma_reply_media_line(measured, reply.media, at);
            let line = reply_media_line(reply.media[at]);
            assert(all.contains(line));
            let i = choose|i: int| 0 <= i < all.len() && all[i] == line;
            let front = "    媒体："@ + human::type_of_media(reply.media[at]);
            reveal_strlit("");
            text::lemma_contains_middle(" "@, url, ""@);
            shown::lemma_at_end(front, " "@ + url + ""@);
            text::lemma_contains_through(line, " "@ + url + ""@, url);
            assert(text::contains(all[i], url));
        }
    }
}

/// The line of a media item of a reply.
spec fn reply_media_line(media: MediaView) -> Seq<char> {
    "    媒体："@ + human::type_of_media(media) + human::around(
        " "@,
        human::url_of_media(media),
        ""@,
    )
}

proof fn lemma_reply_media_line(lines: Seq<Seq<char>>, media: Seq<MediaView>, at: int)
    requires
        0 <= at < media.len(),
    ensures
        human::add_reply_media(lines, media).contains(reply_media_line(media[at])),
    decreases media.len(),
{
    let rest = media.drop_last();
    if at < rest.len() {
        assert(rest[at] == media[at]);
        lemma_reply_media_line(lines, rest, at);
    }
    lemma_push_keeps(human::add_reply_media(lines, rest), reply_media_line(media.last()));
}

} // verus!
