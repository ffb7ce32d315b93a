//! The detailed view of a read result for people at a terminal.

use vstd::prelude::*;

use crate::model::Article;
use crate::model::ArticleView;
use crate::model::Link;
use crate::model::LinkView;
use crate::model::Media;
use crate::model::MediaView;
use crate::model::Metrics;
use crate::model::Post;
use crate::model::PostView;
use crate::model::ReadResult;
use crate::model::ReplyInfo;
use crate::model::ReplyInfoView;
use crate::model::ResultView;
use crate::render;
use crate::text;

verus! {

// ----------------------------------------------------------------------
// Pieces

/// What kind of post a post is.
pub open spec fn badge(post: PostView) -> Seq<char> {
    if post.kind == "article"@ {
        "Article"@
    } else if post.kind == "long-post"@ {
        "长推文"@
    } else if post.kind == "quote"@ {
        "引用推文"@
    } else if post.kind == "repost"@ {
        "转推"@
    } else if post.is_long_post {
        "长推文"@
    } else {
        ""@
    }
}

/// Names the kind of a post.
pub fn post_badge(post: &Post) -> (out: &'static str)
    ensures
        out@ == badge(post.deep_view()),
{
    let kind = post.kind.as_str();
    if text::same(kind, "article") {
        "Article"
    } else if text::same(kind, "long-post") {
        "长推文"
    } else if text::same(kind, "quote") {
        "引用推文"
    } else if text::same(kind, "repost") {
        "转推"
    } else if post.is_long_post {
        "长推文"
    } else {
        ""
    }
}

/// The date of a post.
pub open spec fn date_text(post: PostView) -> Seq<char> {
    match post.created_at {
        Some(date) => date,
        None => match post.date_label {
            Some(label) => label,
            None => "时间未知"@,
        },
    }
}

/// Writes the date of a post.
pub fn format_date(post: &Post) -> (out: String)
    ensures
        out@ == date_text(post.deep_view()),
{
    match &post.created_at {
        Some(date) => date.clone(),
        None => match &post.date_label {
            Some(label) => label.clone(),
            None => "时间未知".to_owned(),
        },
    }
}

/// What a source is called.
pub open spec fn source_name(source: Seq<char>) -> Seq<char> {
    if source == "fxtwitter-community"@ {
        "FxTwitter v2（第三方免费结构化源）"@
    } else if source == "x-oembed"@ {
        "X 官方 oEmbed（免登录）"@
    } else {
        source
    }
}

/// Names a source.
pub fn source_label(source: &str) -> (out: &str)
    ensures
        out@ == source_name(source@),
{
    if text::same(source, "fxtwitter-community") {
        "FxTwitter v2（第三方免费结构化源）"
    } else if text::same(source, "x-oembed") {
        "X 官方 oEmbed（免登录）"
    } else {
        source
    }
}

/// Every line of a text behind `prefix`.
pub open spec fn indented(value: Seq<char>, prefix: Seq<char>) -> Seq<char> {
    text::join(text::prefixed(text::lines(value), prefix, prefix), "\n"@)
}

/// Puts every line of a text behind `prefix`.
pub fn indent(value: &str, prefix: &str) -> (out: String)
    ensures
        out@ == indented(value@, prefix@),
{
    text::prefix_lines(value, prefix, prefix)
}

/// The URL of a media item, else of its preview.
pub open spec fn url_of_media(media: MediaView) -> Option<Seq<char>> {
    match media.url {
        Some(url) => Some(url),
        None => media.preview_image_url,
    }
}

/// The URL of a media item, else of its preview.
pub fn media_url(media: &Media) -> (out: Option<&str>)
    ensures
        out.deep_view() == url_of_media(media.deep_view()),
{
    match &media.url {
        Some(url) => Some(url.as_str()),
        None => match &media.preview_image_url {
            Some(url) => Some(url.as_str()),
            None => None,
        },
    }
}

/// What a media item is.
pub open spec fn type_of_media(media: MediaView) -> Seq<char> {
    match media.media_type {
        Some(kind) => kind,
        None => "media"@,
    }
}

fn media_kind(media: &Media) -> (out: &str)
    ensures
        out@ == type_of_media(media.deep_view()),
{
    match &media.media_type {
        Some(kind) => kind.as_str(),
        None => "media",
    }
}

/// A text behind `prefix` and before `suffix`; nothing where there is none.
pub open spec fn around(prefix: Seq<char>, value: Option<Seq<char>>, suffix: Seq<char>) -> Seq<
    char,
> {
    match value {
        Some(value) => prefix + value + suffix,
        None => ""@,
    }
}

fn put_around(prefix: &str, value: Option<&str>, suffix: &str) -> (out: String)
    ensures
        out@ == around(prefix@, value.deep_view(), suffix@),
{
    match value {
        Some(value) => text::cat3(prefix, value, suffix),
        None => "".to_owned(),
    }
}

fn borrowed(value: &Option<String>) -> (out: Option<&str>)
    ensures
        out.deep_view() == value.deep_view(),
{
    match value {
        Some(value) => Some(value.as_str()),
        None => None,
    }
}

// ----------------------------------------------------------------------
// Counts

/// A count under its label, where it is known.
pub open spec fn metric(value: Option<u64>, label: Seq<char>) -> Option<Seq<char>> {
    match value {
        Some(value) => Some(label + " "@ + render::grouped(text::decimal(value as nat))),
        None => None,
    }
}

/// The known counts of a post.
pub open spec fn metrics_text(metrics: Option<Metrics>) -> Seq<char> {
    match metrics {
        Some(metrics) => {
            let likes = text::with_text(Seq::empty(), metric(metrics.like_count, "喜欢"@));
            let replies = text::with_text(likes, metric(metrics.reply_count, "回复"@));
            let reposts = text::with_text(replies, metric(metrics.retweet_count, "转帖"@));
            let quotes = text::with_text(reposts, metric(metrics.quote_count, "引用"@));
            let bookmarks = text::with_text(quotes, metric(metrics.bookmark_count, "书签"@));
            let views = text::with_text(bookmarks, metric(metrics.impression_count, "浏览"@));
            text::join(views, " · "@)
        },
        None => ""@,
    }
}

fn write_metric(value: Option<u64>, label: &str) -> (out: Option<String>)
    ensures
        out.deep_view() == metric(value, label@),
{
    match value {
        Some(value) => Some(text::cat3(label, " ", render::format_number(value).as_str())),
        None => None,
    }
}

/// Writes the known counts of a post.
pub fn compact_metrics(metrics: &Option<Metrics>) -> (out: String)
    ensures
        out@ == metrics_text(*metrics),
{
    match metrics {
        Some(metrics) => {
            let mut parts: Vec<String> = Vec::new();
            assert(parts.deep_view() == Seq::<Seq<char>>::empty());
            text::push_text(&mut parts, write_metric(metrics.like_count, "喜欢"));
            text::push_text(&mut parts, write_metric(metrics.reply_count, "回复"));
            text::push_text(&mut parts, write_metric(metrics.retweet_count, "转帖"));
            text::push_text(&mut parts, write_metric(metrics.quote_count, "引用"));
            text::push_text(&mut parts, write_metric(metrics.bookmark_count, "书签"));
            text::push_text(&mut parts, write_metric(metrics.impression_count, "浏览"));
            text::join_strings(parts.as_slice(), " · ")
        },
        None => "".to_owned(),
    }
}

// ----------------------------------------------------------------------
// Links and media

/// A link under its number.
pub open spec fn numbered_link(number: nat, link: LinkView) -> Seq<char> {
    let label = if link.text.len() == 0 || link.text == link.href {
        ""@
    } else {
        link.text + " — "@
    };
    text::decimal(number) + ". "@ + label + link.href
}

/// `lines` with the links, numbered from one.
pub open spec fn add_numbered(lines: Seq<Seq<char>>, links: Seq<LinkView>) -> Seq<Seq<char>>
    decreases links.len(),
{
    if links.len() == 0 {
        lines
    } else {
        add_numbered(lines, links.drop_last()).push(numbered_link(links.len(), links.last()))
    }
}

/// `lines` with the links under a title, where there are links.
pub open spec fn with_links(
    lines: Seq<Seq<char>>,
    links: Seq<LinkView>,
    title: Seq<char>,
) -> Seq<Seq<char>> {
    if links.len() == 0 {
        lines
    } else {
        add_numbered(lines.push(""@).push(title + "："@), links)
    }
}

/// Adds links under a title.
pub fn append_links(lines: &mut Vec<String>, links: &Vec<Link>, title: &str)
    ensures
        final(lines).deep_view() == with_links(
            old(lines).deep_view(),
            links.deep_view(),
            title@,
        ),
{
    let ghost model = links.deep_view();
    assert(model.len() == links@.len());
    let total: usize = links.len();
    if total == 0 {
        return;
    }
    text::push_line(lines, "".to_owned());
    text::push_line(lines, text::cat2(title, "："));
    let ghost start = lines.deep_view();
    let mut i: usize = 0;
    while i < total
        invariant
            i <= total,
            total == links@.len(),
            model == links.deep_view(),
            model.len() == links@.len(),
            lines.deep_view() == add_numbered(start, model.take(i as int)),
        decreases total - i,
    {
        assert(model.take(i + 1).drop_last() == model.take(i as int));
        assert(model[i as int] == links@[i as int].deep_view());
        let link = &links[i];
        let label = if link.text.as_str().is_empty() || text::same(
            link.text.as_str(),
            link.href.as_str(),
        ) {
            "".to_owned()
        } else {
            text::cat2(link.text.as_str(), " — ")
        };
        let number = text::number_text((i + 1) as u64);
        text::push_line(
            lines,
            text::cat4(number.as_str(), ". ", label.as_str(), link.href.as_str()),
        );
        i = i + 1;
    }
    assert(model.take(i as int) == model);
}

/// A media item with its URL and its description.
pub open spec fn media_line(media: MediaView) -> Seq<char> {
    "- "@ + type_of_media(media) + around(": "@, url_of_media(media), ""@) + around(
        "（"@,
        media.alt_text,
        "）"@,
    )
}

/// `lines` with the media items.
pub open spec fn add_media_lines(lines: Seq<Seq<char>>, media: Seq<MediaView>) -> Seq<Seq<char>>
    decreases media.len(),
{
    if media.len() == 0 {
        lines
    } else {
        add_media_lines(lines, media.drop_last()).push(media_line(media.last()))
    }
}

/// `lines` with the media items under a title, where there are any.
pub open spec fn with_media(lines: Seq<Seq<char>>, media: Seq<MediaView>) -> Seq<Seq<char>> {
    if media.len() == 0 {
        lines
    } else {
        add_media_lines(lines.push(""@).push("媒体："@), media)
    }
}

/// Adds media items under a title.
pub fn append_media(lines: &mut Vec<String>, media: &Vec<Media>)
    ensures
        final(lines).deep_view() == with_media(old(lines).deep_view(), media.deep_view()),
{
    let ghost model = media.deep_view();
    assert(model.len() == media@.len());
    if media.len() == 0 {
        return;
    }
    text::push_line(lines, "".to_owned());
    text::push_line(lines, "媒体：".to_owned());
    let ghost start = lines.deep_view();
    let mut i: usize = 0;
    while i < media.len()
        invariant
            i <= media@.len(),
            model == media.deep_view(),
            model.len() == media@.len(),
            lines.deep_view() == add_media_lines(start, model.take(i as int)),
        decreases media.len() - i,
    {
        assert(model.take(i + 1).drop_last() == model.take(i as int));
        assert(model[i as int] == media@[i as int].deep_view());
        let item = &media[i];
        let url = put_around(": ", media_url(item), "");
        let alt = put_around("（", borrowed(&item.alt_text), "）");
        text::push_line(
            lines,
            text::cat4("- ", media_kind(item), url.as_str(), alt.as_str()),
        );
        i = i + 1;
    }
    assert(model.take(i as int) == model);
}

/// `lines` with the counts, where any is known.
pub open spec fn with_metrics(lines: Seq<Seq<char>>, metrics: Option<Metrics>) -> Seq<Seq<char>> {
    if metrics_text(metrics).len() == 0 {
        lines
    } else {
        lines.push(""@).push(metrics_text(metrics))
    }
}

/// Adds the counts.
pub fn append_metrics(lines: &mut Vec<String>, metrics: &Option<Metrics>)
    ensures
        final(lines).deep_view() == with_metrics(old(lines).deep_view(), *metrics),
{
    let counts = compact_metrics(metrics);
    if !counts.as_str().is_empty() {
        text::push_line(lines, "".to_owned());
        text::push_line(lines, counts);
    }
}

// ----------------------------------------------------------------------
// Posts

/// `lines` with an article, where `fallback` stands in for an empty body.
pub open spec fn with_article(
    lines: Seq<Seq<char>>,
    article: ArticleView,
    fallback: Seq<char>,
) -> Seq<Seq<char>> {
    let titled = match article.title {
        Some(title) => lines.push("# "@ + title),
        None => lines,
    };
    let filled = if article.markdown.len() > 0 {
        titled.push(""@).push(article.markdown)
    } else if fallback.len() > 0 {
        titled.push(fallback)
    } else {
        titled
    };
    let covered = match article.cover_media_url {
        Some(cover) => filled.push(""@).push("封面："@ + cover),
        None => filled,
    };
    with_links(covered, article.links, "文中链接"@)
}

/// `lines` with the content of a post.
pub open spec fn with_content(lines: Seq<Seq<char>>, post: PostView) -> Seq<Seq<char>> {
    match post.article {
        Some(article) => with_article(lines, article, post.text),
        None => lines.push(
            if post.text.len() == 0 {
                "（无文本正文）"@
            } else {
                post.text
            },
        ),
    }
}

fn append_article(lines: &mut Vec<String>, article: &Article, fallback: &str)
    ensures
        final(lines).deep_view() == with_article(
            old(lines).deep_view(),
            article.deep_view(),
            fallback@,
        ),
{
    if let Some(title) = &article.title {
        text::push_line(lines, text::cat2("# ", title.as_str()));
    }
    if !article.markdown.as_str().is_empty() {
        text::push_line(lines, "".to_owned());
        text::push_line(lines, article.markdown.clone());
    } else if !fallback.is_empty() {
        text::push_line(lines, fallback.to_owned());
    }
    if let Some(cover) = &article.cover_media_url {
        text::push_line(lines, "".to_owned());
        text::push_line(lines, text::cat2("封面：", cover.as_str()));
    }
    append_links(lines, &article.links, "文中链接");
}

/// Adds the content of a post.
pub fn append_post_content(lines: &mut Vec<String>, post: &Post)
    ensures
        final(lines).deep_view() == with_content(old(lines).deep_view(), post.deep_view()),
{
    match &post.article {
        Some(article) => {
            append_article(lines, article, post.text.as_str());
        },
        None => {
            text::push_line(
                lines,
                if post.text.as_str().is_empty() {
                    "（无文本正文）".to_owned()
                } else {
                    post.text.clone()
                },
            );
        },
    }
}

/// The body of a post: its article's, else its text.
pub open spec fn body_of(post: PostView) -> Seq<char> {
    let own = if post.text.len() > 0 {
        post.text
    } else {
        "（无文本正文）"@
    };
    match post.article {
        Some(article) => if article.markdown.len() > 0 {
            article.markdown
        } else {
            own
        },
        None => own,
    }
}

fn write_body(post: &Post) -> (out: &str)
    ensures
        out@ == body_of(post.deep_view()),
{
    if let Some(article) = &post.article {
        if !article.markdown.as_str().is_empty() {
            return article.markdown.as_str();
        }
    }
    if post.text.as_str().is_empty() {
        "（无文本正文）"
    } else {
        post.text.as_str()
    }
}

/// `lines` with the places of the links.
pub open spec fn add_hrefs(lines: Seq<Seq<char>>, links: Seq<LinkView>) -> Seq<Seq<char>>
    decreases links.len(),
{
    if links.len() == 0 {
        lines
    } else {
        add_hrefs(lines, links.drop_last()).push("链接："@ + links.last().href)
    }
}

/// The lines of a post inside another.
pub open spec fn nested_lines(post: PostView) -> Seq<Seq<char>> {
    let heading = seq![render::author_text(post.author) + " · "@ + date_text(post)];
    let titled = match post.article {
        Some(article) => match article.title {
            Some(title) => heading.push("Article："@ + title),
            None => heading,
        },
        None => heading,
    };
    text::with_text(add_hrefs(titled.push(body_of(post)), post.links), post.url)
}

/// A post inside another.
pub open spec fn nested_text(post: PostView) -> Seq<char> {
    indented(text::join(nested_lines(post), "\n"@), "│ "@)
}

fn append_hrefs(lines: &mut Vec<String>, links: &Vec<Link>)
    ensures
        final(lines).deep_view() == add_hrefs(old(lines).deep_view(), links.deep_view()),
{
    let ghost start = lines.deep_view();
    let ghost model = links.deep_view();
    let mut i: usize = 0;
    while i < links.len()
        invariant
            i <= links@.len(),
            model == links.deep_view(),
            model.len() == links@.len(),
            lines.deep_view() == add_hrefs(start, model.take(i as int)),
        decreases links.len() - i,
    {
        assert(model.take(i + 1).drop_last() == model.take(i as int));
        assert(model[i as int] == links@[i as int].deep_view());
        text::push_line(lines, text::cat2("链接：", links[i].href.as_str()));
        i = i + 1;
    }
    assert(model.take(i as int) == model);
}

/// Adds a post inside another.
pub fn append_nested_post(lines: &mut Vec<String>, post: &Post)
    ensures
        final(lines).deep_view() == old(lines).deep_view().push(nested_text(post.deep_view())),
{
    let author = render::render_author(&post.author);
    let date = format_date(post);
    let mut nested: Vec<String> = Vec::new();
    text::push_line(&mut nested, text::cat3(author.as_str(), " · ", date.as_str()));
    assert(nested.deep_view() == seq![author@ + " · "@ + date@]);
    if let Some(article) = &post.article {
        if let Some(title) = &article.title {
            text::push_line(&mut nested, text::cat2("Article：", title.as_str()));
        }
    }
    text::push_line(&mut nested, write_body(post).to_owned());
    append_hrefs(&mut nested, &post.links);
    text::push_text(&mut nested, post.url.clone());
    let joined = text::join_strings(nested.as_slice(), "\n");
    text::push_line(lines, indent(joined.as_str(), "│ "));
}

// ----------------------------------------------------------------------
// Replies

/// What replies are shown and how many there are.
pub open spec fn replies_heading(info: ReplyInfoView, count: nat) -> Seq<char> {
    let scope = if info.mode == "direct"@ {
        "直接回复"@
    } else {
        "整段对话中的回复"@
    };
    let ranking = if info.sort == "recent"@ {
        "免费最新首批"@
    } else {
        "免费精选首批"@
    };
    let range = match info.available_count {
        Some(available) => ranking + "，原帖显示共 "@ + render::grouped(
            text::decimal(available as nat),
        ) + " 条回复"@,
        None => ranking,
    };
    let incomplete = if info.truncated {
        "，结果可能不完整"@
    } else {
        ""@
    };
    scope + "（"@ + range + "，返回 "@ + text::decimal(count) + " 条"@ + incomplete + "）"@
}

/// `lines` with the media items of a reply.
pub open spec fn add_reply_media(lines: Seq<Seq<char>>, media: Seq<MediaView>) -> Seq<Seq<char>>
    decreases media.len(),
{
    if media.len() == 0 {
        lines
    } else {
        add_reply_media(lines, media.drop_last()).push(
            "    媒体："@ + type_of_media(media.last()) + around(
                " "@,
                url_of_media(media.last()),
                ""@,
            ),
        )
    }
}

/// `lines` with a reply under its number.
pub open spec fn with_reply(
    lines: Seq<Seq<char>>,
    info: ReplyInfoView,
    number: nat,
    reply: PostView,
) -> Seq<Seq<char>> {
    let heading = "["@ + text::decimal(number) + "] "@ + render::author_text(reply.author) + " · "@
        + date_text(reply);
    let started = lines.push(""@).push(heading).push(indented(body_of(reply), "    "@));
    let threaded = if info.mode == "thread"@ {
        match reply.parent_id {
            Some(parent) => started.push("    ↳ 回复推文 "@ + parent),
            None => started,
        }
    } else {
        started
    };
    let measured = if metrics_text(reply.metrics).len() == 0 {
        threaded
    } else {
        threaded.push("    "@ + metrics_text(reply.metrics))
    };
    let illustrated = add_reply_media(measured, reply.media);
    match reply.url {
        Some(url) => illustrated.push("    "@ + url),
        None => illustrated,
    }
}

/// `lines` with the replies, numbered from one.
pub open spec fn add_replies(
    lines: Seq<Seq<char>>,
    info: ReplyInfoView,
    replies: Seq<PostView>,
) -> Seq<Seq<char>>
    decreases replies.len(),
{
    if replies.len() == 0 {
        lines
    } else {
        with_reply(
            add_replies(lines, info, replies.drop_last()),
            info,
            replies.len(),
            replies.last(),
        )
    }
}

/// `lines` with the replies under their heading.
pub open spec fn with_replies(
    lines: Seq<Seq<char>>,
    info: ReplyInfoView,
    replies: Seq<PostView>,
) -> Seq<Seq<char>> {
    let headed = lines.push(""@).push(replies_heading(info, replies.len()));
    let started = if replies.len() == 0 {
        headed.push("（没有返回可见回复）"@)
    } else {
        headed
    };
    add_replies(started, info, replies)
}

fn write_replies_heading(info: &ReplyInfo, count: usize) -> (out: String)
    ensures
        out@ == replies_heading(info.deep_view(), count as nat),
{
    let scope = if text::same(info.mode.as_str(), "direct") {
        "直接回复"
    } else {
        "整段对话中的回复"
    };
    let ranking = if text::same(info.sort.as_str(), "recent") {
        "免费最新首批"
    } else {
        "免费精选首批"
    };
    let range = match info.available_count {
        Some(available) => text::cat4(
            ranking,
            "，原帖显示共 ",
            render::format_number(available).as_str(),
            " 条回复",
        ),
        None => ranking.to_owned(),
    };
    let incomplete = if info.truncated {
        "，结果可能不完整"
    } else {
        ""
    };
    let front = text::cat4(scope, "（", range.as_str(), "，返回 ");
    let number = text::number_text(count as u64);
    text::cat5(front.as_str(), number.as_str(), " 条", incomplete, "）")
}

fn append_reply_media(lines: &mut Vec<String>, media: &Vec<Media>)
    ensures
        final(lines).deep_view() == add_reply_media(old(lines).deep_view(), media.deep_view()),
{
    let ghost start = lines.deep_view();
    let ghost model = media.deep_view();
    let mut i: usize = 0;
    while i < media.len()
        invariant
            i <= media@.len(),
            model == media.deep_view(),
            model.len() == media@.len(),
            lines.deep_view() == add_reply_media(start, model.take(i as int)),
        decreases media.len() - i,
    {
        assert(model.take(i + 1).drop_last() == model.take(i as int));
        assert(model[i as int] == media@[i as int].deep_view());
        let suffix = put_around(" ", media_url(&media[i]), "");
        text::push_line(
            lines,
            text::cat3("    媒体：", media_kind(&media[i]), suffix.as_str()),
        );
        i = i + 1;
    }
    assert(model.take(i as int) == model);
}

fn append_reply(lines: &mut Vec<String>, info: &ReplyInfo, number: usize, reply: &Post)
    ensures
        final(lines).deep_view() == with_reply(
            old(lines).deep_view(),
            info.deep_view(),
            number as nat,
            reply.deep_view(),
        ),
{
    let author = render::render_author(&reply.author);
    let date = format_date(reply);
    let index = text::number_text(number as u64);
    let front = text::cat4("[", index.as_str(), "] ", author.as_str());
    text::push_line(lines, "".to_owned());
    text::push_line(lines, text::cat3(front.as_str(), " · ", date.as_str()));
    text::push_line(lines, indent(write_body(reply), "    "));
    if text::same(info.mode.as_str(), "thread") {
        if let Some(parent) = &reply.parent_id {
            text::push_line(lines, text::cat2("    ↳ 回复推文 ", parent.as_str()));
        }
    }
    let metrics = compact_metrics(&reply.metrics);
    if !metrics.as_str().is_empty() {
        text::push_line(lines, text::cat2("    ", metrics.as_str()));
    }
    append_reply_media(lines, &reply.media);
    if let Some(url) = &reply.url {
        text::push_line(lines, text::cat2("    ", url.as_str()));
    }
}

fn append_replies(lines: &mut Vec<String>, info: &ReplyInfo, replies: &Vec<Post>)
    ensures
        final(lines).deep_view() == with_replies(
            old(lines).deep_view(),
            info.deep_view(),
            replies.deep_view(),
        ),
{
    let ghost model = replies.deep_view();
    assert(model.len() == replies@.len());
    let total: usize = replies.len();
    text::push_line(lines, "".to_owned());
    text::push_line(lines, write_replies_heading(info, total));
    if total == 0 {
        text::push_line(lines, "（没有返回可见回复）".to_owned());
    }
    let ghost start = lines.deep_view();
    let mut i: usize = 0;
    while i < total
        invariant
            i <= total,
            total == replies@.len(),
            model == replies.deep_view(),
            model.len() == replies@.len(),
            lines.deep_view() == add_replies(start, info.deep_view(), model.take(i as int)),
        decreases total - i,
    {
        assert(model.take(i + 1).drop_last() == model.take(i as int));
        assert(model[i as int] == replies@[i as int].deep_view());
        append_reply(lines, info, i + 1, &replies[i]);
        i = i + 1;
    }
    assert(model.take(i as int) == model);
}

// ----------------------------------------------------------------------
// A result

/// The lines before the content of a post.
pub open spec fn heading_lines(post: PostView) -> Seq<Seq<char>> {
    let author = render::author_text(post.author);
    let first = seq![
        if badge(post).len() == 0 {
            author
        } else {
            author + " · "@ + badge(post)
        },
    ];
    let reposted = match post.reposted_by {
        Some(reposter) => first.push("转推者："@ + render::author_text(reposter)),
        None => first,
    };
    reposted.push(date_text(post)).push(text::repeat("─"@, 48)).push(""@)
}

/// The lines of a result without its replies.
pub open spec fn post_lines(post: PostView) -> Seq<Seq<char>> {
    let content = with_content(heading_lines(post), post);
    let illustrated = with_media(with_links(content, post.links, "链接"@), post.media);
    let with_quoted = match post.quoted_post {
        Some(quoted) => illustrated.push(""@).push("引用内容："@).push(nested_text(*quoted)),
        None => illustrated,
    };
    let with_reposted = match post.reposted_post {
        Some(reposted) => with_quoted.push(""@).push("转推原文："@).push(nested_text(*reposted)),
        None => with_quoted,
    };
    let address = match post.url {
        Some(url) => url,
        None => "未知"@,
    };
    with_metrics(with_reposted, post.metrics).push(""@).push("原帖："@ + address).push(
        "来源："@ + source_name(post.source),
    )
}

/// A result for people.
pub open spec fn human_view(result: ResultView) -> Seq<char> {
    let own = post_lines(result.post);
    text::join(
        match result.reply_info {
            Some(info) => with_replies(own, info, result.replies),
            None => own,
        },
        "\n"@,
    )
}

fn write_heading(post: &Post) -> (out: Vec<String>)
    ensures
        out.deep_view() == heading_lines(post.deep_view()),
{
    let author = render::render_author(&post.author);
    let kind = post_badge(post);
    let mut lines: Vec<String> = Vec::new();
    let first = if kind.is_empty() {
        author
    } else {
        text::cat3(author.as_str(), " · ", kind)
    };
    let ghost heading = first@;
    text::push_line(&mut lines, first);
    assert(lines.deep_view() == seq![heading]);
    if let Some(reposter) = &post.reposted_by {
        let reposter = render::render_author(reposter);
        text::push_line(&mut lines, text::cat2("转推者：", reposter.as_str()));
    }
    text::push_line(&mut lines, format_date(post));
    text::push_line(&mut lines, text::repeated("─", 48));
    text::push_line(&mut lines, "".to_owned());
    lines
}

fn write_post(post: &Post) -> (out: Vec<String>)
    ensures
        out.deep_view() == post_lines(post.deep_view()),
{
    let mut lines = write_heading(post);
    append_post_content(&mut lines, post);
    append_links(&mut lines, &post.links, "链接");
    append_media(&mut lines, &post.media);
    if let Some(quoted) = &post.quoted_post {
        text::push_line(&mut lines, "".to_owned());
        text::push_line(&mut lines, "引用内容：".to_owned());
        append_nested_post(&mut lines, quoted);
    }
    if let Some(reposted) = &post.reposted_post {
        text::push_line(&mut lines, "".to_owned());
        text::push_line(&mut lines, "转推原文：".to_owned());
        append_nested_post(&mut lines, reposted);
    }
    append_metrics(&mut lines, &post.metrics);
    let address = match &post.url {
        Some(url) => url.as_str(),
        None => "未知",
    };
    text::push_line(&mut lines, "".to_owned());
    text::push_line(&mut lines, text::cat2("原帖：", address));
    text::push_line(&mut lines, text::cat2("来源：", source_label(post.source.as_str())));
    lines
}

/// Render the normalized model for people who explicitly choose `human`.
/// JSON remains the machine contract; this is a view.
pub fn render_human(result: &ReadResult) -> (out: String)
    ensures
        out@ == human_view(result.deep_view()),
{
    let mut lines = write_post(&result.post);
    if let Some(info) = &result.reply_info {
        append_replies(&mut lines, info, &result.replies);
    }
    text::join_strings(lines.as_slice(), "\n")
}

} // verus!
