//! Views of a result.

use xread::markdown::markdown_author;
use xread::render::{format_number, render_author};
use xread::{
    render_human, render_markdown, render_text, Article, Author, Link, Media, MediaVariant, Metrics,
    OutputFormat, Post, ReadResult, ReplyInfo,
};

fn sample_result() -> ReadResult {
    ReadResult {
        post: Post {
            article: None,
            author: Author {
                name: Some("Ada".to_owned()),
                username: Some("ada".to_owned()),
                ..Author::default()
            },
            conversation_id: None,
            created_at: Some("2026-09-03T12:30:00.000Z".to_owned()),
            date_label: None,
            id: Some("123".to_owned()),
            is_long_post: false,
            kind: "post".to_owned(),
            lang: Some("en".to_owned()),
            links: vec![Link {
                href: "https://example.com".to_owned(),
                text: "Example".to_owned(),
            }],
            media: vec![Media {
                alt_text: Some("A red rocket".to_owned()),
                duration_ms: None,
                height: Some(800),
                preview_image_url: Some("https://image.example/1.jpg".to_owned()),
                media_type: Some("photo".to_owned()),
                url: Some("https://image.example/1.jpg".to_owned()),
                variants: Vec::new(),
                width: Some(600),
            }],
            metrics: Some(Metrics {
                like_count: Some(99_999),
                ..Metrics::default()
            }),
            parent_id: None,
            possibly_sensitive: Some(false),
            quoted_post: None,
            reposted_by: None,
            reposted_post: None,
            source: "fxtwitter-community".to_owned(),
            text: "The important body.".to_owned(),
            url: Some("https://x.com/ada/status/123".to_owned()),
        },
        replies: Vec::new(),
        reply_info: None,
        warnings: vec!["an operational warning".to_owned()],
    }
}

#[test]
fn formats_grouped_numbers() {
    assert_eq!(format_number(12), "12");
    assert_eq!(format_number(12_345_678), "12,345,678");
}

#[test]
fn markdown_is_compact_and_keeps_provenance() {
    let markdown = render_markdown(&sample_result());
    assert!(markdown.contains("The important body."));
    assert!(markdown.contains("[Example](https://example.com)"));
    assert!(markdown.contains("Ada (@ada) · 2026-09-03 · 1 image"));
    assert!(markdown.contains("A red rocket"));
    assert!(!markdown.contains("99,999"));
    assert!(!markdown.contains("FxTwitter"));
    assert!(!markdown.contains("operational warning"));
    assert!(!markdown.contains("────"));
}

#[test]
fn markdown_contract_snapshot() {
    assert_eq!(
        render_markdown(&sample_result()),
        "The important body.\n\n### Links\n\n- [Example](https://example.com)\n\n- Media description: A red rocket\n\n_[Ada (@ada) · 2026-09-03 · 1 image](https://x.com/ada/status/123)_"
    );
}

#[test]
fn markdown_includes_best_video_urls_but_not_image_urls() {
    let mut result = sample_result();
    result.post.media.push(Media {
        alt_text: None,
        duration_ms: Some(1_000),
        height: Some(720),
        preview_image_url: Some("https://image.example/video.jpg".to_owned()),
        media_type: Some("video".to_owned()),
        url: None,
        variants: vec![
            MediaVariant {
                bit_rate: Some(256_000),
                content_type: Some("video/mp4".to_owned()),
                url: "https://video.example/480x852/low.mp4".to_owned(),
            },
            MediaVariant {
                bit_rate: Some(2_000_000),
                content_type: Some("video/mp4".to_owned()),
                url: "https://video.example/720x1280/best.mp4".to_owned(),
            },
        ],
        width: Some(1280),
    });

    let markdown = render_markdown(&result);
    assert!(markdown.contains("### Videos"));
    assert!(markdown.contains("https://video.example/720x1280/best.mp4"));
    assert!(!markdown.contains("https://video.example/480x852/low.mp4"));
    assert!(!markdown.contains("https://image.example/1.jpg"));
    assert!(!markdown.contains("https://image.example/video.jpg"));
}

#[test]
fn markdown_preserves_article_images_as_document_content() {
    let mut result = sample_result();
    result.post.links.clear();
    result.post.media.clear();
    result.post.kind = "article".to_owned();
    result.post.article = Some(Article {
        cover_media_url: Some("https://image.example/cover.jpg".to_owned()),
        created_at: None,
        embedded_post_ids: Vec::new(),
        id: Some("article-1".to_owned()),
        links: Vec::new(),
        markdown: "Before\n\n![diagram](<https://image.example/body.jpg>)\n\nAfter".to_owned(),
        media: vec![Media {
            alt_text: Some("diagram".to_owned()),
            duration_ms: None,
            height: None,
            preview_image_url: None,
            media_type: Some("photo".to_owned()),
            url: Some("https://image.example/body.jpg".to_owned()),
            variants: Vec::new(),
            width: None,
        }],
        modified_at: None,
        preview_text: None,
        text: "Before\n\nAfter".to_owned(),
        title: Some("Visual article".to_owned()),
    });

    let markdown = render_markdown(&result);
    assert!(markdown
        .starts_with("# Visual article\n\n![](<https://image.example/cover.jpg>)\n\nBefore"));
    assert!(markdown.contains("![diagram](<https://image.example/body.jpg>)"));
    assert!(!markdown.contains("文章媒体"));
}

#[test]
fn text_contains_only_content() {
    assert_eq!(render_text(&sample_result()), "The important body.");
}

#[test]
fn parses_output_formats_and_aliases() {
    assert_eq!("md".parse(), Ok(OutputFormat::Markdown));
    assert_eq!("txt".parse(), Ok(OutputFormat::Text));
    assert_eq!("json".parse(), Ok(OutputFormat::Json));
    assert_eq!("human".parse(), Ok(OutputFormat::Human));
}

fn reply(id: &str, text: &str) -> Post {
    let mut post = sample_result().post;
    post.id = Some(id.to_owned());
    post.text = text.to_owned();
    post.links.clear();
    post.media.clear();
    post.url = None;
    post
}

fn info(truncated: bool, error: Option<&str>) -> ReplyInfo {
    ReplyInfo {
        available_count: Some(1_234),
        backend: "community".to_owned(),
        conversation_id: None,
        count: 0,
        error: error.map(str::to_owned),
        limit: 20,
        mode: "thread".to_owned(),
        range: "community-first-page".to_owned(),
        sort: "recent".to_owned(),
        truncated,
    }
}

#[test]
fn names_of_formats_are_inverse() {
    for format in [
        OutputFormat::Markdown,
        OutputFormat::Text,
        OutputFormat::Json,
        OutputFormat::Human,
    ] {
        assert_eq!(format.as_str().parse(), Ok(format));
    }
    assert_eq!("MarkDown".parse(), Ok(OutputFormat::Markdown));
    assert_eq!(OutputFormat::default(), OutputFormat::Markdown);
    assert_eq!(
        "yaml".parse::<OutputFormat>().unwrap_err().message,
        "format 只接受 markdown、text、json 或 human。"
    );
}

#[test]
fn grouping_keeps_the_digits_on_values() {
    for value in [0, 7, 999, 1_000, 99_999, 1_000_000, u64::MAX] {
        let grouped = format_number(value);
        assert_eq!(grouped.replace(',', ""), value.to_string());
        let groups: Vec<&str> = grouped.split(',').collect();
        assert!(groups[1..].iter().all(|group| group.len() == 3));
    }
    assert_eq!(format_number(1_000), "1,000");
}

#[test]
fn authors_by_what_is_known() {
    let author = |name: Option<&str>, username: Option<&str>| Author {
        name: name.map(str::to_owned),
        username: username.map(str::to_owned),
        ..Author::default()
    };
    assert_eq!(markdown_author(&author(Some("A [b]"), Some("u"))), "A \\[b\\] (@u)");
    assert_eq!(markdown_author(&author(Some("A"), None)), "A");
    assert_eq!(markdown_author(&author(None, Some("u"))), "@u");
    assert_eq!(markdown_author(&author(None, None)), "unknown author");
    assert_eq!(render_author(&author(Some("A"), Some("u"))), "A (@u)");
    assert_eq!(render_author(&author(None, None)), "@未知用户");
}

#[test]
fn replies_and_limitations_stay_in_the_markdown() {
    let mut result = sample_result();
    result.post.source = "x-oembed".to_owned();
    result.replies = vec![reply("2", "first answer"), reply("3", "second answer")];
    result.reply_info = Some(info(true, Some("gone")));
    let markdown = render_markdown(&result);
    assert!(markdown.contains("## Replies (2 shown, partial)"));
    assert!(markdown.contains("### Ada (@ada) · 2026-09-03\n\nfirst answer"));
    assert!(markdown.contains("second answer"));
    assert!(markdown.contains("> Note: replies were unavailable from the free upstream source."));
    assert!(markdown.ends_with(
        "> Note: the structured source was unavailable; oEmbed fallback content may be incomplete."
    ));

    result.replies.clear();
    result.reply_info = Some(info(false, None));
    let markdown = render_markdown(&result);
    assert!(markdown.contains("## Replies (0 shown)\n\nNo visible replies were returned."));
}

#[test]
fn quoted_and_reposted_posts_are_kept() {
    let mut result = sample_result();
    result.post.quoted_post = Some(Box::new(reply("8", "quoted\n\nbody")));
    result.post.reposted_post = Some(Box::new(reply("9", "reposted body")));
    let markdown = render_markdown(&result);
    assert!(markdown.contains("## Quoted post\n\n> quoted\n>\n> body\n>\n> _Ada (@ada) · 2026-09-03_"));
    assert!(markdown.contains("## Reposted content\n\n> reposted body"));
    assert_eq!(
        render_text(&result),
        "The important body.\n\nQuoted post:\nquoted\n\nbody\n\nReposted content:\nreposted body"
    );
}

#[test]
fn plain_replies() {
    let mut result = sample_result();
    result.replies = vec![reply("2", " first ")];
    result.reply_info = Some(info(true, None));
    assert_eq!(
        render_text(&result),
        "The important body.\n\nReplies (1 shown, partial):\n\nAda (@ada):\nfirst"
    );
}

#[test]
fn views_leave_diagnostics_out() {
    let result = sample_result();
    let mut other = sample_result();
    other.warnings.clear();
    other.post.metrics = None;
    other.post.id = None;
    other.post.author.profile_image_url = Some("https://i.example/me".to_owned());
    assert_eq!(render_markdown(&result), render_markdown(&other));
    assert_eq!(render_text(&result), render_text(&other));
    other.post.media[0].url = Some("https://elsewhere.example/2.jpg".to_owned());
    assert_eq!(render_markdown(&result), render_markdown(&other));
}

#[test]
fn posts_without_text_say_so() {
    let mut result = sample_result();
    result.post.text = " ".to_owned();
    assert!(render_markdown(&result).starts_with("(no text content)"));
    assert_eq!(render_text(&result), "");
}

#[test]
fn links_in_the_body_are_not_repeated() {
    let mut result = sample_result();
    result.post.text = "see https://example.com".to_owned();
    assert!(!render_markdown(&result).contains("### Links"));
}

#[test]
fn human_view_of_a_post() {
    let mut result = sample_result();
    result.post.kind = "quote".to_owned();
    result.post.quoted_post = Some(Box::new(reply("8", "inner")));
    let human = render_human(&result);
    let expected = [
        "Ada (@ada) · 引用推文",
        "2026-09-03T12:30:00.000Z",
        "────────────────────────────────────────────────",
        "",
        "The important body.",
        "",
        "链接：",
        "1. Example — https://example.com",
        "",
        "媒体：",
        "- photo: https://image.example/1.jpg（A red rocket）",
        "",
        "引用内容：",
        "│ Ada (@ada) · 2026-09-03T12:30:00.000Z",
        "│ inner",
        "",
        "喜欢 99,999",
        "",
        "原帖：https://x.com/ada/status/123",
        "来源：FxTwitter v2（第三方免费结构化源）",
    ]
    .join("\n");
    assert_eq!(human, expected);
}

#[test]
fn human_view_of_replies() {
    let mut result = sample_result();
    let mut answer = reply("2", "line one\nline two");
    answer.parent_id = Some("123".to_owned());
    answer.url = Some("https://x.com/ada/status/2".to_owned());
    answer.media = sample_result().post.media;
    result.replies = vec![answer];
    result.reply_info = Some(info(true, None));
    let human = render_human(&result);
    assert!(human.contains(
        "整段对话中的回复（免费最新首批，原帖显示共 1,234 条回复，返回 1 条，结果可能不完整）"
    ));
    assert!(human.ends_with(
        "[1] Ada (@ada) · 2026-09-03T12:30:00.000Z\n    line one\n    line two\n    ↳ 回复推文 123\n    喜欢 99,999\n    媒体：photo https://image.example/1.jpg\n    https://x.com/ada/status/2"
    ));
    result.replies.clear();
    assert!(render_human(&result).ends_with("（没有返回可见回复）"));
}

#[test]
fn human_view_of_an_article() {
    let mut result = sample_result();
    result.post.links.clear();
    result.post.media.clear();
    result.post.metrics = None;
    result.post.kind = "article".to_owned();
    result.post.url = None;
    result.post.source = "other".to_owned();
    result.post.article = Some(Article {
        cover_media_url: Some("https://image.example/cover.jpg".to_owned()),
        created_at: None,
        embedded_post_ids: Vec::new(),
        id: None,
        links: vec![Link {
            href: "https://l.example".to_owned(),
            text: "https://l.example".to_owned(),
        }],
        markdown: "Body".to_owned(),
        media: Vec::new(),
        modified_at: None,
        preview_text: None,
        text: "Body".to_owned(),
        title: Some("Title".to_owned()),
    });
    assert!(render_human(&result).ends_with(
        "# Title\n\nBody\n\n封面：https://image.example/cover.jpg\n\n文中链接：\n1. https://l.example\n\n原帖：未知\n来源：other"
    ));
}
