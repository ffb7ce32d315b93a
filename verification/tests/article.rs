//! Articles: inline styles, links, blocks and media.

use xread::article::{
    article_media_markdown, article_media_text, assemble_article, expand_text_with_entity_links,
    normalize_article, write_block,
    Draft,
};
use xread::bridge::parse_json;
use xread::json::Json;
use xread::links::{normalize_x_url, unique_links};
use xread::media::{normalize_article_media, normalize_article_media_entries, normalize_community_media};
use xread::spans::{
    extract_urls, link_of_entity, normalize_entity_map, render_inline, InlineLink, RenderedInline,
};
use xread::styles::{
    article_inline_style_ranges, escape_markdown_label, render_styled_utf16_range,
    ArticleInlineStyle, InlineStyleRange,
};
use xread::utf16::encode_text;
use xread::Link;

fn json(source: &str) -> Json {
    parse_json(source).unwrap()
}

fn range(style: ArticleInlineStyle, start: usize, end: usize) -> InlineStyleRange {
    InlineStyleRange { end, start, style }
}

fn styled(text: &str, ranges: &[InlineStyleRange]) -> String {
    let units = encode_text(text);
    render_styled_utf16_range(&units, 0, units.len(), ranges, false)
}

#[test]
fn crossing_styles_stay_nested() {
    let ranges = [
        range(ArticleInlineStyle::Bold, 0, 10),
        range(ArticleInlineStyle::Italic, 5, 15),
    ];
    assert_eq!(
        styled("0123456789abcdef", &ranges),
        "**01234_56789_**_abcde_f"
    );
}

#[test]
fn code_excludes_other_styles() {
    let ranges = [
        range(ArticleInlineStyle::Bold, 0, 6),
        range(ArticleInlineStyle::Code, 2, 4),
        range(ArticleInlineStyle::Strikethrough, 4, 6),
    ];
    assert_eq!(styled("abcdef", &ranges), "**ab**`cd`**~~ef~~**");
}

#[test]
fn styles_keep_the_visible_text() {
    let ranges = [
        range(ArticleInlineStyle::Bold, 0, 3),
        range(ArticleInlineStyle::Italic, 1, 6),
        range(ArticleInlineStyle::Strikethrough, 3, 4),
    ];
    let markdown = styled("a🚀bcd", &ranges);
    let visible: String = markdown.chars().filter(|c| !"*_~`".contains(*c)).collect();
    assert_eq!(visible, "a🚀bcd");
}

#[test]
fn a_style_inside_a_pair_leaves_out_what_it_cuts() {
    let ranges = [range(ArticleInlineStyle::Bold, 1, 2)];
    assert_eq!(styled("a🚀b", &ranges), "a****");
}

#[test]
fn empty_and_foreign_ranges_render_nothing() {
    let units = encode_text("abc");
    assert_eq!(render_styled_utf16_range(&units, 2, 2, &[], false), "");
    assert_eq!(render_styled_utf16_range(&units, 0, 4, &[], false), "");
    assert_eq!(render_styled_utf16_range(&units, 1, 3, &[], false), "bc");
}

#[test]
fn labels_are_escaped() {
    assert_eq!(escape_markdown_label("a[b]\\c"), "a\\[b\\]\\\\c");
    let units = encode_text("x[y]");
    assert_eq!(render_styled_utf16_range(&units, 0, 4, &[], true), "x\\[y\\]");
}

#[test]
fn unknown_styles_and_ranges_are_left_out() {
    let block = json(
        r#"{"inlineStyleRanges":[
            {"style":"COLOR-RED","offset":0,"length":2},
            {"style":"MONOSPACE","offset":1,"length":2},
            {"style":"BOLD","offset":1,"length":0},
            {"style":"BOLD","offset":2,"length":9},
            {"style":"ITALIC","offset":-1,"length":2}
        ]}"#,
    );
    let ranges = article_inline_style_ranges(&block, 4);
    assert_eq!(ranges.len(), 1);
    assert_eq!(ranges[0].style, ArticleInlineStyle::Code);
    assert_eq!((ranges[0].start, ranges[0].end), (1, 3));
}

#[test]
fn finds_urls_in_a_text() {
    assert_eq!(
        extract_urls("see (HTTPS://a.example/x) and <http://b.example>."),
        ["HTTPS://a.example/x", "http://b.example"]
    );
    assert!(extract_urls("ftp://c.example").is_empty());
}

#[test]
fn the_last_entity_under_a_key_wins() {
    let list = json(
        r#"[{"key":0,"value":{"n":1}},{"key":"0","value":{"n":2}},{"key":1},{"value":{}}]"#,
    );
    let entities = normalize_entity_map(Some(&list));
    assert_eq!(entities.len(), 2);
    assert_eq!(entities[1].key, "0");
    let found = xread::spans::entity_for_range(&json(r#"{"key":0}"#), &entities).unwrap();
    assert!(found.get("n").is_some_and(|n| matches!(n, Json::Number(n) if n.unsigned == Some(2))));
    assert!(normalize_entity_map(None).is_empty());
}

#[test]
fn links_by_range() {
    let entity = json(r#"{"type":"LINK","data":{"url":"https://e.example"}}"#);
    let range = json(r#"{"key":0,"offset":1,"length":2}"#);
    let link = link_of_entity(
        &range,
        Some(&entity),
        "abcd",
        Some("https://e.example".to_owned()),
    )
    .unwrap();
    assert_eq!((link.start, link.end), (1, 3));
    assert_eq!(link.label, "bc");
    assert!(link_of_entity(&range, Some(&entity), "ab", Some("x".to_owned())).is_none());
    assert!(link_of_entity(&range, Some(&entity), "abcd", None).is_none());
    let media = json(r#"{"type":"MEDIA","data":{}}"#);
    assert!(link_of_entity(&range, Some(&media), "abcd", Some("x".to_owned())).is_none());
}

fn inline_link(start: usize, end: usize, href: &str) -> InlineLink {
    InlineLink {
        end,
        href: href.to_owned(),
        start,
        label: "label".to_owned(),
    }
}

#[test]
fn links_are_placed_in_order_and_never_overlap() {
    let rendered = render_inline(
        "abcdefgh",
        &[],
        &vec!["https://bare.example".to_owned()],
        vec![
            inline_link(5, 7, "https://two.example"),
            inline_link(1, 4, "https://one.example"),
            inline_link(3, 6, "https://overlap.example"),
        ],
    );
    assert_eq!(
        rendered.markdown,
        "a[bcd](<https://one.example>)e[fg](<https://two.example>)h"
    );
    let hrefs: Vec<&str> = rendered.links.iter().map(|link| link.href.as_str()).collect();
    assert_eq!(
        hrefs,
        [
            "https://bare.example",
            "https://two.example",
            "https://one.example",
            "https://overlap.example"
        ]
    );
    assert_eq!(rendered.links[1].text, "label");
}

#[test]
fn blocks_by_kind() {
    for (kind, expected) in [
        ("header-one", "# body"),
        ("header-two", "## body"),
        ("header-three", "### body"),
        ("unordered-list-item", "  - body"),
        ("ordered-list-item", "  1. body"),
        ("blockquote", "> body"),
        ("code-block", "    body"),
        ("unstyled", "body"),
    ] {
        assert_eq!(write_block(kind, 1, "body"), expected);
    }
}

#[test]
fn styled_blocks_without_text_are_left_out() {
    let content = RenderedInline {
        links: Vec::new(),
        markdown: "m".to_owned(),
    };
    let mut draft = Draft::new();
    draft.add_text(&json(r#"{"type":"header-one","text":"  "}"#), &content);
    assert!(draft.markdown.is_empty());
    draft.add_text(&json(r#"{"text":""}"#), &content);
    assert_eq!(draft.markdown, ["m"]);
    assert_eq!(draft.text, [""]);
}

#[test]
fn posts_are_embedded_once_on_values() {
    let entity = json(r#"{"type":"TWEET","data":{"tweetId":123}}"#);
    let entries = Vec::new();
    let mut draft = Draft::new();
    draft.embed(Some(&entity), &entries);
    draft.embed(Some(&entity), &entries);
    draft.embed(None, &entries);
    assert_eq!(draft.embedded_post_ids, ["123"]);
    assert_eq!(draft.markdown, ["<https://x.com/i/status/123>"]);
    assert_eq!(draft.text, ["https://x.com/i/status/123"]);
}

#[test]
fn media_of_an_article() {
    let video = normalize_article_media(&json(
        r#"{"type":"animated_gif","media_info":{"original_img_url":"https://i.example/p.jpg"},
            "video_info":{"duration_millis":1500,"variants":[
                {"url":"https://v.example/a.mp4","bit_rate":5,"content_type":"video/mp4"},
                {"bitrate":9}
            ]}}"#,
    ))
    .unwrap();
    assert_eq!(video.media_type.as_deref(), Some("gif"));
    assert_eq!(video.url, None);
    assert_eq!(video.preview_image_url.as_deref(), Some("https://i.example/p.jpg"));
    assert_eq!(video.duration_ms, Some(1500));
    assert_eq!(video.variants.len(), 1);
    assert_eq!(
        article_media_markdown(&video).as_deref(),
        Some("https://v.example/a.mp4")
    );
    assert_eq!(
        article_media_text(&video).as_deref(),
        Some("https://v.example/a.mp4")
    );

    let direct = normalize_article_media(&json(
        r#"{"type":"video","url":"https://v.example/B.MP4?x=1"}"#,
    ))
    .unwrap();
    assert_eq!(direct.url.as_deref(), Some("https://v.example/B.MP4?x=1"));

    assert!(normalize_article_media(&json(r#"{"type":"photo"}"#)).is_none());
    let bare = normalize_article_media(&json(r#"{"media_url":"https://i.example/q.png"}"#)).unwrap();
    assert_eq!(bare.media_type.as_deref(), Some("photo"));
    assert_eq!(
        article_media_markdown(&bare).as_deref(),
        Some("![](<https://i.example/q.png>)")
    );
}

#[test]
fn media_of_a_post() {
    let media = json(
        r#"{"all":[
            {"type":"mosaic_photo","formats":{"webp":"https://m.example/w"},"altText":"grid"},
            {"type":"video","duration":12.5,"formats":[
                {"url":"https://v.example/1.mp4","bitrate":1.9,"container":"mp4"}
            ],"variants":[{"url":"ignored"}]},
            {"type":"photo","thumbnailUrl":"https://t.example/1","width":3,"height":-4}
        ]}"#,
    );
    let items = normalize_community_media(Some(&media));
    assert_eq!(items.len(), 3);
    assert_eq!(items[0].url.as_deref(), Some("https://m.example/w"));
    assert_eq!(items[0].alt_text.as_deref(), Some("grid"));
    assert_eq!(items[1].duration_ms, Some(12_500));
    assert_eq!(items[1].variants.len(), 1);
    assert_eq!(items[1].variants[0].bit_rate, Some(1));
    assert_eq!(items[1].variants[0].content_type.as_deref(), Some("mp4"));
    assert_eq!(items[2].url.as_deref(), Some("https://t.example/1"));
    assert_eq!((items[2].width, items[2].height), (Some(3), None));
    assert!(normalize_community_media(None).is_empty());
}

#[test]
fn later_media_entries_win() {
    let entries = normalize_article_media_entries(&[
        json(r#"{"id":"a","url":"https://i.example/1"}"#),
        json(r#"{"media_key":"a","id":7,"url":"https://i.example/2"}"#),
        json(r#"{"id":"b"}"#),
    ]);
    assert_eq!(entries.len(), 2);
    assert_eq!(entries[1].ids, ["7", "a"]);
    let found = xread::media::find_media(&entries, "a").unwrap();
    assert_eq!(found.url.as_deref(), Some("https://i.example/2"));
    assert!(xread::media::find_media(&entries, "b").is_none());
}

#[test]
fn links_are_unique_on_values() {
    let link = |href: &str, text: &str| Link {
        href: href.to_owned(),
        text: text.to_owned(),
    };
    let unique = unique_links(&vec![link("a", "1"), link("b", "2"), link("a", "3")]);
    assert_eq!(unique, [link("a", "1"), link("b", "2")]);
    assert_eq!(
        normalize_x_url("https://twitter.com/ada/status/1"),
        "https://x.com/ada/status/1"
    );
    assert_eq!(normalize_x_url("http://twitter.com/a"), "http://twitter.com/a");
}

#[test]
fn articles_fall_back_to_their_plain_text() {
    let article = normalize_article(Some(&json(
        r#"{"rest_id":9,"preview_text":"see https://t.co/a",
            "entities":{"urls":[{"url":"https://t.co/a","expanded_url":"https://long.example",
                "display_url":"long.example"}]},
            "cover_media":{"media_info":{"media_url":"https://i.example/c.jpg"}},
            "created_at":"Mon May 05 22:09:42 +0000 2014",
            "lifecycle_state":{"modified_at_secs":1.5}}"#,
    )))
    .unwrap();
    assert_eq!(article.id.as_deref(), Some("9"));
    assert_eq!(article.text, "see https://long.example");
    assert_eq!(article.markdown, article.text);
    assert_eq!(article.preview_text.as_deref(), Some("see https://t.co/a"));
    assert_eq!(article.links[0].text, "long.example");
    assert_eq!(article.cover_media_url.as_deref(), Some("https://i.example/c.jpg"));
    assert_eq!(article.created_at.as_deref(), Some("2014-05-05T22:09:42.000Z"));
    assert_eq!(article.modified_at.as_deref(), Some("1970-01-01T00:00:01.500Z"));
    assert!(normalize_article(Some(&json(r#"{"title":"  "}"#))).is_none());
    assert!(normalize_article(Some(&json("[]"))).is_none());
    assert!(normalize_article(None).is_none());
}

#[test]
fn puts_an_article_together_from_its_parts() {
    let mut draft = Draft::new();
    draft.add_text(
        &json(r#"{"type":"header-two","text":"Title "}"#),
        &RenderedInline {
            links: vec![Link {
                href: "https://l.example".to_owned(),
                text: "l".to_owned(),
            }],
            markdown: "Title".to_owned(),
        },
    );
    let rendered = draft.finish();
    assert_eq!(rendered.markdown, "## Title");
    assert_eq!(rendered.text, "Title");
    let article = assemble_article(
        &json(r#"{"id":"x"}"#),
        rendered,
        &Vec::new(),
        Some("then".to_owned()),
        None,
    )
    .unwrap();
    assert_eq!(article.created_at.as_deref(), Some("then"));
    assert_eq!(article.links.len(), 1);
}

#[test]
fn entities_of_an_article_are_expanded_one_after_the_other() {
    let entities = parse_json(
        r#"{"urls":[{"url":"https://t.co/a","expanded_url":"https://t.co/b"},
            {"url":"https://t.co/b","unwound_url":"https://two.example"},
            {"url":"https://t.co/c","display_url":"c"}]}"#,
    )
    .unwrap();
    assert_eq!(
        expand_text_with_entity_links("https://t.co/a and https://t.co/c", Some(&entities)),
        "https://two.example and https://t.co/c"
    );
    let parts = parse_json(r#"{"urls":[{"url":"a","expanded_url":"X"}]}"#).unwrap();
    assert_eq!(expand_text_with_entity_links("ab", Some(&parts)), "Xb");
    let empty = parse_json(r#"{"urls":[{"url":"","expanded_url":"-"}]}"#).unwrap();
    assert_eq!(expand_text_with_entity_links("ab", Some(&empty)), "-a-b-");
    assert_eq!(expand_text_with_entity_links("ab", None), "ab");
}
