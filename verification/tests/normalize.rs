//! Posts and articles out of loose documents.

use xread::bridge::parse_json;
use xread::json::{Json, JsonNumber, Member};
use xread::normalize::{expand_community_text, is_only_urls, normalize_community_post};
use xread::oembed::{extract_anchors, html_to_text, normalize_oembed, status_link, tidy_text};
use xread::tokens::expand_tokens;
use xread::utf16::utf16_slice;
use xread::{snowflake_timestamp, ErrorKind};

fn string(value: &str) -> Json {
    Json::Text(value.to_owned())
}

fn number(value: u64) -> Json {
    Json::Number(JsonNumber {
        unsigned: Some(value),
        double: Some((value as f64).to_bits()),
    })
}

fn boolean(value: bool) -> Json {
    Json::Bool(value)
}

fn array(items: Vec<Json>) -> Json {
    Json::Array(items)
}

fn object(members: Vec<(&str, Json)>) -> Json {
    Json::Object(
        members
            .into_iter()
            .map(|(name, value)| Member {
                name: name.to_owned(),
                value,
            })
            .collect(),
    )
}

#[test]
fn normalizes_long_post_media_quote_and_links() {
    let value = object(vec![
        ("id", string("1890000000000000000")),
        ("type", string("status")),
        ("text", string("hello https://t.co/a")),
        ("is_note_tweet", boolean(true)),
        ("author", object(vec![
            ("id", string("7")),
            ("name", string("Ada")),
            ("screen_name", string("ada")),
            ("verification", object(vec![
                ("verified", boolean(true)),
            ])),
        ])),
        ("raw_text", object(vec![
            ("text", string("hello https://t.co/a")),
            ("facets", array(vec![
                object(vec![
                    ("type", string("url")),
                    ("original", string("https://t.co/a")),
                    ("replacement", string("https://example.com")),
                    ("display", string("example.com")),
                ]),
            ])),
        ])),
        ("media", object(vec![
            ("all", array(vec![
                object(vec![
                    ("type", string("video")),
                    ("thumbnail_url", string("https://img.example/1.jpg")),
                    ("variants", array(vec![
                        object(vec![
                            ("url", string("https://video.example/1.mp4")),
                            ("bitrate", number(832000)),
                        ]),
                    ])),
                ]),
            ])),
        ])),
        ("likes", number(12)),
        ("replies", number(3)),
    ]);

    let post = normalize_community_post(&value, 0).unwrap();
    assert_eq!(post.author.username.as_deref(), Some("ada"));
    assert_eq!(post.kind, "long-post");
    assert_eq!(post.text, "hello https://example.com");
    assert_eq!(post.links[0].href, "https://example.com");
    assert_eq!(post.media[0].variants[0].bit_rate, Some(832_000));
    assert_eq!(post.metrics.unwrap().like_count, Some(12));
}

#[test]
fn renders_article_blocks_and_draft_js_link_ranges() {
    let value = object(vec![
        ("id", string("1890000000000000000")),
        ("type", string("status")),
        ("text", string("https://t.co/article")),
        ("author", object(vec![
            ("name", string("Ada")),
            ("screen_name", string("ada")),
        ])),
        ("article", object(vec![
            ("id", string("article-1")),
            ("title", string("A small article")),
            ("content", object(vec![
                ("blocks", array(vec![
                    object(vec![
                        ("type", string("header-one")),
                        ("text", string("Intro")),
                        ("entityRanges", array(vec![])),
                    ]),
                    object(vec![
                        ("type", string("unstyled")),
                        ("text", string("Go 🚀docs")),
                        ("entityRanges", array(vec![
                            object(vec![
                                ("key", number(0)),
                                ("offset", number(5)),
                                ("length", number(4)),
                            ]),
                        ])),
                        ("inlineStyleRanges", array(vec![
                            object(vec![
                                ("style", string("BOLD")),
                                ("offset", number(5)),
                                ("length", number(4)),
                            ]),
                        ])),
                    ]),
                    object(vec![
                        ("type", string("unstyled")),
                        ("text", string("Bold and italic code")),
                        ("entityRanges", array(vec![])),
                        ("inlineStyleRanges", array(vec![
                            object(vec![
                                ("style", string("BOLD")),
                                ("offset", number(0)),
                                ("length", number(4)),
                            ]),
                            object(vec![
                                ("style", string("ITALIC")),
                                ("offset", number(9)),
                                ("length", number(6)),
                            ]),
                            object(vec![
                                ("style", string("CODE")),
                                ("offset", number(16)),
                                ("length", number(4)),
                            ]),
                        ])),
                    ]),
                ])),
                ("entityMap", object(vec![
                    ("0", object(vec![
                        ("type", string("LINK")),
                        ("data", object(vec![
                            ("url", string("https://example.com/docs")),
                        ])),
                    ])),
                ])),
            ])),
        ])),
    ]);

    let post = normalize_community_post(&value, 0).unwrap();
    let article = post.article.unwrap();
    assert_eq!(post.kind, "article");
    assert_eq!(article.title.as_deref(), Some("A small article"));
    assert!(article.markdown.starts_with("# Intro"));
    assert!(article
        .markdown
        .contains("Go 🚀[**docs**](<https://example.com/docs>)"));
    assert!(article.markdown.contains("**Bold** and _italic_ `code`"));
    assert!(article.text.contains("Go 🚀docs"));
    assert!(!article.text.contains("https://example.com/docs"));
    assert_eq!(article.links[0].text, "docs");
    assert_eq!(article.links[0].href, "https://example.com/docs");
    assert_eq!(post.text, article.text);
}

#[test]
fn preserves_article_media_without_artificial_labels() {
    let value = object(vec![
        ("id", string("1890000000000000000")),
        ("type", string("status")),
        ("text", string("https://t.co/article")),
        ("author", object(vec![
            ("name", string("Ada")),
            ("screen_name", string("ada")),
        ])),
        ("article", object(vec![
            ("id", string("article-1")),
            ("title", string("A visual article")),
            ("content", object(vec![
                ("blocks", array(vec![
                    object(vec![
                        ("type", string("unstyled")),
                        ("text", string("Before")),
                        ("entityRanges", array(vec![])),
                    ]),
                    object(vec![
                        ("type", string("atomic")),
                        ("text", string(" ")),
                        ("entityRanges", array(vec![
                            object(vec![
                                ("key", number(0)),
                                ("offset", number(0)),
                                ("length", number(1)),
                            ]),
                        ])),
                    ]),
                    object(vec![
                        ("type", string("unstyled")),
                        ("text", string("After")),
                        ("entityRanges", array(vec![])),
                    ]),
                ])),
                ("entityMap", object(vec![
                    ("0", object(vec![
                        ("type", string("MEDIA")),
                        ("data", object(vec![
                            ("mediaItems", array(vec![
                                object(vec![
                                    ("mediaId", string("media-1")),
                                ]),
                            ])),
                        ])),
                    ])),
                ])),
            ])),
            ("media_entities", array(vec![
                object(vec![
                    ("id", string("media-1")),
                    ("type", string("image")),
                    ("alt_text", string("Architecture [diagram]")),
                    ("media_info", object(vec![
                        ("original_img_url", string("https://pbs.twimg.com/media/example.jpg")),
                        ("original_img_width", number(1200)),
                        ("original_img_height", number(800)),
                    ])),
                ]),
            ])),
        ])),
    ]);

    let post = normalize_community_post(&value, 0).unwrap();
    let article = post.article.unwrap();
    assert_eq!(article.media.len(), 1);
    assert_eq!(article.media[0].media_type.as_deref(), Some("photo"));
    assert_eq!(article.media[0].width, Some(1200));
    assert_eq!(article.media[0].height, Some(800));
    assert_eq!(
        article.markdown,
        "Before\n\n![Architecture \\[diagram\\]](<https://pbs.twimg.com/media/example.jpg>)\n\nAfter"
    );
    assert_eq!(
        article.text,
        "Before\n\nhttps://pbs.twimg.com/media/example.jpg\n\nAfter"
    );
    assert!(!article.markdown.contains("文章媒体"));
    assert!(!article.text.contains("文章媒体"));
}

#[test]
fn parses_oembed_and_decodes_html() {
    let payload = object(vec![
        ("author_name", string("Ada")),
        ("author_url", string("https://twitter.com/ada")),
        ("url", string("https://twitter.com/ada/status/463440424141459456")),
        ("html", string("<blockquote><p lang=\"en\">Hello &amp; goodbye<br><a href=\"https://example.com\">link</a></p>&mdash; Ada <a href=\"https://twitter.com/ada/status/463440424141459456\">May 5, 2014</a></blockquote>")),
    ]);
    let post = normalize_oembed(&payload, "463440424141459456").unwrap();
    assert_eq!(post.text, "Hello & goodbye\nlink");
    assert_eq!(post.author.username.as_deref(), Some("ada"));
    assert_eq!(post.date_label.as_deref(), Some("May 5, 2014"));
    assert!(post.url.unwrap().starts_with("https://x.com/"));
}

#[test]
fn derives_timestamp_from_snowflake() {
    assert_eq!(
        snowflake_timestamp("463440424141459456").as_deref(),
        Some("2014-05-05T22:09:42.079Z")
    );
}

#[test]
fn slices_draft_js_labels_by_utf16_units() {
    assert_eq!(utf16_slice("a🚀link", 3, 4).as_deref(), Some("link"));
}

#[test]
fn refuses_what_is_no_post() {
    for source in [
        r#"{"id":1,"text":"t","author":{}}"#,
        r#"{"id":"1","text":"t","author":[]}"#,
        r#"{"id":"1","author":{}}"#,
        r#"{"id":"1","type":"user","text":"t","author":{}}"#,
        "[]",
    ] {
        let error = normalize_community_post(&parse_json(source).unwrap(), 0).unwrap_err();
        assert_eq!(error.kind, ErrorKind::InvalidResponse);
        assert_eq!(error.message, "FxTwitter 返回了无法识别的推文数据。");
    }
}

#[test]
fn reads_the_fields_of_a_post() {
    let value = parse_json(
        r#"{"id":"20","raw_text":{"text":"just setting up"},"created_timestamp":1142974214.5,
            "url":"https://twitter.com/jack/status/20","lang":"en","possibly_sensitive":false,
            "replying_to":{"status":19},"views":1e3,"bookmarks":-1,
            "author":{"id":12,"screen_name":"jack","avatar_url":"https://a.example/j"},
            "reposted_by":{"name":"Ada"}}"#,
    )
    .unwrap();
    let post = normalize_community_post(&value, 0).unwrap();
    assert_eq!(post.text, "just setting up");
    assert_eq!(post.created_at.as_deref(), Some("2006-03-21T20:50:14.500Z"));
    assert_eq!(post.url.as_deref(), Some("https://x.com/jack/status/20"));
    assert_eq!(post.kind, "repost");
    assert_eq!(post.parent_id.as_deref(), Some("19"));
    assert_eq!(post.possibly_sensitive, Some(false));
    assert_eq!(post.author.id.as_deref(), Some("12"));
    assert_eq!(post.author.verified, None);
    let metrics = post.metrics.unwrap();
    assert_eq!(metrics.impression_count, Some(1_000));
    assert_eq!(metrics.bookmark_count, None);
    assert_eq!(post.source, "fxtwitter-community");
}

#[test]
fn an_address_is_made_where_none_is_given() {
    let value = parse_json(r#"{"id":"463440424141459456","text":"t","author":{}}"#).unwrap();
    let post = normalize_community_post(&value, 0).unwrap();
    assert_eq!(
        post.url.as_deref(),
        Some("https://x.com/i/status/463440424141459456")
    );
    assert_eq!(post.created_at.as_deref(), Some("2014-05-05T22:09:42.079Z"));
    assert_eq!(post.kind, "post");
}

#[test]
fn quotes_are_followed_twice() {
    let mut source = r#"{"id":"5","text":"t5","author":{}}"#.to_owned();
    for id in [4, 3, 2, 1] {
        source = format!(r#"{{"id":"{id}","text":"t{id}","author":{{}},"quote":{source}}}"#);
    }
    let post = normalize_community_post(&parse_json(&source).unwrap(), 0).unwrap();
    assert_eq!(post.kind, "quote");
    let second = post.quoted_post.unwrap();
    assert_eq!(second.id.as_deref(), Some("2"));
    let third = second.quoted_post.unwrap();
    assert_eq!(third.id.as_deref(), Some("3"));
    assert!(third.quoted_post.is_none());
}

#[test]
fn facets_are_expanded_and_their_links_are_unique() {
    let value = parse_json(
        r#"{"id":"1","text":"a https://t.co/1 @b https://t.co/1","author":{},
            "raw_text":{"facets":[
                {"type":"mention","original":"@b","replacement":"https://no.example"},
                {"url":"https://t.co/1","expanded_url":"https://twitter.com/z"},
                {"type":"url","replacement":"https://x.com/z"},
                {"type":"url","replacement":"mailto:q"}
            ]}}"#,
    )
    .unwrap();
    let post = normalize_community_post(&value, 0).unwrap();
    assert_eq!(
        post.text,
        "a https://twitter.com/z @b https://twitter.com/z"
    );
    assert_eq!(post.links.len(), 1);
    assert_eq!(post.links[0].href, "https://x.com/z");
    assert_eq!(post.links[0].text, "https://x.com/z");
}

#[test]
fn tells_texts_of_nothing_but_urls() {
    assert!(is_only_urls(" https://a.example\nhttp://b.example "));
    assert!(!is_only_urls("https://a.example and text"));
    assert!(!is_only_urls("ftp://a.example"));
    assert!(!is_only_urls("  "));
}

#[test]
fn html_becomes_text() {
    assert_eq!(
        html_to_text("A&nbsp;&lt;b&gt; <b>bold</b><br/>\n next  <BR>end &#128640; "),
        "A <b> bold\n\n next\nend 🚀"
    );
    assert_eq!(tidy_text("a \u{a0}\r\nb\t\n"), "a\nb");
}

#[test]
fn anchors_are_read_from_html() {
    let anchors = extract_anchors(
        r#"<a class="c" href="https://a.example/?x=1&amp;y=2">one <i>two</i></a><A HREF='/status/'>x</A>"#,
    );
    assert_eq!(anchors.len(), 2);
    assert_eq!(anchors[0].href, "https://a.example/?x=1&y=2");
    assert_eq!(anchors[0].text, "one two");
    assert!(!status_link(&anchors[1].href));
    assert!(status_link("https://x.com/a/status/1"));
    assert!(!status_link("https://x.com/a/status/b/status/1"));
}

#[test]
fn oembed_answers_without_html_are_refused() {
    let error = normalize_oembed(&parse_json("{}").unwrap(), "1").unwrap_err();
    assert_eq!(error.message, "X oEmbed 返回了无法识别的数据。");
    let error = normalize_oembed(&parse_json(r#"{"html":"<b>x</b>"}"#).unwrap(), "1").unwrap_err();
    assert_eq!(error.message, "X oEmbed 响应里没有找到推文正文。");
    assert_eq!(error.hint.as_deref(), Some("X 可能修改了嵌入格式。"));
}

#[test]
fn oembed_posts_have_a_language_and_an_address() {
    let payload = parse_json(r#"{"html":"<P dir='ltr' lang='ja'>hi</P>"}"#).unwrap();
    let post = normalize_oembed(&payload, "20").unwrap();
    assert_eq!(post.lang.as_deref(), Some("ja"));
    assert_eq!(post.url.as_deref(), Some("https://x.com/i/status/20"));
    assert_eq!(post.text, "hi");
    assert_eq!(post.source, "x-oembed");
    assert_eq!(post.date_label, None);
}

#[test]
fn documents_are_parsed_or_refused() {
    assert!(parse_json("{").is_err());
    let value = parse_json(r#"{"a":[true,null,-2,18446744073709551615],"a2":"x"}"#).unwrap();
    let items = match value.get("a") {
        Some(Json::Array(items)) => items,
        _ => panic!("an array"),
    };
    assert!(matches!(items[0], Json::Bool(true)));
    assert!(matches!(items[1], Json::Null));
    assert!(matches!(&items[2], Json::Number(n) if n.unsigned.is_none()));
    assert!(matches!(&items[3], Json::Number(n) if n.unsigned == Some(u64::MAX)));
    assert!(value.get("b").is_none());
}

#[test]
fn every_short_link_gets_its_own_url() {
    let raw = parse_json(
        r#"{"facets":[
            {"type":"url","original":"https://t.co/a","replacement":"https://one.example"},
            {"type":"url","original":"https://t.co/ab","replacement":"https://two.example"},
            {"type":"mention","original":"@b","replacement":"never"}]}"#,
    )
    .unwrap();
    for (value, expected) in [
        ("https://t.co/a https://t.co/ab", "https://one.example https://two.example"),
        ("https://t.co/ab https://t.co/a.", "https://two.example https://one.example."),
        ("看https://t.co/a吧 https://t.co/abc @b", "看https://one.example吧 https://t.co/abc @b"),
        ("", ""),
    ] {
        assert_eq!(expand_community_text(value, Some(&raw)), expected);
    }
    assert_eq!(expand_community_text("https://t.co/a", None), "https://t.co/a");
}

#[test]
fn what_replaces_a_token_is_not_searched_again() {
    let pairs: Vec<(String, String)> = [("t.co/a", "t.co/b"), ("t.co/b", "end"), ("", "no"), ("t.co/a", "x")]
        .iter()
        .map(|(from, to)| ((*from).to_owned(), (*to).to_owned()))
        .collect();
    assert_eq!(expand_tokens("t.co/a t.co/b", &pairs), "t.co/b end");
    assert_eq!(expand_tokens("no tokens here", &pairs), "no tokens here");
    let nested = vec![
        ("t.co/a".to_owned(), "short".to_owned()),
        ("t.co/a?x".to_owned(), "long".to_owned()),
    ];
    assert_eq!(expand_tokens("t.co/a?x t.co/a?y", &nested), "long short?y");
}
