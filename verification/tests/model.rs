//! Options, qualities and the videos of a post.

use xread::video::variant_resolution;
use xread::{
    Author, ErrorKind, ErrorResponse, Media, MediaVariant, Post, ReadOptions, ReaderConfig, ReplyMode,
    SortMode, VideoQuality, XReadError, DEFAULT_LIMIT, DEFAULT_RETRIES, DEFAULT_TIMEOUT_MS, MAX_LIMIT,
};

#[test]
fn validates_options_at_public_boundary() {
    let mut options = ReadOptions {
        lang: "zh-cn".to_owned(),
        ..ReadOptions::default()
    };
    assert!(options.validate().is_ok());

    options.lang = "not_a_language".to_owned();
    assert!(options.validate().is_err());
}

#[test]
fn selects_one_highest_bitrate_url_per_video() {
    let video = Media {
        alt_text: None,
        duration_ms: None,
        height: None,
        preview_image_url: None,
        media_type: Some("video".to_owned()),
        url: Some("https://video.example/fallback.mp4".to_owned()),
        variants: vec![
            MediaVariant {
                bit_rate: None,
                content_type: Some("m3u8".to_owned()),
                url: "https://video.example/playlist.m3u8".to_owned(),
            },
            MediaVariant {
                bit_rate: Some(632_000),
                content_type: Some("mp4".to_owned()),
                url: "https://video.example/480x852/video.mp4".to_owned(),
            },
            MediaVariant {
                bit_rate: Some(2_176_000),
                content_type: Some("video/mp4".to_owned()),
                url: "https://video.example/720x1280/video.mp4".to_owned(),
            },
        ],
        width: None,
    };
    let photo = Media {
        media_type: Some("photo".to_owned()),
        url: Some("https://image.example/photo.jpg".to_owned()),
        ..video.clone()
    };
    let post = Post {
        article: None,
        author: Author::default(),
        conversation_id: None,
        created_at: None,
        date_label: None,
        id: Some("1".to_owned()),
        is_long_post: false,
        kind: "post".to_owned(),
        lang: None,
        links: Vec::new(),
        media: vec![video, photo],
        metrics: None,
        parent_id: None,
        possibly_sensitive: None,
        quoted_post: None,
        reposted_by: None,
        reposted_post: None,
        source: "test".to_owned(),
        text: String::new(),
        url: None,
    };

    assert_eq!(
        post.video_urls(),
        vec!["https://video.example/720x1280/video.mp4"]
    );
    assert_eq!(
        post.video_urls_with_quality(VideoQuality::Height(480)),
        vec!["https://video.example/480x852/video.mp4"]
    );
    assert_eq!(
        post.video_urls_with_quality(VideoQuality::Worst),
        vec!["https://video.example/480x852/video.mp4"]
    );
}

#[test]
fn parses_video_quality() {
    assert_eq!("best".parse(), Ok(VideoQuality::Best));
    assert_eq!("720p".parse(), Ok(VideoQuality::Height(720)));
    assert!("potato".parse::<VideoQuality>().is_err());
}

#[test]
fn never_returns_a_thumbnail_as_a_video_fallback() {
    let post = Post {
        article: None,
        author: Author::default(),
        conversation_id: None,
        created_at: None,
        date_label: None,
        id: Some("1".to_owned()),
        is_long_post: false,
        kind: "post".to_owned(),
        lang: None,
        links: Vec::new(),
        media: vec![Media {
            alt_text: None,
            duration_ms: None,
            height: None,
            preview_image_url: None,
            media_type: Some("video".to_owned()),
            url: Some("https://image.example/thumbnail.jpg".to_owned()),
            variants: Vec::new(),
            width: None,
        }],
        metrics: None,
        parent_id: None,
        possibly_sensitive: None,
        quoted_post: None,
        reposted_by: None,
        reposted_post: None,
        source: "test".to_owned(),
        text: String::new(),
        url: None,
    };

    assert!(post.video_urls().is_empty());
}

#[test]
fn refuses_options_out_of_range() {
    let mut options = ReadOptions::default();
    assert_eq!(options.limit, DEFAULT_LIMIT);
    assert_eq!(options.lang, "en");
    for limit in [0, MAX_LIMIT + 1] {
        options.limit = limit;
        let error = options.validate().unwrap_err();
        assert_eq!(error.kind, ErrorKind::InvalidInput);
        assert_eq!(error.message, "limit 必须在 1 到 1000 之间。");
    }
    options.limit = MAX_LIMIT;
    for lang in ["", "e", "zh-", "zh-abcdefghi", "zh_cn"] {
        options.lang = lang.to_owned();
        assert_eq!(
            options.validate().unwrap_err().message,
            "lang 需要语言代码，例如 en、zh-cn 或 ja。"
        );
    }
}

#[test]
fn refuses_settings_out_of_range() {
    let mut config = ReaderConfig::default();
    assert!(config.validate().is_ok());
    assert_eq!(config.timeout_ms, DEFAULT_TIMEOUT_MS);
    assert_eq!(config.retries, DEFAULT_RETRIES);
    for timeout_ms in [999, 120_001] {
        config.timeout_ms = timeout_ms;
        assert_eq!(
            config.validate().unwrap_err().message,
            "timeout 必须在 1000 到 120000 毫秒之间。"
        );
    }
    config.timeout_ms = 1_000;
    config.retries = 6;
    assert_eq!(
        config.validate().unwrap_err().message,
        "retries 必须在 0 到 5 之间。"
    );
}

#[test]
fn names_and_values_are_inverse() {
    for mode in [ReplyMode::Direct, ReplyMode::Thread] {
        assert_eq!(mode.as_str().parse(), Ok(mode));
    }
    assert_eq!("replies".parse(), Ok(ReplyMode::Direct));
    assert!("Direct".parse::<ReplyMode>().is_err());
    for sort in [SortMode::Relevance, SortMode::Recent] {
        assert_eq!(sort.as_str().parse(), Ok(sort));
    }
    assert_eq!(SortMode::default(), SortMode::Relevance);
    assert!("newest".parse::<SortMode>().is_err());
    for quality in [
        VideoQuality::Best,
        VideoQuality::Worst,
        VideoQuality::Height(144),
        VideoQuality::Height(4320),
    ] {
        assert_eq!(quality.to_text().parse(), Ok(quality));
    }
    assert_eq!(" 1080P ".parse(), Ok(VideoQuality::Height(1080)));
    for value in ["143", "4321", "p", "720pp", "-720"] {
        assert!(value.parse::<VideoQuality>().is_err());
    }
}

#[test]
fn errors_have_statuses() {
    for (error, status, kind) in [
        (XReadError::invalid_input("m"), 400, ErrorKind::InvalidInput),
        (XReadError::no_video("m"), 404, ErrorKind::NoVideo),
        (XReadError::upstream("m"), 502, ErrorKind::Upstream),
        (XReadError::invalid_response("m"), 502, ErrorKind::InvalidResponse),
        (XReadError::internal("m"), 500, ErrorKind::Internal),
    ] {
        assert_eq!(error.response_status(), status);
        assert_eq!(error.kind, kind);
        assert_eq!(error.message, "m");
        assert_eq!(error.hint, None);
    }
    let error = XReadError::upstream("m").with_hint("h").with_upstream_status(503);
    assert_eq!(error.upstream_status, Some(503));
    let response = ErrorResponse::from(&error);
    assert_eq!(response.error, "m");
    assert_eq!(response.hint, Some("h"));
}

fn variant(bit_rate: Option<u64>, url: &str) -> MediaVariant {
    MediaVariant {
        bit_rate,
        content_type: Some("video/mp4".to_owned()),
        url: url.to_owned(),
    }
}

fn video(variants: Vec<MediaVariant>) -> Media {
    Media {
        alt_text: None,
        duration_ms: None,
        height: None,
        preview_image_url: None,
        media_type: Some("video".to_owned()),
        url: None,
        variants,
        width: None,
    }
}

fn post_with(media: Vec<Media>) -> Post {
    Post {
        article: None,
        author: Author::default(),
        conversation_id: None,
        created_at: None,
        date_label: None,
        id: None,
        is_long_post: false,
        kind: "post".to_owned(),
        lang: None,
        links: Vec::new(),
        media,
        metrics: None,
        parent_id: None,
        possibly_sensitive: None,
        quoted_post: None,
        reposted_by: None,
        reposted_post: None,
        source: "test".to_owned(),
        text: String::new(),
        url: None,
    }
}

#[test]
fn a_height_takes_the_nearest_below() {
    let media = video(vec![
        variant(Some(1), "https://v.example/320x568/a.mp4"),
        variant(Some(2), "https://v.example/720x1280/b.mp4"),
        variant(Some(3), "https://v.example/1920x1080/c.mp4"),
    ]);
    for (height, expected) in [
        (1080, "https://v.example/1920x1080/c.mp4"),
        (1000, "https://v.example/720x1280/b.mp4"),
        (320, "https://v.example/320x568/a.mp4"),
        (144, "https://v.example/320x568/a.mp4"),
    ] {
        assert_eq!(
            media.video_url_with_quality(VideoQuality::Height(height)),
            Some(expected)
        );
    }
    let unsized_media = video(vec![
        variant(Some(1), "https://v.example/a.mp4"),
        variant(Some(2), "https://v.example/b.mp4"),
    ]);
    assert_eq!(
        unsized_media.video_url_with_quality(VideoQuality::Height(144)),
        Some("https://v.example/b.mp4")
    );
}

#[test]
fn videos_of_quoted_and_reposted_posts_follow_the_own_ones() {
    let clip = |name: &str| video(vec![variant(Some(1), &format!("https://v.example/{name}.mp4"))]);
    let mut inner = post_with(vec![clip("inner"), clip("own")]);
    inner.quoted_post = Some(Box::new(post_with(vec![clip("innermost")])));
    let mut post = post_with(vec![clip("own")]);
    post.quoted_post = Some(Box::new(inner));
    post.reposted_post = Some(Box::new(post_with(vec![clip("reposted"), clip("inner")])));
    assert_eq!(
        post.video_urls(),
        [
            "https://v.example/own.mp4",
            "https://v.example/inner.mp4",
            "https://v.example/innermost.mp4",
            "https://v.example/reposted.mp4",
        ]
    );
    assert_eq!(
        post.own_video_urls(VideoQuality::Best),
        ["https://v.example/own.mp4"]
    );
    let mut silent = post_with(Vec::new());
    silent.quoted_post = Some(Box::new(post_with(vec![clip("quoted")])));
    assert_eq!(silent.video_urls(), ["https://v.example/quoted.mp4"]);
}

#[test]
fn direct_mp4_files_stand_in_for_variants() {
    let mut media = video(Vec::new());
    media.url = Some("https://v.example/direct.MP4?tag=1".to_owned());
    assert_eq!(media.video_url(), Some("https://v.example/direct.MP4?tag=1"));
    media.media_type = Some("photo".to_owned());
    assert_eq!(media.video_url(), None);
}

#[test]
fn resolutions_are_read_from_urls() {
    assert_eq!(variant_resolution("https://v.example/720x1280/x.mp4"), Some(720));
    assert_eq!(variant_resolution("https://v.example/axb/1280x720/x.mp4"), Some(720));
    assert_eq!(variant_resolution("https://v.example/x.mp4"), None);
}
