//! The rules of the public service.

use xread::worker::{
    answers_help, content_type, find_input, invalid_config, operation, plan, route,
    select_video_urls, usage, worker_config, write_result, HttpMethod, Operation, Query, Route, Task,
    HELP,
};
use xread::{
    Author, ErrorKind, OutputFormat, Post, ReadResult, ReplyMode, SortMode, VideoQuality, XReadError,
    DEFAULT_LIMIT,
};

fn query() -> Query {
    Query {
        url: None,
        replies: None,
        limit: None,
        sort: None,
        lang: None,
        format: None,
        quality: None,
        video: None,
    }
}

fn some(value: &str) -> Option<String> {
    Some(value.to_owned())
}

#[test]
fn routes() {
    assert!(matches!(route(HttpMethod::Options, "/read"), Route::Preflight));
    assert!(matches!(route(HttpMethod::Get, "/health"), Route::Health));
    assert!(matches!(route(HttpMethod::Get, "/read"), Route::Serve));
    assert!(matches!(route(HttpMethod::Get, "/https://x.com/a/status/1"), Route::Serve));
    match route(HttpMethod::Other, "/read") {
        Route::Refuse(error, status) => {
            assert_eq!(status, 405);
            assert_eq!(error.message, "只支持 GET 请求。");
        }
        other => panic!("{other:?}"),
    }
}

#[test]
fn downloads_are_refused_on_values() {
    match route(HttpMethod::Get, "/download") {
        Route::Refuse(error, status) => {
            assert_eq!(status, 400);
            assert_eq!(
                error.message,
                "Worker 不代理视频文件；请使用 /videos 获取直链，或用 CLI 的 --download。"
            );
        }
        other => panic!("{other:?}"),
    }
}

#[test]
fn inputs_from_parameters_and_paths() {
    assert_eq!(find_input(&query(), "/"), None);
    assert_eq!(find_input(&query(), "/read"), None);
    assert_eq!(find_input(&query(), "//videos"), None);
    assert_eq!(
        find_input(&query(), "/https://x.com/a/status/1").as_deref(),
        Some("https://x.com/a/status/1")
    );
    let mut given = query();
    given.url = some("20");
    assert_eq!(find_input(&given, "/other").as_deref(), Some("20"));
    assert_eq!(operation("/"), Operation::Read);
    assert_eq!(operation("/read"), Operation::Read);
    assert_eq!(operation("/videos"), Operation::Videos);
    assert_eq!(operation("/20"), Operation::Videos);
}

#[test]
fn inputs_in_the_path_ask_for_videos_on_values() {
    match plan(&query(), "/https://x.com/a/status/1").unwrap() {
        Task::Videos(quality, format) => {
            assert_eq!(quality, VideoQuality::Best);
            assert_eq!(format, OutputFormat::Json);
        }
        other => panic!("{other:?}"),
    }
}

#[test]
fn tasks_of_readings() {
    let mut given = query();
    given.replies = some("replies");
    given.sort = some("recent");
    given.lang = some("ZH-cn");
    given.format = some("md");
    match plan(&given, "/read").unwrap() {
        Task::Read(options, format) => {
            assert_eq!(options.reply_mode, Some(ReplyMode::Direct));
            assert_eq!(options.sort, SortMode::Recent);
            assert_eq!(options.limit, DEFAULT_LIMIT);
            assert_eq!(options.lang, "zh-cn");
            assert_eq!(format, OutputFormat::Markdown);
        }
        other => panic!("{other:?}"),
    }
    given.replies = some("all");
    assert_eq!(
        plan(&given, "/read").unwrap_err().message,
        "replies 只接受 direct、replies 或 thread。"
    );
    given.replies = None;
    given.limit = Some(1_001);
    assert_eq!(
        plan(&given, "/read").unwrap_err().message,
        "limit 必须在 1 到 1000 之间。"
    );
    given.limit = None;
    given.sort = some("x");
    assert_eq!(
        plan(&given, "/read").unwrap_err().message,
        "sort 只接受 relevance 或 recent。"
    );
    given.sort = None;
    given.video = Some(1);
    assert_eq!(
        plan(&given, "/read").unwrap_err().message,
        "quality 和 video 只适用于 /videos；CLI 下载请使用 --download。"
    );
    given.format = some("xml");
    assert_eq!(
        plan(&given, "/read").unwrap_err().message,
        "format 只接受 markdown、text、json 或 human。"
    );
}

#[test]
fn tasks_of_videos() {
    let mut given = query();
    given.quality = some("720");
    given.format = some("txt");
    match plan(&given, "/videos").unwrap() {
        Task::Videos(quality, format) => {
            assert_eq!(quality, VideoQuality::Height(720));
            assert_eq!(format, OutputFormat::Text);
        }
        other => panic!("{other:?}"),
    }
    given.quality = some("tiny");
    assert!(plan(&given, "/videos").is_err());
    let urls = vec!["one".to_owned(), "two".to_owned()];
    assert_eq!(select_video_urls(urls.clone(), Some(2)).unwrap(), ["two"]);
    assert_eq!(select_video_urls(urls.clone(), None).unwrap(), ["one", "two"]);
    assert_eq!(
        select_video_urls(urls.clone(), Some(0)).unwrap_err().message,
        "video 从 1 开始计数，例如 video=1。"
    );
    assert_eq!(
        select_video_urls(urls, Some(3)).unwrap_err().message,
        "video=3 超出范围；这条推文共有 2 个视频。"
    );
}

#[test]
fn the_root_explains_itself() {
    let mut given = query();
    assert!(answers_help(&given, "/"));
    assert!(!answers_help(&given, "/read"));
    given.format = some("JSON");
    assert!(!answers_help(&given, "/"));
    given.format = some("text");
    assert!(answers_help(&given, "/"));
    for word in ["/read", "/videos", "/health", "replies", "quality", "format", "Examples"] {
        assert!(HELP.contains(word));
    }
    let usage = usage();
    assert_eq!(usage.service, "xread");
    assert_eq!(usage.formats, ["json", "markdown", "text", "human"]);
    assert_eq!(usage.reply_modes, ["direct", "thread"]);
}

#[test]
fn settings_from_the_deployment() {
    let config = worker_config(None, None, None).unwrap();
    assert_eq!((config.timeout_ms, config.retries), (12_000, 2));
    let config = worker_config(some("https://h.example"), Some("5000"), Some("0")).unwrap();
    assert_eq!(config.community_base_url, "https://h.example");
    assert_eq!((config.timeout_ms, config.retries), (5_000, 0));
    let error = worker_config(None, Some("soon"), None).unwrap_err();
    assert_eq!(error.kind, ErrorKind::Internal);
    assert_eq!(error.message, "Worker 环境变量 XREAD_TIMEOUT_MS 必须是非负整数。");
    assert_eq!(
        worker_config(None, None, Some("256")).unwrap_err().message,
        "XREAD_RETRIES 超出 u8 范围。"
    );
    assert_eq!(
        worker_config(None, None, Some("6")).unwrap_err().message,
        "Worker 环境变量配置无效：retries 必须在 0 到 5 之间。"
    );
    assert_eq!(
        invalid_config(&XReadError::invalid_input("m")).message,
        "Worker 配置无效：m"
    );
}

#[test]
fn answers_by_format() {
    let result = ReadResult {
        post: Post {
            article: None,
            author: Author::default(),
            conversation_id: None,
            created_at: None,
            date_label: None,
            id: None,
            is_long_post: false,
            kind: "post".to_owned(),
            lang: None,
            links: Vec::new(),
            media: Vec::new(),
            metrics: None,
            parent_id: None,
            possibly_sensitive: None,
            quoted_post: None,
            reposted_by: None,
            reposted_post: None,
            source: "test".to_owned(),
            text: "body".to_owned(),
            url: None,
        },
        replies: Vec::new(),
        reply_info: None,
        warnings: Vec::new(),
    };
    assert_eq!(write_result(&result, OutputFormat::Json), None);
    assert_eq!(write_result(&result, OutputFormat::Text).as_deref(), Some("body"));
    assert_eq!(
        write_result(&result, OutputFormat::Markdown).as_deref(),
        Some("body\n\n_unknown author_")
    );
    assert!(write_result(&result, OutputFormat::Human).unwrap().contains("来源：test"));
    assert_eq!(content_type(OutputFormat::Markdown), "text/markdown; charset=utf-8");
    assert_eq!(content_type(OutputFormat::Human), "text/plain; charset=utf-8");
}
