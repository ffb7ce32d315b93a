//! Requests, retries and readings.

use std::time::Duration;

use xread::bridge::{parse_json, UrlParts};
use xread::client::{
    fetch_oembed, media_post, video_urls_from, video_urls_of, Fetch, ReadStep, Reading,
};
use xread::conversation::read_conversation;
use xread::json::Json;
use xread::transport::{
    delay_after, describe_http_error, format_error_details, retry_delay, retryable_status,
    upstream_http_error, HttpOutcome, Next,
};
use xread::{
    ErrorKind, ReadOptions, ReadResult, ReaderConfig, ReplyMode, SortMode, VideoQuality, XReadError,
    XReader,
};

#[test]
fn retry_policy_is_bounded() {
    assert!(retryable_status(429));
    assert!(retryable_status(503));
    assert!(!retryable_status(404));
    assert_eq!(Duration::from_millis(retry_delay(None, 0)), Duration::from_millis(400));
    assert_eq!(Duration::from_millis(retry_delay(None, 5)), Duration::from_millis(2_000));
    assert_eq!(Duration::from_millis(retry_delay(Some("9"), 0)), Duration::from_millis(5_000));
}

fn json(source: &str) -> Json {
    parse_json(source).unwrap()
}

fn reader() -> XReader {
    XReader::new(ReaderConfig::default()).unwrap()
}

fn answered(status: u16, retry_after: Option<&str>, body: &str) -> HttpOutcome {
    HttpOutcome::Answered {
        status,
        retry_after: retry_after.map(str::to_owned),
        body: body.to_owned(),
    }
}

fn failure(next: Next) -> XReadError {
    match next {
        Next::Finish(Err(error)) => error,
        Next::Finish(Ok(_)) => panic!("a document"),
        Next::Retry(delay) => panic!("a retry after {delay}"),
    }
}

fn delay(next: Next) -> u64 {
    match next {
        Next::Retry(delay) => delay,
        Next::Finish(_) => panic!("an end"),
    }
}

#[test]
fn delays_follow_the_header_or_double() {
    for (attempt, expected) in [(0, 400), (1, 800), (2, 1_600), (3, 2_000), (63, 2_000)] {
        assert_eq!(retry_delay(None, attempt), expected);
        assert_eq!(retry_delay(Some("Wed, 21 Oct 2015 07:28:00 GMT"), attempt), expected);
    }
    for (header, expected) in [
        ("0", 0),
        ("1.25", 1_250),
        ("-3", 0),
        ("nan", 0),
        ("inf", 5_000),
        ("1e9", 5_000),
    ] {
        assert_eq!(retry_delay(Some(header), 0), expected);
    }
    assert_eq!(delay_after(Some(2.5_f64.to_bits()), 9), 2_500);
    for status in [408, 425, 429, 500, 599] {
        assert!(retryable_status(status));
    }
    for status in [200, 400, 404, 499, 600] {
        assert!(!retryable_status(status));
    }
}

#[test]
fn a_request_is_repeated_while_it_may_be() {
    let reader = reader();
    assert_eq!(reader.retries(), 2);
    assert_eq!(delay(reader.after_attempt("S", 0, HttpOutcome::TimedOut)), 400);
    assert_eq!(delay(reader.after_attempt("S", 1, answered(503, Some("2"), ""))), 2_000);
    let error = failure(reader.after_attempt("S", 2, HttpOutcome::TimedOut));
    assert_eq!(error.message, "S超时（12000ms）。");
    assert_eq!(error.hint.as_deref(), Some("检查网络后重试，或增大超时时间。"));
    let error = failure(reader.after_attempt("S", 2, HttpOutcome::Failed("no route".to_owned())));
    assert_eq!(error.message, "S网络错误：no route");
    let error = failure(reader.after_attempt(
        "S",
        2,
        HttpOutcome::Unreadable {
            retry_after: None,
            error: "cut".to_owned(),
        },
    ));
    assert_eq!(error.message, "无法读取 S 响应：cut");
    assert_eq!(failure(reader.after_attempt("S", 0, answered(404, None, ""))).upstream_status, Some(404));
}

#[test]
fn successful_answers_are_documents() {
    let reader = reader();
    match reader.after_attempt("S", 0, answered(200, None, r#"{"a":1}"#)) {
        Next::Finish(Ok(value)) => assert!(value.get("a").is_some()),
        _ => panic!("a document"),
    }
    let error = failure(reader.after_attempt("S", 0, answered(200, None, "<html>")));
    assert_eq!(error.kind, ErrorKind::InvalidResponse);
    assert!(error.message.starts_with("S 返回的不是有效 JSON："));
}

#[test]
fn errors_of_services_are_described() {
    let error = upstream_http_error("S", 404, r#"{"errors":[{"detail":"gone"},{},{"title":"t"},"x"]}"#);
    assert_eq!(error.message, "S失败（HTTP 404）：gone；t；x");
    assert_eq!(
        error.hint.as_deref(),
        Some("推文可能不存在、已删除、受保护，或链接不可嵌入。")
    );
    let error = upstream_http_error("S", 429, r#"{"message":"slow down"}"#);
    assert_eq!(error.message, "S失败（HTTP 429）：slow down");
    assert_eq!(error.hint.as_deref(), Some("上游触发速率限制，请稍后重试。"));
    let error = upstream_http_error("S", 500, "  ");
    assert_eq!(error.message, "S失败（HTTP 500）");
    assert_eq!(error.hint, None);
    let long = "é".repeat(200);
    let error = upstream_http_error("S", 500, &long);
    assert_eq!(error.message, format!("S失败（HTTP 500）：{}", "é".repeat(180)));
    let error = describe_http_error("S", 500, Some(&json(r#"{"code":1}"#)), "body");
    assert_eq!(error.message, "S失败（HTTP 500）：body");
    assert_eq!(format_error_details(&json(r#"{"errors":{"errors":"deep"}}"#)), "deep");
}

#[test]
fn readers_need_a_web_address() {
    let config = |base: &str| ReaderConfig {
        community_base_url: base.to_owned(),
        ..ReaderConfig::default()
    };
    let error = XReader::new(config("not a url")).unwrap_err();
    assert!(error.message.starts_with("community base 需要有效的 http(s) URL"));
    let error = XReader::new(config("ftp://host/2")).unwrap_err();
    assert_eq!(error.message, "community base 只接受 http(s) URL。");
    let mut invalid = config("https://host/2");
    invalid.retries = 6;
    assert_eq!(
        XReader::new(invalid).unwrap_err().message,
        "retries 必须在 0 到 5 之间。"
    );
    let base = UrlParts {
        href: "https://parsed.example/".to_owned(),
        scheme: "https".to_owned(),
        host: None,
        segments: None,
    };
    let reader = XReader::from_parts(config("ignored"), Some(base)).unwrap();
    assert_eq!(reader.fetch_post("1").unwrap().url, "https://parsed.example/status/1");
    assert_eq!(reader.timeout_ms(), 12_000);
}

#[test]
fn a_slash_at_the_end_of_the_base_makes_no_difference() {
    for base in ["https://host.example/2", "https://host.example/2/", "https://host.example/2//"] {
        let reader = XReader::new(ReaderConfig {
            community_base_url: base.to_owned(),
            ..ReaderConfig::default()
        })
        .unwrap();
        assert_eq!(
            reader.fetch_post("20").unwrap().url,
            "https://host.example/2/status/20"
        );
        assert_eq!(
            reader.clone().fetch_conversation("20", "likes").unwrap().url,
            "https://host.example/2/conversation/20?ranking_mode=likes"
        );
    }
    assert_eq!(
        fetch_oembed("https://x.com/i/status/20", "zh-cn").unwrap().url,
        "https://publish.x.com/oembed?url=https%3A%2F%2Fx.com%2Fi%2Fstatus%2F20&omit_script=true&hide_thread=true&dnt=true&lang=zh-cn"
    );
}

fn expect_fetch(step: ReadStep) -> (Reading, Fetch) {
    match step {
        ReadStep::Fetch(reading, fetch) => (reading, fetch),
        ReadStep::Done(Ok(_)) => panic!("a result"),
        ReadStep::Done(Err(error)) => panic!("{}", error.message),
    }
}

fn expect_done(step: ReadStep) -> Result<ReadResult, XReadError> {
    match step {
        ReadStep::Done(result) => result,
        ReadStep::Fetch(_, fetch) => panic!("{}", fetch.url),
    }
}

const POST: &str = r#"{"status":{"id":"20","text":"hi","author":{},"replies":5}}"#;
const EMBED: &str = r#"{"html":"<p>embedded</p>"}"#;

#[test]
fn structured_data_is_preferred_on_values() {
    let (reading, fetch) = expect_fetch(reader().start("20", &ReadOptions::default()));
    assert_eq!(fetch.url, "https://api.fxtwitter.com/2/status/20");
    assert_eq!(fetch.label, "FxTwitter 免费结构化源");
    let result = expect_done(reading.resume(Ok(json(POST)))).unwrap();
    assert_eq!(result.post.text, "hi");
    assert!(result.reply_info.is_none());
    assert!(result.warnings.is_empty());
}

#[test]
fn failures_fall_back_on_values() {
    let (reading, _) = expect_fetch(reader().start("20", &ReadOptions::default()));
    let (reading, fetch) = expect_fetch(reading.resume(Err(XReadError::upstream("down"))));
    assert_eq!(fetch.label, "X oEmbed");
    let result = expect_done(reading.resume(Ok(json(EMBED)))).unwrap();
    assert_eq!(result.post.text, "embedded");
    assert_eq!(
        result.warnings,
        ["免费结构化源暂时不可用，已退回 X oEmbed；长推文、Article、引用和媒体信息可能不完整：down"]
    );
}

#[test]
fn both_errors_are_told_on_values() {
    let (reading, _) = expect_fetch(reader().start("20", &ReadOptions::default()));
    let (reading, _) = expect_fetch(reading.resume(Ok(json("{}"))));
    let error = expect_done(reading.resume(Err(XReadError::upstream("also down")))).unwrap_err();
    assert_eq!(error.kind, ErrorKind::Upstream);
    assert_eq!(
        error.message,
        "免费结构化源与 oEmbed 都无法读取该推文：FxTwitter 没有返回目标推文。；also down"
    );
}

#[test]
fn bad_options_and_inputs_end_a_reading_at_once() {
    let options = ReadOptions {
        limit: 0,
        ..ReadOptions::default()
    };
    assert!(expect_done(reader().start("20", &options)).is_err());
    assert!(expect_done(reader().start("nothing", &ReadOptions::default())).is_err());
}

fn with_replies(mode: ReplyMode, limit: usize) -> ReadOptions {
    ReadOptions {
        reply_mode: Some(mode),
        limit,
        sort: SortMode::Recent,
        ..ReadOptions::default()
    }
}

const CONVERSATION: &str = r#"{
    "status":{"id":"20","text":"hi","author":{},"replies":5},
    "thread":[{"id":"20","text":"hi","author":{}},{"id":"19","text":"up","author":{}}],
    "replies":[
        {"id":"21","text":"a","author":{},"replying_to":{"status":"20"}},
        {"id":"22","text":"b","author":{},"replying_to":{"status":"21"}},
        {"id":"21","text":"again","author":{},"replying_to":{"status":"20"}},
        {"bad":true},
        {"id":"23","text":"c","author":{},"replying_to":{"status":"20"}}
    ]
}"#;

fn ids(result: &ReadResult) -> Vec<&str> {
    result.replies.iter().filter_map(|reply| reply.id.as_deref()).collect()
}

#[test]
fn direct_replies_answer_the_post() {
    let (reading, fetch) = expect_fetch(reader().start("20", &with_replies(ReplyMode::Direct, 20)));
    assert_eq!(
        fetch.url,
        "https://api.fxtwitter.com/2/conversation/20?ranking_mode=recency"
    );
    let result = expect_done(reading.resume(Ok(json(CONVERSATION)))).unwrap();
    assert_eq!(ids(&result), ["21", "23"]);
    let info = result.reply_info.unwrap();
    assert_eq!(info.available_count, Some(5));
    assert_eq!(info.count, 2);
    assert_eq!(info.mode, "direct");
    assert_eq!(info.sort, "recent");
    assert!(info.truncated);
    assert_eq!(info.error, None);
    assert_eq!(
        result.warnings,
        ["免费回复由第三方 FxTwitter 提供，只包含首批精选/最新评论，不保证完整。"]
    );
}

#[test]
fn threads_keep_their_order_and_the_limit() {
    let payload = json(CONVERSATION);
    let all = read_conversation(&payload, "20", Some(ReplyMode::Thread), 20).unwrap();
    let found: Vec<_> = all.replies.iter().filter_map(|reply| reply.id.as_deref()).collect();
    assert_eq!(found, ["19", "21", "22", "23"]);
    let some = read_conversation(&payload, "20", Some(ReplyMode::Thread), 2).unwrap();
    assert_eq!(some.count, 2);
    assert_eq!(some.replies[1].id.as_deref(), Some("21"));
}

#[test]
fn a_cursor_says_that_there_is_more() {
    for (cursor, truncated) in [
        (r#""next""#, true),
        (r#""""#, false),
        ("0", false),
        ("null", false),
        ("{}", true),
        ("false", false),
        ("0.5", true),
    ] {
        let payload = json(&format!(
            r#"{{"status":{{"id":"20","text":"hi","author":{{}}}},"cursor":{{"bottom":{cursor}}}}}"#
        ));
        let conversation = read_conversation(&payload, "20", None, 20).unwrap();
        assert_eq!(conversation.truncated, truncated, "{cursor}");
    }
}

#[test]
fn missing_replies_are_told() {
    let (reading, _) = expect_fetch(reader().start("20", &with_replies(ReplyMode::Thread, 7)));
    let (reading, _) = expect_fetch(reading.resume(Err(XReadError::upstream("down"))));
    let result = expect_done(reading.resume(Ok(json(EMBED)))).unwrap();
    let info = result.reply_info.unwrap();
    assert_eq!(info.error.as_deref(), Some("FxTwitter 免费结构化源不可用"));
    assert!(info.truncated);
    assert_eq!((info.count, info.limit), (0, 7));
    assert_eq!(
        result.warnings,
        ["免费回复源暂时不可用，已通过 X oEmbed 返回主推文：down"]
    );
}

#[test]
fn media_have_no_fallback() {
    let reader = reader();
    assert_eq!(
        reader.media_request("20").unwrap().url,
        "https://api.fxtwitter.com/2/status/20"
    );
    assert!(reader.media_request("").is_err());
    assert_eq!(media_post(Err(XReadError::upstream("down"))).unwrap_err().message, "down");
    let post = media_post(Ok(json(POST))).unwrap();
    let error = video_urls_of(&post, VideoQuality::Best).unwrap_err();
    assert_eq!(error.kind, ErrorKind::NoVideo);
    assert_eq!(error.message, "该推文中没有找到可下载的视频。");
    let error = media_post(Ok(json(r#"{"status":{}}"#))).unwrap_err();
    assert_eq!(error.message, "FxTwitter 没有返回目标推文。");
}

#[test]
fn videos_or_the_reason_on_values() {
    let failed = XReadError::upstream("down");
    let error = video_urls_from(Err(failed), VideoQuality::Best).unwrap_err();
    assert_eq!(error.kind, ErrorKind::Upstream);
    assert_eq!(error.message, "down");
    let odd = video_urls_from(Ok(json("{}")), VideoQuality::Best).unwrap_err();
    assert_eq!(odd.kind, ErrorKind::InvalidResponse);
    let bare = json(r#"{"status":{"id":"1","text":"a","author":{}}}"#);
    let none = video_urls_from(Ok(bare), VideoQuality::Best).unwrap_err();
    assert_eq!(none.kind, ErrorKind::NoVideo);
    assert_eq!(none.message, "该推文中没有找到可下载的视频。");
    let filmed = json(
        r#"{"status":{"id":"1","text":"a","author":{},"media":{"all":[
            {"type":"video","url":"https://v.example/a.mp4"}]}}}"#,
    );
    assert_eq!(
        video_urls_from(Ok(filmed), VideoQuality::Best).unwrap(),
        vec!["https://v.example/a.mp4".to_owned()]
    );
}

#[test]
fn no_wanted_reply_is_left_out_below_the_limit() {
    let payload = json(
        r#"{"status":{"id":"1","text":"a","author":{}},"replies":[
            {"id":"2","text":"b","author":{},"replying_to":{"status":"1"}},
            {"id":"3","text":"c","author":{}},
            {"id":"2","text":"again","author":{}},
            {"id":"1","text":"itself","author":{}},
            {"text":"no id","author":{}},
            {"id":"4","text":"d","author":{}}]}"#,
    );
    let conversation = read_conversation(&payload, "1", Some(ReplyMode::Thread), 10).unwrap();
    let ids: Vec<Option<&str>> = conversation
        .replies
        .iter()
        .map(|reply| reply.id.as_deref())
        .collect();
    assert_eq!(ids, vec![Some("2"), Some("3"), Some("4")]);
    assert_eq!(conversation.replies[0].text, "b");
}
