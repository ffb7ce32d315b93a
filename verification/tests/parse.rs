//! References to posts.

use xread::bridge::UrlParts;
use xread::parse::{list_candidates, reference_from_url, reference_from_urls};
use xread::{parse_post_reference, ErrorKind};

#[test]
fn parses_id_and_common_url_forms() {
    let id = "463440424141459456";
    assert_eq!(parse_post_reference(id).unwrap().id, id);

    let reference = parse_post_reference(&format!(
        "看看这个：https://twitter.com/Interior/status/{id}?s=20)"
    ))
    .unwrap();
    assert_eq!(reference.id, id);
    assert_eq!(reference.username.as_deref(), Some("Interior"));
    assert_eq!(reference.url, format!("https://x.com/Interior/status/{id}"));

    assert_eq!(
        parse_post_reference(&format!("x.com/i/status/{id}"))
            .unwrap()
            .username,
        None
    );
}

#[test]
fn rejects_lookalike_hosts_and_non_numeric_ids() {
    assert!(parse_post_reference("https://notx.com/user/status/123").is_err());
    assert!(parse_post_reference("https://x.com/user/status/nope").is_err());
}

#[test]
fn finds_a_url_inside_a_text() {
    let reference =
        parse_post_reference("read <https://mobile.x.com/Ada/statuses/20/photo/1>, please").unwrap();
    assert_eq!(reference.id, "20");
    assert_eq!(reference.username.as_deref(), Some("Ada"));
    assert_eq!(reference.url, "https://x.com/Ada/status/20");
    assert_eq!(
        reference.original,
        "read <https://mobile.x.com/Ada/statuses/20/photo/1>, please"
    );
}

#[test]
fn adds_a_scheme_where_it_is_missing() {
    for input in ["X.com/ada/status/7", "www.twitter.com/ada/status/7", "twitter.com/ada/status/7."] {
        assert_eq!(parse_post_reference(input).unwrap().id, "7");
    }
}

#[test]
fn refuses_inputs_without_a_post() {
    let missing = parse_post_reference("   ").unwrap_err();
    assert_eq!(missing.kind, ErrorKind::InvalidInput);
    assert_eq!(missing.message, "缺少 X 推文链接或推文 ID。");
    for input in [
        "https://x.com/ada",
        "https://x.com/ada/status/",
        "https://example.com/status/1",
        "12345678901234567890",
        "ftp",
    ] {
        let error = parse_post_reference(input).unwrap_err();
        assert_eq!(error.message, "无法识别这个 X 推文链接或 ID。");
        assert!(error.hint.is_some());
    }
}

#[test]
fn references_are_canonical_on_values() {
    for input in ["20", "https://x.com/i/status/20", "https://twitter.com/i/web/status/20"] {
        let reference = parse_post_reference(input).unwrap();
        assert_eq!(reference.username, None);
        assert_eq!(reference.url, "https://x.com/i/status/20");
    }
}

#[test]
fn reads_a_reference_from_the_parts_of_a_url() {
    let parts = UrlParts {
        href: "https://X.COM/Ada/status/42".to_owned(),
        scheme: "https".to_owned(),
        host: Some("X.COM".to_owned()),
        segments: Some(vec!["Ada".to_owned(), "STATUS".to_owned(), "42".to_owned()]),
    };
    let reference = reference_from_url(&Some(parts.clone()), "given").unwrap();
    assert_eq!(reference.id, "42");
    assert_eq!(reference.original, "given");
    let foreign = UrlParts {
        host: Some("notx.com".to_owned()),
        ..parts
    };
    assert!(reference_from_url(&Some(foreign.clone()), "given").is_err());
    assert!(reference_from_url(&None, "given").is_err());
}

#[test]
fn a_foreign_url_before_the_post_does_not_hide_it() {
    let input = "https://example.com/ https://x.com/a/status/1";
    let reference = parse_post_reference(input).unwrap();
    assert_eq!(reference.id, "1");
    assert_eq!(reference.username.as_deref(), Some("a"));
    assert_eq!(reference.url, "https://x.com/a/status/1");
    assert_eq!(reference.original, input);

    let first = parse_post_reference("https://x.com/a/status/1 https://x.com/b/status/2").unwrap();
    assert_eq!(first.id, "1");
    let error = parse_post_reference("https://example.com/ https://example.org/status/1").unwrap_err();
    assert_eq!(error.message, "无法识别这个 X 推文链接或 ID。");
}

#[test]
fn candidates_are_the_urls_found_or_the_whole_input() {
    let found = vec!["https://a.example/),".to_owned(), "X.com/b".to_owned()];
    assert_eq!(
        list_candidates(&found, "ignored"),
        vec!["https://a.example/".to_owned(), "https://X.com/b".to_owned()]
    );
    assert_eq!(
        list_candidates(&Vec::new(), "twitter.com/a."),
        vec!["https://twitter.com/a".to_owned()]
    );
}

#[test]
fn the_first_url_that_refers_to_a_post_decides() {
    let part = |host: &str, id: &str| {
        Some(UrlParts {
            href: String::new(),
            scheme: "https".to_owned(),
            host: Some(host.to_owned()),
            segments: Some(vec!["u".to_owned(), "status".to_owned(), id.to_owned()]),
        })
    };
    let urls = vec![None, part("example.com", "1"), part("x.com", "2"), part("x.com", "3")];
    assert_eq!(reference_from_urls(urls, "given").unwrap().id, "2");
    assert!(reference_from_urls(vec![None, part("x.com", "no")], "given").is_err());
    assert!(reference_from_urls(Vec::new(), "given").is_err());
}

#[test]
fn addresses_are_read_back_on_values() {
    for input in [
        "20",
        "look: https://twitter.com/Ada_9/status/42?s=1)",
        "https://x.com/i/status/7",
        "https://x.com/_/status/1",
    ] {
        let reference = parse_post_reference(input).unwrap();
        let again = parse_post_reference(&reference.url).unwrap();
        assert_eq!(again.id, reference.id);
        assert_eq!(again.username, reference.username);
        assert_eq!(again.url, reference.url);
        assert_eq!(again.original, reference.url);
    }
}
