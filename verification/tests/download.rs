//! Plans and transfers.

use xread::download::{
    check_destination, check_destinations, check_request, download_file_name, plan_downloads,
    plan_transfers, safe_component, temporary_name, Phase, PlannedVideo, Target, Transfer,
    TransferAction, TransferEvent,
};
use xread::video::select_videos;
use xread::{
    parse_post_reference, Author, DownloadEvent, DownloadOptions, DownloadedVideo, ErrorKind, Media,
    Post, VideoQuality, XReadError,
};

#[test]
fn selects_one_based_video_or_all() {
    let urls = vec!["one".to_owned(), "two".to_owned()];
    assert_eq!(
        select_videos(&urls, None).unwrap(),
        vec![(1, "one"), (2, "two")]
    );
    assert_eq!(select_videos(&urls, Some(2)).unwrap(), vec![(2, "two")]);
    assert!(select_videos(&urls, Some(3)).is_err());
    assert!(select_videos(&urls, Some(0)).is_err());
}

#[test]
fn creates_predictable_safe_file_names() {
    assert_eq!(
        download_file_name("rust_lang", "123", 2),
        "rust_lang-123-2.mp4"
    );
    assert_eq!(download_file_name("../中文", "123", 1), "x-123-1.mp4");
}

fn done(transfer: &mut Transfer, event: TransferEvent) -> (Option<DownloadEvent>, TransferAction) {
    assert!(transfer.expects(&event));
    transfer.advance(event)
}

fn target(index: usize, name: &str, present: Result<bool, String>) -> Target {
    Target {
        video: PlannedVideo {
            index,
            url: format!("https://v.example/{index}.mp4"),
            file_name: format!("{name}.mp4"),
        },
        destination: format!("out/{name}.mp4"),
        temporary: format!("out/.{name}.part"),
        present,
    }
}

fn transfer(force: bool) -> Transfer {
    plan_transfers(&vec![target(1, "a", Ok(false))], force)
        .unwrap()
        .remove(0)
}

fn responded(status: u16, content_type: Option<&str>, total: Option<u64>) -> TransferEvent {
    TransferEvent::Responded {
        status,
        content_type: content_type.map(str::to_owned),
        total,
    }
}

fn fail(action: TransferAction) -> XReadError {
    match action {
        TransferAction::Fail(error) => error,
        other => panic!("{other:?}"),
    }
}

#[test]
fn a_whole_video_is_renamed() {
    let mut work = transfer(false);
    let (report, action) = done(&mut work, responded(200, Some("video/mp4"), Some(5)));
    assert!(matches!(action, TransferAction::Create));
    assert_eq!(
        report,
        Some(DownloadEvent::Started {
            index: 1,
            path: "out/a.mp4".to_owned(),
            total_bytes: Some(5)
        })
    );
    assert!(matches!(done(&mut work, TransferEvent::Done).1, TransferAction::Receive));
    for (bytes, written) in [(2, 2), (3, 5)] {
        assert!(matches!(done(&mut work, TransferEvent::Chunk(bytes)).1, TransferAction::Write));
        let (report, action) = done(&mut work, TransferEvent::Done);
        assert!(matches!(action, TransferAction::Receive));
        assert_eq!(
            report,
            Some(DownloadEvent::Progress {
                index: 1,
                downloaded_bytes: written,
                total_bytes: Some(5)
            })
        );
    }
    assert!(matches!(done(&mut work, TransferEvent::Ended).1, TransferAction::Flush));
    assert!(matches!(done(&mut work, TransferEvent::Done).1, TransferAction::Rename));
    let (report, action) = done(&mut work, TransferEvent::Done);
    assert_eq!(
        report,
        Some(DownloadEvent::Finished {
            index: 1,
            path: "out/a.mp4".to_owned(),
            bytes: 5
        })
    );
    match action {
        TransferAction::Finish(video) => assert_eq!(
            video,
            DownloadedVideo {
                index: 1,
                source_url: "https://v.example/1.mp4".to_owned(),
                path: "out/a.mp4".to_owned(),
                bytes: 5
            }
        ),
        other => panic!("{other:?}"),
    }
    assert!(!work.expects(&TransferEvent::Done));
}

fn receiving(force: bool, total: Option<u64>) -> Transfer {
    let mut work = transfer(force);
    done(&mut work, responded(206, None, total));
    done(&mut work, TransferEvent::Done);
    done(&mut work, TransferEvent::Chunk(2));
    done(&mut work, TransferEvent::Done);
    work
}

#[test]
fn an_incomplete_video_is_not_renamed() {
    let mut work = receiving(true, Some(3));
    let error = fail(done(&mut work, TransferEvent::Ended).1);
    assert_eq!(error.message, "视频下载不完整：预期 3 字节，实际收到 2 字节。");
    assert!(!work.expects(&TransferEvent::Done));
}

#[test]
fn an_old_file_goes_only_when_the_new_one_is_whole() {
    for present in [true, false] {
        let mut work = receiving(true, None);
        assert!(matches!(done(&mut work, TransferEvent::Ended).1, TransferAction::Flush));
        assert!(matches!(done(&mut work, TransferEvent::Done).1, TransferAction::Look));
        let (_, action) = done(&mut work, TransferEvent::Present(present));
        if present {
            assert!(matches!(action, TransferAction::RemoveOld));
            assert!(matches!(done(&mut work, TransferEvent::Done).1, TransferAction::Rename));
        } else {
            assert!(matches!(action, TransferAction::Rename));
        }
    }
}

#[test]
fn every_failure_has_its_message() {
    let failed = || TransferEvent::Failed("why".to_owned());
    let mut work = transfer(false);
    assert_eq!(fail(done(&mut work, failed()).1).message, "视频下载请求失败：why");

    let mut work = transfer(false);
    done(&mut work, responded(200, None, None));
    assert_eq!(
        fail(done(&mut work, failed()).1).message,
        "无法创建临时文件 out/.a.part：why"
    );

    let mut work = receiving(false, None);
    assert_eq!(fail(done(&mut work, failed()).1).message, "视频下载中断：why");

    let mut work = receiving(false, None);
    done(&mut work, TransferEvent::Chunk(1));
    assert_eq!(fail(done(&mut work, failed()).1).message, "无法写入 out/.a.part：why");

    let mut work = receiving(true, None);
    done(&mut work, TransferEvent::Ended);
    let mut renaming = receiving(false, None);
    assert_eq!(fail(done(&mut work, failed()).1).message, "无法刷新 out/.a.part：why");

    done(&mut renaming, TransferEvent::Ended);
    done(&mut renaming, TransferEvent::Done);
    assert_eq!(
        fail(done(&mut renaming, failed()).1).message,
        "无法将下载结果保存为 out/a.mp4：why"
    );

    let mut replacing = receiving(true, None);
    done(&mut replacing, TransferEvent::Ended);
    done(&mut replacing, TransferEvent::Done);
    assert!(!replacing.expects(&failed()));
    done(&mut replacing, TransferEvent::Present(true));
    assert_eq!(fail(done(&mut replacing, failed()).1).message, "无法覆盖 out/a.mp4：why");
}

#[test]
fn answers_that_are_no_videos_are_refused() {
    let mut work = transfer(false);
    let error = fail(done(&mut work, responded(403, None, None)).1);
    assert_eq!(error.message, "视频服务器返回 HTTP 403。");
    assert_eq!(error.upstream_status, Some(403));
    for content_type in ["TEXT/html", "application/JSON"] {
        let mut work = transfer(false);
        let error = fail(done(&mut work, responded(200, Some(content_type), None)).1);
        assert_eq!(error.kind, ErrorKind::InvalidResponse);
        assert_eq!(error.message, "视频地址返回了文本而不是媒体文件。");
    }
}

#[test]
fn events_out_of_order_are_not_expected() {
    let work = transfer(false);
    for event in [
        TransferEvent::Done,
        TransferEvent::Ended,
        TransferEvent::Chunk(1),
        TransferEvent::Present(true),
    ] {
        assert!(!work.expects(&event));
    }
    let work = receiving(false, None);
    assert!(!work.expects(&TransferEvent::Chunk(u64::MAX)));
}

fn post(username: Option<&str>, urls: &[&str]) -> Post {
    Post {
        article: None,
        author: Author {
            username: username.map(str::to_owned),
            ..Author::default()
        },
        conversation_id: None,
        created_at: None,
        date_label: None,
        id: Some("123".to_owned()),
        is_long_post: false,
        kind: "post".to_owned(),
        lang: None,
        links: Vec::new(),
        media: urls
            .iter()
            .map(|url| Media {
                alt_text: None,
                duration_ms: None,
                height: None,
                preview_image_url: None,
                media_type: Some("video".to_owned()),
                url: Some((*url).to_owned()),
                variants: Vec::new(),
                width: None,
            })
            .collect(),
        metrics: None,
        parent_id: None,
        possibly_sensitive: None,
        quoted_post: None,
        reposted_by: None,
        reposted_post: None,
        source: "test".to_owned(),
        text: String::new(),
        url: None,
    }
}

#[test]
fn plans_name_one_file_for_every_video() {
    let reference = parse_post_reference("https://x.com/ref/status/123").unwrap();
    let post_with_two = post(None, &["https://v.example/a.mp4", "https://v.example/b.mp4"]);
    let plan = plan_downloads(&post_with_two, &reference, VideoQuality::Best, None).unwrap();
    let names: Vec<&str> = plan.iter().map(|video| video.file_name.as_str()).collect();
    assert_eq!(names, ["ref-123-1.mp4", "ref-123-2.mp4"]);
    assert_eq!(plan[1].url, "https://v.example/b.mp4");
    let plan = plan_downloads(&post_with_two, &reference, VideoQuality::Best, Some(2)).unwrap();
    assert_eq!((plan.len(), plan[0].index), (1, 2));

    let named = post(Some("ada"), &["https://v.example/a.mp4"]);
    let plan = plan_downloads(&named, &reference, VideoQuality::Best, None).unwrap();
    assert_eq!(plan[0].file_name, "ada-123-1.mp4");

    let error =
        plan_downloads(&post(None, &[]), &reference, VideoQuality::Best, None).unwrap_err();
    assert_eq!(error.kind, ErrorKind::NoVideo);
    assert_eq!(error.message, "这条推文没有可下载的 MP4 视频。");
    let error =
        plan_downloads(&post_with_two, &reference, VideoQuality::Best, Some(3)).unwrap_err();
    assert_eq!(error.message, "--video 3 超出范围；这条推文共有 2 个视频。");
    assert!(check_request(Some(0)).is_err());
    assert!(check_request(Some(1)).is_ok());
    assert!(check_request(None).is_ok());
}

#[test]
fn existing_files_are_kept() {
    assert!(check_destination("f", false, &Ok(false)).is_ok());
    assert!(check_destination("f", true, &Ok(true)).is_ok());
    assert_eq!(
        check_destination("f", false, &Ok(true)).unwrap_err().message,
        "文件已存在：f。如需覆盖，请加 --force。"
    );
    assert_eq!(
        check_destination("f", false, &Err("why".to_owned())).unwrap_err().message,
        "无法检查 f：why"
    );
}

#[test]
fn file_names_are_safe_on_values() {
    for (value, expected) in [
        ("", "x"),
        ("___", "x"),
        ("_a_b_", "a_b"),
        ("a/../b", "a____b"),
        ("-dash-", "-dash-"),
    ] {
        assert_eq!(safe_component(value), expected);
    }
    assert_eq!(temporary_name("a.mp4", 7, "99"), ".a.mp4.7.99.part");
    let options = DownloadOptions::default();
    assert_eq!(options.output_dir, ".");
    assert!(!options.force && options.video.is_none());
    assert_eq!(options.quality, VideoQuality::Best);
}

#[test]
fn all_destinations_are_checked_before_any_transfer() {
    let paths = vec!["a".to_owned(), "b".to_owned(), "c".to_owned()];
    let found = || vec![Ok(false), Err("why".to_owned()), Ok(true)];
    assert_eq!(
        check_destinations(&paths, false, found()).unwrap_err().message,
        "无法检查 b：why"
    );
    assert!(check_destinations(&paths, true, found()).is_ok());
    assert!(check_destinations(&paths, false, vec![Ok(false), Ok(false), Ok(false)]).is_ok());
    assert!(check_destinations(&Vec::new(), false, Vec::new()).is_ok());

    let targets = vec![
        target(1, "a", Ok(false)),
        target(2, "b", Ok(true)),
        target(3, "c", Err("why".to_owned())),
    ];
    let error = plan_transfers(&targets, false).unwrap_err();
    assert_eq!(error.kind, ErrorKind::InvalidInput);
    assert_eq!(error.message, "文件已存在：out/b.mp4。如需覆盖，请加 --force。");
    let transfers = plan_transfers(&targets, true).unwrap();
    assert_eq!(transfers.len(), 3);
    assert_eq!(transfers[1].index, 2);
    assert_eq!(transfers[1].url, "https://v.example/2.mp4");
    assert_eq!(transfers[1].destination, "out/b.mp4");
    assert_eq!(transfers[1].temporary, "out/.b.part");
    assert!(transfers[1].force);
    assert_eq!(transfers[1].phase, Phase::Requesting);
}
