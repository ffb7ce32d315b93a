//! The rules of the command line.

use xread::cli::{
    check_usage, clean_input, download_options, plan, read_options, report_download, resolve_format,
    select_video_urls,
    write_downloads, write_progress, write_video_urls, write_warnings, Arguments, CliAction,
};
use xread::{
    DownloadEvent, DownloadedVideo, OutputFormat, ReplyMode, VideoQuality, DEFAULT_COMMUNITY_BASE_URL,
};

#[test]
fn chooses_one_video_by_one_based_index() {
    let urls = vec!["one".to_owned(), "two".to_owned()];
    assert_eq!(
        select_video_urls(urls.clone(), Some(2)).unwrap(),
        vec!["two"]
    );
    assert!(select_video_urls(urls.clone(), Some(0)).is_err());
    assert!(select_video_urls(urls, Some(3)).is_err());
}

#[test]
fn default_format_depends_on_operation() {
    assert_eq!(
        resolve_format(None, false, OutputFormat::Markdown).unwrap(),
        OutputFormat::Markdown
    );
    assert_eq!(
        resolve_format(None, true, OutputFormat::Markdown).unwrap(),
        OutputFormat::Json
    );
}

fn arguments() -> Arguments {
    Arguments {
        format: None,
        json: false,
        pretty: false,
        videos: false,
        download: false,
        output_dir: None,
        video: None,
        quality: None,
        force: false,
        quiet: false,
        replies: false,
        thread: false,
        limit: 20,
        sort: "relevance".to_owned(),
        lang: "EN".to_owned(),
        timeout_ms: 12_000,
        retries: 2,
        community_base: None,
    }
}

#[test]
fn options_that_do_not_go_together_are_refused() {
    let mut given = arguments();
    assert!(check_usage(&given).is_ok());
    given.video = Some(1);
    assert_eq!(
        check_usage(&given).unwrap_err().message,
        "--video 需要和 --videos 或 --download 一起使用。"
    );
    given.videos = true;
    assert!(check_usage(&given).is_ok());
    given.output_dir = Some("d".to_owned());
    assert_eq!(
        check_usage(&given).unwrap_err().message,
        "--output-dir 需要和 --download 一起使用。"
    );

    let mut given = arguments();
    given.quality = Some("720".to_owned());
    assert_eq!(
        plan(&given).unwrap_err().message,
        "--quality 需要和 --videos 或 --download 一起使用。"
    );
    let mut given = arguments();
    given.pretty = true;
    assert_eq!(
        plan(&given).unwrap_err().message,
        "--pretty 只对 --format json 或 --json 生效。"
    );
    given.json = true;
    assert_eq!(plan(&given).unwrap().format, OutputFormat::Json);
    let mut given = arguments();
    given.format = Some("yaml".to_owned());
    assert!(plan(&given).is_err());
}

#[test]
fn plans_by_operation() {
    let read = plan(&arguments()).unwrap();
    assert_eq!(read.action, CliAction::Read);
    assert_eq!(read.format, OutputFormat::Markdown);
    assert_eq!(read.config.community_base_url, DEFAULT_COMMUNITY_BASE_URL);

    let mut given = arguments();
    given.videos = true;
    given.quality = Some("worst".to_owned());
    given.community_base = Some("https://host.example/2".to_owned());
    given.retries = 4;
    let videos = plan(&given).unwrap();
    assert_eq!(videos.action, CliAction::Videos);
    assert_eq!(videos.format, OutputFormat::Text);
    assert_eq!(videos.quality, VideoQuality::Worst);
    assert_eq!(videos.config.community_base_url, "https://host.example/2");
    assert_eq!(videos.config.retries, 4);
    given.quality = Some("1".to_owned());
    assert!(plan(&given).is_err());

    let mut given = arguments();
    given.download = true;
    assert_eq!(plan(&given).unwrap().action, CliAction::Download);
}

#[test]
fn reading_options_from_arguments() {
    let mut given = arguments();
    given.thread = true;
    let options = read_options(&given).unwrap();
    assert_eq!(options.reply_mode, Some(ReplyMode::Thread));
    assert_eq!(options.lang, "en");
    given.replies = true;
    assert_eq!(read_options(&given).unwrap().reply_mode, Some(ReplyMode::Direct));
    given.sort = "best".to_owned();
    assert!(read_options(&given).is_err());
}

#[test]
fn inputs_are_trimmed() {
    assert_eq!(clean_input(" 20\n").unwrap(), "20");
    assert_eq!(clean_input(" \n").unwrap_err().message, "输入不能为空。");
}

#[test]
fn urls_and_downloads_by_format() {
    let urls = vec!["u1".to_owned(), "u2".to_owned()];
    assert_eq!(
        write_video_urls(&urls, None, OutputFormat::Markdown).as_deref(),
        Some("- [Video 1](u1)\n- [Video 2](u2)")
    );
    assert_eq!(
        write_video_urls(&vec!["u5".to_owned()], Some(5), OutputFormat::Markdown).as_deref(),
        Some("- [Video 5](u5)")
    );
    assert_eq!(
        write_video_urls(&urls, None, OutputFormat::Human).as_deref(),
        Some("u1\nu2")
    );
    assert_eq!(write_video_urls(&urls, None, OutputFormat::Json), None);

    let videos = vec![DownloadedVideo {
        index: 3,
        source_url: "u3".to_owned(),
        path: "dir/a b.mp4".to_owned(),
        bytes: 1,
    }];
    assert_eq!(
        write_downloads(&videos, OutputFormat::Markdown).as_deref(),
        Some("- [Video 3](<dir/a b.mp4>)")
    );
    assert_eq!(
        write_downloads(&videos, OutputFormat::Text).as_deref(),
        Some("dir/a b.mp4")
    );
    assert_eq!(write_downloads(&videos, OutputFormat::Json), None);
}

#[test]
fn progress_is_shown_on_terminals() {
    let text = |event: &DownloadEvent, terminal: bool| {
        report_download(event, terminal).map(|notice| (notice.text, notice.line))
    };
    let progress = |downloaded_bytes: u64, total_bytes: Option<u64>| DownloadEvent::Progress {
        index: 1,
        downloaded_bytes,
        total_bytes,
    };
    assert_eq!(
        text(&progress(5, Some(100)), true),
        Some(("\r下载视频 1：  5%".to_owned(), false))
    );
    assert_eq!(
        text(&progress(u64::MAX, Some(u64::MAX)), true),
        Some(("\r下载视频 1：  1%".to_owned(), false))
    );
    assert_eq!(
        text(&progress(5, Some(0)), true),
        Some(("\r下载视频 1：5 bytes".to_owned(), false))
    );
    assert_eq!(text(&progress(5, None), false), None);
    let started = DownloadEvent::Started {
        index: 2,
        path: "p".to_owned(),
        total_bytes: None,
    };
    assert_eq!(text(&started, false), Some(("下载视频 2 → p".to_owned(), true)));
    let finished = DownloadEvent::Finished {
        index: 2,
        path: "p".to_owned(),
        bytes: 9,
    };
    assert_eq!(
        text(&finished, true),
        Some(("\r下载视频 2：完成（9 bytes）".to_owned(), true))
    );
    assert_eq!(
        text(&finished, false),
        Some(("视频 2 下载完成（9 bytes）".to_owned(), true))
    );
}

#[test]
fn quiet_hides_warnings_and_progress_only() {
    let loud = arguments();
    let quiet = Arguments {
        quiet: true,
        ..arguments()
    };
    let warnings = vec!["one".to_owned(), "two".to_owned()];
    assert_eq!(
        write_warnings(&loud, &warnings),
        vec!["警告：one".to_owned(), "警告：two".to_owned()]
    );
    assert!(write_warnings(&quiet, &warnings).is_empty());
    let event = DownloadEvent::Finished {
        index: 1,
        path: "a.mp4".to_owned(),
        bytes: 5,
    };
    assert_eq!(write_progress(&loud, &event, false), report_download(&event, false));
    assert!(write_progress(&loud, &event, false).is_some());
    assert_eq!(write_progress(&quiet, &event, true), None);
    assert_eq!(plan(&loud).unwrap().format, plan(&quiet).unwrap().format);
    assert_eq!(
        read_options(&loud).unwrap().limit,
        read_options(&quiet).unwrap().limit
    );
}

#[test]
fn options_of_a_download_come_from_the_arguments() {
    let options = download_options(&arguments(), VideoQuality::Worst);
    assert_eq!(options.output_dir, ".");
    assert_eq!(options.video, None);
    assert_eq!(options.quality, VideoQuality::Worst);
    assert!(!options.force);
    let given = Arguments {
        download: true,
        output_dir: Some("out".to_owned()),
        video: Some(2),
        force: true,
        ..arguments()
    };
    let options = download_options(&given, VideoQuality::Best);
    assert_eq!(options.output_dir, "out");
    assert_eq!(options.video, Some(2));
    assert!(options.force);
}
