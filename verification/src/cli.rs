//! The rules of the command line: which options go together, what they ask for,
//! and what is written.

use core::str::FromStr;

use vstd::prelude::*;

use crate::download::DownloadEvent;
use crate::download::DownloadOptions;
use crate::download::DownloadOptionsView;
use crate::download::DownloadedVideo;
use crate::download::DownloadedView;
use crate::download::EventView;
use crate::error::error_view;
use crate::error::plain_error;
use crate::error::result_model;
use crate::error::ErrorKind;
use crate::error::ErrorView;
use crate::error::XReadError;
use crate::model::choice;
use crate::model::default_config;
use crate::model::quality_named;
use crate::model::sort_mode_named;
use crate::model::ConfigView;
use crate::model::OptionsView;
use crate::model::ReadOptions;
use crate::model::ReaderConfig;
use crate::model::ReplyMode;
use crate::model::SortMode;
use crate::model::VideoQuality;
use crate::render::format_named;
use crate::render::OutputFormat;
use crate::shown;
use crate::text;
use crate::video;

verus! {

// ----------------------------------------------------------------------
// Arguments

/// The options of the command line.
#[derive(Debug)]
pub struct Arguments {
    pub format: Option<String>,
    pub json: bool,
    pub pretty: bool,
    pub videos: bool,
    pub download: bool,
    pub output_dir: Option<String>,
    pub video: Option<usize>,
    pub quality: Option<String>,
    /// Replace files of the same name.
    pub force: bool,
    /// Show neither warnings nor progress.
    pub quiet: bool,
    pub replies: bool,
    pub thread: bool,
    pub limit: usize,
    pub sort: String,
    pub lang: String,
    pub timeout_ms: u64,
    pub retries: u8,
    /// The base of the community source, from an option or the environment.
    pub community_base: Option<String>,
}

/// The model of `Arguments`.
pub struct ArgumentsView {
    pub format: Option<Seq<char>>,
    pub json: bool,
    pub pretty: bool,
    pub videos: bool,
    pub download: bool,
    pub output_dir: Option<Seq<char>>,
    pub video: Option<usize>,
    pub quality: Option<Seq<char>>,
    pub force: bool,
    pub quiet: bool,
    pub replies: bool,
    pub thread: bool,
    pub limit: usize,
    pub sort: Seq<char>,
    pub lang: Seq<char>,
    pub timeout_ms: u64,
    pub retries: u8,
    pub community_base: Option<Seq<char>>,
}

impl DeepView for Arguments {
    type V = ArgumentsView;

    open spec fn deep_view(&self) -> ArgumentsView {
        ArgumentsView {
            format: self.format.deep_view(),
            json: self.json,
            pretty: self.pretty,
            videos: self.videos,
            download: self.download,
            output_dir: self.output_dir.deep_view(),
            video: self.video,
            quality: self.quality.deep_view(),
            force: self.force,
            quiet: self.quiet,
            replies: self.replies,
            thread: self.thread,
            limit: self.limit,
            sort: self.sort@,
            lang: self.lang@,
            timeout_ms: self.timeout_ms,
            retries: self.retries,
            community_base: self.community_base.deep_view(),
        }
    }
}

/// What is wrong with the options before the input is read, if anything.
pub open spec fn usage_check(arguments: ArgumentsView) -> Result<(), ErrorView> {
    if arguments.video is Some && !arguments.videos && !arguments.download {
        Err(
            plain_error(
                ErrorKind::InvalidInput,
                "--video 需要和 --videos 或 --download 一起使用。"@,
            ),
        )
    } else if arguments.output_dir is Some && !arguments.download {
        Err(
            plain_error(
                ErrorKind::InvalidInput,
                "--output-dir 需要和 --download 一起使用。"@,
            ),
        )
    } else {
        Ok(())
    }
}

/// Refuses options that do not go together, before the input is read.
pub fn check_usage(arguments: &Arguments) -> (out: Result<(), XReadError>)
    ensures
        error_view(out) == usage_check(arguments.deep_view()),
{
    if arguments.video.is_some() && !arguments.videos && !arguments.download {
        return Err(
            XReadError::invalid_input("--video 需要和 --videos 或 --download 一起使用。"),
        );
    }
    if arguments.output_dir.is_some() && !arguments.download {
        return Err(
            XReadError::invalid_input("--output-dir 需要和 --download 一起使用。"),
        );
    }
    Ok(())
}

/// The input without white space around it; an error where nothing is left.
pub open spec fn input_of(value: Seq<char>) -> Result<Seq<char>, ErrorView> {
    if text::trim(value).len() == 0 {
        Err(plain_error(ErrorKind::InvalidInput, "输入不能为空。"@))
    } else {
        Ok(text::trim(value))
    }
}

/// Cleans the input, whether it was given as an argument or read.
pub fn clean_input(value: &str) -> (out: Result<String, XReadError>)
    ensures
        result_model(out) == input_of(value@),
{
    let input = text::trim_text(value);
    if input.is_empty() {
        Err(XReadError::invalid_input("输入不能为空。"))
    } else {
        Ok(input.to_owned())
    }
}

/// The format that is asked for: by the short form, by name, or by default.
pub open spec fn format_for(
    format: Option<Seq<char>>,
    json_alias: bool,
    default: OutputFormat,
) -> Result<OutputFormat, ErrorView> {
    if json_alias {
        Ok(OutputFormat::Json)
    } else {
        match format {
            Some(name) => choice(
                format_named(name),
                "format 只接受 markdown、text、json 或 human。"@,
            ),
            None => Ok(default),
        }
    }
}

/// Finds the format that is asked for.
pub fn resolve_format(format: Option<&str>, json_alias: bool, default: OutputFormat) -> (out: Result<
    OutputFormat,
    XReadError,
>)
    ensures
        error_view(out) == format_for(format.deep_view(), json_alias, default),
{
    if json_alias {
        Ok(OutputFormat::Json)
    } else {
        match format {
            Some(name) => OutputFormat::from_str(name),
            None => Ok(default),
        }
    }
}

// ----------------------------------------------------------------------
// Plans

/// What to do.
#[derive(Debug, Clone, Copy, PartialEq, Eq, Structural)]
pub enum CliAction {
    Read,
    Videos,
    Download,
}

/// What the options ask for.
#[derive(Debug)]
pub struct Plan {
    pub action: CliAction,
    pub format: OutputFormat,
    pub quality: VideoQuality,
    pub config: ReaderConfig,
}

/// The model of `Plan`.
pub struct PlanView {
    pub action: CliAction,
    pub format: OutputFormat,
    pub quality: VideoQuality,
    pub config: ConfigView,
}

impl DeepView for Plan {
    type V = PlanView;

    open spec fn deep_view(&self) -> PlanView {
        PlanView {
            action: self.action,
            format: self.format,
            quality: self.quality,
            config: self.config.deep_view(),
        }
    }
}

/// What the options ask for to be done.
pub open spec fn action_of(arguments: ArgumentsView) -> CliAction {
    if arguments.download {
        CliAction::Download
    } else if arguments.videos {
        CliAction::Videos
    } else {
        CliAction::Read
    }
}

/// The format for an action where none is named: Markdown for a post, which is
/// mostly read by a language model, and plain text for URLs and paths.
pub open spec fn default_format(action: CliAction) -> OutputFormat {
    if action == CliAction::Read {
        OutputFormat::Markdown
    } else {
        OutputFormat::Text
    }
}

/// The settings that the options ask for.
pub open spec fn config_for(arguments: ArgumentsView) -> ConfigView {
    ConfigView {
        community_base_url: match arguments.community_base {
            Some(base) => base,
            None => default_config().community_base_url,
        },
        timeout_ms: arguments.timeout_ms,
        retries: arguments.retries,
    }
}

/// What the options ask for, or what is wrong with them.
pub open spec fn plan_of(arguments: ArgumentsView) -> Result<PlanView, ErrorView> {
    let action = action_of(arguments);
    if arguments.quality is Some && action == CliAction::Read {
        Err(
            plain_error(
                ErrorKind::InvalidInput,
                "--quality 需要和 --videos 或 --download 一起使用。"@,
            ),
        )
    } else {
        match format_for(arguments.format, arguments.json, default_format(action)) {
            Err(error) => Err(error),
            Ok(format) => if arguments.pretty && format != OutputFormat::Json {
                Err(
                    plain_error(
                        ErrorKind::InvalidInput,
                        "--pretty 只对 --format json 或 --json 生效。"@,
                    ),
                )
            } else {
                match quality_for(arguments.quality) {
                    Err(error) => Err(error),
                    Ok(quality) => Ok(
                        PlanView { action, format, quality, config: config_for(arguments) },
                    ),
                }
            },
        }
    }
}

/// The quality that is asked for.
pub open spec fn quality_for(quality: Option<Seq<char>>) -> Result<VideoQuality, ErrorView> {
    choice(
        quality_named(
            match quality {
                Some(name) => name,
                None => "best"@,
            },
        ),
        "quality 只接受 best、worst 或 144 到 4320 的清晰度，例如 720。"@,
    )
}

/// Finds the quality that is asked for.
pub fn resolve_quality(quality: &Option<String>) -> (out: Result<VideoQuality, XReadError>)
    ensures
        error_view(out) == quality_for(quality.deep_view()),
{
    let name = match quality {
        Some(name) => name.as_str(),
        None => "best",
    };
    VideoQuality::from_str(name)
}

/// Plans what the options ask for.
pub fn plan(arguments: &Arguments) -> (out: Result<Plan, XReadError>)
    ensures
        result_model(out) == plan_of(arguments.deep_view()),
{
    let action = if arguments.download {
        CliAction::Download
    } else if arguments.videos {
        CliAction::Videos
    } else {
        CliAction::Read
    };
    let media = arguments.download || arguments.videos;
    if arguments.quality.is_some() && !media {
        return Err(
            XReadError::invalid_input("--quality 需要和 --videos 或 --download 一起使用。"),
        );
    }
    let fallback = if media {
        OutputFormat::Text
    } else {
        OutputFormat::Markdown
    };
    let name = match &arguments.format {
        Some(name) => Some(name.as_str()),
        None => None,
    };
    let format = match resolve_format(name, arguments.json, fallback) {
        Ok(format) => format,
        Err(error) => {
            return Err(error);
        },
    };
    if arguments.pretty && format != OutputFormat::Json {
        return Err(XReadError::invalid_input("--pretty 只对 --format json 或 --json 生效。"));
    }
    let quality = match resolve_quality(&arguments.quality) {
        Ok(quality) => quality,
        Err(error) => {
            return Err(error);
        },
    };
    let mut config = ReaderConfig::default();
    config.timeout_ms = arguments.timeout_ms;
    config.retries = arguments.retries;
    if let Some(base) = &arguments.community_base {
        config.community_base_url = base.clone();
    }
    Ok(Plan { action, format, quality, config })
}

/// The options of a reading, or what is wrong with them.
pub open spec fn read_options_of(arguments: ArgumentsView) -> Result<OptionsView, ErrorView> {
    match choice(sort_mode_named(arguments.sort), "sort 只接受 relevance 或 recent。"@) {
        Err(error) => Err(error),
        Ok(sort) => Ok(
            OptionsView {
                reply_mode: if arguments.replies {
                    Some(ReplyMode::Direct)
                } else if arguments.thread {
                    Some(ReplyMode::Thread)
                } else {
                    None
                },
                limit: arguments.limit,
                sort,
                lang: text::lower_case(arguments.lang),
            },
        ),
    }
}

/// Reads the options of a reading.
pub fn read_options(arguments: &Arguments) -> (out: Result<ReadOptions, XReadError>)
    ensures
        result_model(out) == read_options_of(arguments.deep_view()),
{
    let reply_mode = if arguments.replies {
        Some(ReplyMode::Direct)
    } else if arguments.thread {
        Some(ReplyMode::Thread)
    } else {
        None
    };
    match SortMode::from_str(arguments.sort.as_str()) {
        Ok(sort) => Ok(
            ReadOptions {
                reply_mode,
                limit: arguments.limit,
                sort,
                lang: text::to_lower(arguments.lang.as_str()),
            },
        ),
        Err(error) => Err(error),
    }
}

/// The options of a download.
pub open spec fn download_options_of(
    arguments: ArgumentsView,
    quality: VideoQuality,
) -> DownloadOptionsView {
    DownloadOptionsView {
        output_dir: match arguments.output_dir {
            Some(directory) => directory,
            None => "."@,
        },
        video: arguments.video,
        quality,
        force: arguments.force,
    }
}

/// Reads the options of a download.
pub fn download_options(arguments: &Arguments, quality: VideoQuality) -> (out: DownloadOptions)
    ensures
        out.deep_view() == download_options_of(arguments.deep_view(), quality),
{
    let output_dir = match &arguments.output_dir {
        Some(directory) => directory.clone(),
        None => ".".to_owned(),
    };
    DownloadOptions { output_dir, video: arguments.video, quality, force: arguments.force }
}

// ----------------------------------------------------------------------
// Output

/// Selects one URL by its one-based position, or all of them.
pub fn select_video_urls(urls: Vec<String>, requested: Option<usize>) -> (out: Result<
    Vec<String>,
    XReadError,
>)
    ensures
        result_model(out) == video::selected_urls(
            urls.deep_view(),
            requested,
            "video 从 1 开始计数，例如 --video 1。"@,
            "--video "@,
        ),
{
    video::select_urls(
        urls,
        requested,
        "video 从 1 开始计数，例如 --video 1。",
        "--video ",
    )
}

/// The URLs in a format that is not JSON.
pub open spec fn urls_text(
    urls: Seq<Seq<char>>,
    requested: Option<usize>,
    format: OutputFormat,
) -> Seq<char> {
    if format == OutputFormat::Markdown {
        text::join(video::markdown_list(urls, requested), "\n"@)
    } else {
        text::join(urls, "\n"@)
    }
}

/// Writes the URLs in a format; none for JSON, which the caller serialises.
pub fn write_video_urls(urls: &Vec<String>, requested: Option<usize>, format: OutputFormat) -> (out:
    Option<String>)
    ensures
        out.deep_view() == (if format == OutputFormat::Json {
            None
        } else {
            Some(urls_text(urls.deep_view(), requested, format))
        }),
{
    match format {
        OutputFormat::Json => None,
        OutputFormat::Markdown => Some(video::markdown_urls(urls, requested)),
        _ => Some(text::join_strings(urls.as_slice(), "\n")),
    }
}

/// A downloaded video on a line of its own.
pub open spec fn download_line(video: DownloadedView, format: OutputFormat) -> Seq<char> {
    if format == OutputFormat::Markdown {
        "- [Video "@ + text::decimal(video.index as nat) + "](<"@ + video.path + ">)"@
    } else {
        video.path
    }
}

/// The downloaded videos, one on a line.
pub open spec fn download_lines(videos: Seq<DownloadedView>, format: OutputFormat) -> Seq<Seq<char>> {
    videos.map_values(|video: DownloadedView| download_line(video, format))
}

/// Writes the downloaded videos in a format; none for JSON, which the caller
/// serialises.
pub fn write_downloads(videos: &Vec<DownloadedVideo>, format: OutputFormat) -> (out: Option<String>)
    ensures
        out.deep_view() == (if format == OutputFormat::Json {
            None
        } else {
            Some(text::join(download_lines(videos.deep_view(), format), "\n"@))
        }),
{
    if format == OutputFormat::Json {
        return None;
    }
    let ghost wanted = download_lines(videos.deep_view(), format);
    let mut lines: Vec<String> = Vec::new();
    assert(lines.deep_view() == wanted.take(0));
    let mut i: usize = 0;
    while i < videos.len()
        invariant
            i <= videos@.len(),
            wanted == download_lines(videos.deep_view(), format),
            lines.deep_view() == wanted.take(i as int),
        decreases videos.len() - i,
    {
        assert(videos.deep_view()[i as int] == videos@[i as int].deep_view());
        let ghost before = lines.deep_view();
        let video = &videos[i];
        let line = if format == OutputFormat::Markdown {
            let number = text::number_text(video.index as u64);
            text::cat5("- [Video ", number.as_str(), "](<", video.path.as_str(), ">)")
        } else {
            video.path.clone()
        };
        text::push_line(&mut lines, line);
        assert(lines.deep_view() == before.push(wanted[i as int]));
        i = i + 1;
    }
    assert(wanted.take(i as int) == wanted);
    Some(text::join_strings(lines.as_slice(), "\n"))
}

// ----------------------------------------------------------------------
// Warnings and progress

/// A text for the terminal, and whether a line ends behind it.
#[derive(Debug, Clone, PartialEq, Eq)]
pub struct Notice {
    pub text: String,
    pub line: bool,
}

/// The model of `Notice`.
pub struct NoticeView {
    pub text: Seq<char>,
    pub line: bool,
}

impl DeepView for Notice {
    type V = NoticeView;

    open spec fn deep_view(&self) -> NoticeView {
        NoticeView { text: self.text@, line: self.line }
    }
}

/// `value` behind blanks up to three characters.
pub open spec fn in_three(value: Seq<char>) -> Seq<char> {
    if value.len() < 3 {
        text::repeat(" "@, (3 - value.len()) as nat) + value
    } else {
        value
    }
}

/// A hundred times the value, or the largest number where that is too large.
pub open spec fn hundredfold(value: u64) -> u64 {
    if value * 100 > u64::MAX {
        u64::MAX
    } else {
        (value * 100) as u64
    }
}

/// What is said of an event of a download. Progress is shown on a terminal only.
pub open spec fn notice_of(event: EventView, terminal: bool) -> Option<NoticeView> {
    match event {
        EventView::Started { index, path, total_bytes } => Some(
            NoticeView {
                text: "下载视频 "@ + text::decimal(index as nat) + " → "@ + path,
                line: true,
            },
        ),
        EventView::Progress { index, downloaded_bytes, total_bytes } => if !terminal {
            None
        } else if total_bytes is Some && total_bytes->0 > 0 {
            Some(
                NoticeView {
                    text: "\r下载视频 "@ + text::decimal(index as nat) + "："@ + in_three(
                        text::decimal((hundredfold(downloaded_bytes) / total_bytes->0) as nat),
                    ) + "%"@,
                    line: false,
                },
            )
        } else {
            Some(
                NoticeView {
                    text: "\r下载视频 "@ + text::decimal(index as nat) + "："@ + text::decimal(
                        downloaded_bytes as nat,
                    ) + " bytes"@,
                    line: false,
                },
            )
        },
        EventView::Finished { index, path, bytes } => if terminal {
            Some(
                NoticeView {
                    text: "\r下载视频 "@ + text::decimal(index as nat) + "：完成（"@
                        + text::decimal(bytes as nat) + " bytes）"@,
                    line: true,
                },
            )
        } else {
            Some(
                NoticeView {
                    text: "视频 "@ + text::decimal(index as nat) + " 下载完成（"@ + text::decimal(
                        bytes as nat,
                    ) + " bytes）"@,
                    line: true,
                },
            )
        },
    }
}

fn pad_to_three(value: &str) -> (out: String)
    ensures
        out@ == in_three(value@),
{
    let len: usize = text::chars_of(value).len();
    if len < 3 {
        let blanks = text::repeated(" ", 3 - len);
        text::cat2(blanks.as_str(), value)
    } else {
        value.to_owned()
    }
}

/// Says what there is to say of an event of a download.
pub fn report_download(event: &DownloadEvent, terminal: bool) -> (out: Option<Notice>)
    ensures
        out.deep_view() == notice_of(event.deep_view(), terminal),
{
    match event {
        DownloadEvent::Started { index, path, .. } => {
            let index = text::number_text(*index as u64);
            Some(
                Notice {
                    text: text::cat4("下载视频 ", index.as_str(), " → ", path.as_str()),
                    line: true,
                },
            )
        },
        DownloadEvent::Progress { index, downloaded_bytes, total_bytes } => {
            if !terminal {
                return None;
            }
            let index = text::number_text(*index as u64);
            if let Some(total) = total_bytes {
                if *total > 0 {
                    let scaled: u64 = match downloaded_bytes.checked_mul(100) {
                        Some(scaled) => scaled,
                        None => u64::MAX,
                    };
                    let percent: u64 = scaled / *total;
                    let padded = pad_to_three(text::number_text(percent).as_str());
                    return Some(
                        Notice {
                            text: text::cat5(
                                "\r下载视频 ",
                                index.as_str(),
                                "：",
                                padded.as_str(),
                                "%",
                            ),
                            line: false,
                        },
                    );
                }
            }
            let bytes = text::number_text(*downloaded_bytes);
            Some(
                Notice {
                    text: text::cat5(
                        "\r下载视频 ",
                        index.as_str(),
                        "：",
                        bytes.as_str(),
                        " bytes",
                    ),
                    line: false,
                },
            )
        },
        DownloadEvent::Finished { index, bytes, .. } => {
            let index = text::number_text(*index as u64);
            let bytes = text::number_text(*bytes);
            let text = if terminal {
                text::cat5(
                    "\r下载视频 ",
                    index.as_str(),
                    "：完成（",
                    bytes.as_str(),
                    " bytes）",
                )
            } else {
                text::cat5("视频 ", index.as_str(), " 下载完成（", bytes.as_str(), " bytes）")
            };
            Some(Notice { text, line: true })
        },
    }
}

/// The warnings that are shown, one on a line.
pub open spec fn shown_warnings(arguments: ArgumentsView, warnings: Seq<Seq<char>>) -> Seq<
    Seq<char>,
> {
    if arguments.quiet {
        Seq::empty()
    } else {
        warnings.map_values(|warning: Seq<char>| "警告："@ + warning)
    }
}

/// Writes the warnings of a result as they are shown.
pub fn write_warnings(arguments: &Arguments, warnings: &Vec<String>) -> (out: Vec<String>)
    ensures
        out.deep_view() == shown_warnings(arguments.deep_view(), warnings.deep_view()),
{
    let ghost model = warnings.deep_view();
    let ghost wanted = shown_warnings(arguments.deep_view(), model);
    let mut out: Vec<String> = Vec::new();
    assert(out.deep_view() == wanted.take(0));
    if arguments.quiet {
        assert(out.deep_view() == wanted);
        return out;
    }
    let mut i: usize = 0;
    while i < warnings.len()
        invariant
            i <= warnings@.len(),
            model == warnings.deep_view(),
            wanted == model.map_values(|warning: Seq<char>| "警告："@ + warning),
            out.deep_view() == wanted.take(i as int),
        decreases warnings.len() - i,
    {
        assert(model[i as int] == warnings@[i as int]@);
        let ghost before = out.deep_view();
        text::push_line(&mut out, text::cat2("警告：", warnings[i].as_str()));
        assert(out.deep_view() == before.push(wanted[i as int]));
        i = i + 1;
    }
    assert(wanted.take(i as int) == wanted);
    out
}

/// What is shown of an event of a download.
pub open spec fn shown_notice(arguments: ArgumentsView, event: EventView, terminal: bool) -> Option<
    NoticeView,
> {
    if arguments.quiet {
        None
    } else {
        notice_of(event, terminal)
    }
}

/// Writes what is shown of an event of a download.
pub fn write_progress(arguments: &Arguments, event: &DownloadEvent, terminal: bool) -> (out: Option<
    Notice,
>)
    ensures
        out.deep_view() == shown_notice(arguments.deep_view(), event.deep_view(), terminal),
{
    if arguments.quiet {
        None
    } else {
        report_download(event, terminal)
    }
}

// ----------------------------------------------------------------------
// Laws

/// `--quiet` hides the warnings and the progress, and changes nothing else: the
/// same options are refused with the same errors, and the plan, the options of
/// a reading and those of a download, from which all output is made, are the
/// same.
pub proof fn law_quiet_changes_no_content(
    arguments: ArgumentsView,
    quality: VideoQuality,
    warnings: Seq<Seq<char>>,
    event: EventView,
    terminal: bool,
)
    ensures
        ({
            let loud = ArgumentsView { quiet: false, ..arguments };
            let quiet = ArgumentsView { quiet: true, ..arguments };
            &&& usage_check(quiet) == usage_check(loud)
            &&& plan_of(quiet) == plan_of(loud)
            &&& read_options_of(quiet) == read_options_of(loud)
            &&& download_options_of(quiet, quality) == download_options_of(loud, quality)
            &&& shown_warnings(quiet, warnings).len() == 0
            &&& shown_notice(quiet, event, terminal) is None
            &&& shown_warnings(loud, warnings).len() == warnings.len()
            &&& shown_notice(loud, event, terminal) == notice_of(event, terminal)
        }),
{
}

/// The flags choose what is done, `--json` and the name choose the format, and
/// every setting is that of its own option: without a name a post is Markdown,
/// URLs and paths are plain text, and the best quality is meant.
pub proof fn law_flags_make_the_plan(arguments: ArgumentsView, plan: PlanView)
    requires
        plan_of(arguments) == Ok::<PlanView, ErrorView>(plan),
    ensures
        arguments.download ==> plan.action == CliAction::Download,
        arguments.videos && !arguments.download ==> plan.action == CliAction::Videos,
        !arguments.videos && !arguments.download ==> plan.action == CliAction::Read,
        arguments.json ==> plan.format == OutputFormat::Json,
        !arguments.json && arguments.format == Some("markdown"@) ==> plan.format
            == OutputFormat::Markdown,
        !arguments.json && arguments.format == Some("text"@) ==> plan.format == OutputFormat::Text,
        !arguments.json && arguments.format == Some("json"@) ==> plan.format == OutputFormat::Json,
        !arguments.json && arguments.format == Some("human"@) ==> plan.format
            == OutputFormat::Human,
        !arguments.json && arguments.format is None && !arguments.videos && !arguments.download
            ==> plan.format == OutputFormat::Markdown,
        !arguments.json && arguments.format is None && (arguments.videos || arguments.download)
            ==> plan.format == OutputFormat::Text,
        arguments.pretty ==> plan.format == OutputFormat::Json,
        arguments.quality is None ==> plan.quality == VideoQuality::Best,
        arguments.quality == Some("best"@) ==> plan.quality == VideoQuality::Best,
        arguments.quality == Some("worst"@) ==> plan.quality == VideoQuality::Worst,
        plan.config.timeout_ms == arguments.timeout_ms,
        plan.config.retries == arguments.retries,
        arguments.community_base matches Some(base) ==> plan.config.community_base_url == base,
        arguments.community_base is None ==> plan.config.community_base_url
            == "https://api.fxtwitter.com/2"@,
{
    crate::render::law_format_round_trip(OutputFormat::Json);
    crate::render::law_format_round_trip(OutputFormat::Markdown);
    crate::render::law_format_round_trip(OutputFormat::Text);
    crate::render::law_format_round_trip(OutputFormat::Human);
    crate::model::law_qualities_have_their_names(144);
}

/// Options that belong to another action are refused as errors about the input,
/// and a plan without any choice is made.
pub proof fn law_options_must_fit(arguments: ArgumentsView)
    ensures
        usage_check(arguments) is Err <==> (arguments.video is Some && !arguments.videos
            && !arguments.download) || (arguments.output_dir is Some && !arguments.download),
        usage_check(arguments) matches Err(error) ==> error.kind == ErrorKind::InvalidInput,
        plan_of(arguments) matches Err(error) ==> error.kind == ErrorKind::InvalidInput,
        arguments.quality is Some && !arguments.videos && !arguments.download ==> plan_of(arguments)
            is Err,
        arguments.pretty && !arguments.json && arguments.format is None ==> plan_of(arguments)
            is Err,
        arguments.quality is None && arguments.format is None && (arguments.pretty
            ==> arguments.json) ==> plan_of(arguments) is Ok,
        (arguments.videos || arguments.download) && (arguments.quality == Some("best"@)
            || arguments.quality == Some("worst"@)) && arguments.json ==> plan_of(arguments) is Ok,
{
    crate::model::law_qualities_have_their_names(144);
}

/// Every option of a reading is that of its own flag.
pub proof fn law_flags_make_the_options(arguments: ArgumentsView)
    ensures
        arguments.sort == "relevance"@ || arguments.sort == "recent"@ <==> read_options_of(
            arguments,
        ) is Ok,
        read_options_of(arguments) matches Err(error) ==> error.kind == ErrorKind::InvalidInput,
        read_options_of(arguments) matches Ok(options) ==> {
            &&& arguments.replies ==> options.reply_mode == Some(ReplyMode::Direct)
            &&& arguments.thread && !arguments.replies ==> options.reply_mode == Some(
                ReplyMode::Thread,
            )
            &&& !arguments.thread && !arguments.replies ==> options.reply_mode is None
            &&& options.limit == arguments.limit
            &&& arguments.sort == "relevance"@ ==> options.sort == SortMode::Relevance
            &&& arguments.sort == "recent"@ ==> options.sort == SortMode::Recent
            &&& options.lang == text::lower_case(arguments.lang)
        },
{
    crate::model::law_rankings_have_their_names(SortMode::Recent);
    crate::model::law_reply_modes_have_their_names(arguments.sort);
}

/// Every option of a download is that of its own flag; files go where the caller
/// is unless a place is named.
pub proof fn law_flags_make_the_download(arguments: ArgumentsView, quality: VideoQuality)
    ensures
        ({
            let options = download_options_of(arguments, quality);
            &&& arguments.output_dir matches Some(directory) ==> options.output_dir == directory
            &&& arguments.output_dir is None ==> options.output_dir == "."@
            &&& options.video == arguments.video
            &&& options.quality == quality
            &&& options.force == arguments.force
        }),
{
}

/// Input with ink at both of its ends is taken as it is, and blank input is
/// refused.
pub proof fn law_inputs_are_trimmed(value: Seq<char>)
    ensures
        value.len() > 0 && !text::is_whitespace(value[0]) && !text::is_whitespace(value.last())
            ==> input_of(value) == Ok::<Seq<char>, ErrorView>(value),
        (forall|i: int| 0 <= i < value.len() ==> text::is_whitespace(#[trigger] value[i]))
            ==> (input_of(value) matches Err(error) && error.kind == ErrorKind::InvalidInput),
{
    if value.len() > 0 && !text::is_whitespace(value[0]) {
        text::lemma_ink(value, 0);
    }
    if forall|i: int| 0 <= i < value.len() ==> text::is_whitespace(#[trigger] value[i]) {
        text::lemma_all_white(value);
    }
}

/// Every URL is on its line, in Markdown under its position.
pub proof fn law_urls_are_listed(urls: Seq<Seq<char>>, at: int, index: usize)
    requires
        0 <= at < urls.len(),
    ensures
        text::contains(urls_text(urls, None, OutputFormat::Text), urls[at]),
        text::contains(urls_text(urls, Some(index), OutputFormat::Text), urls[at]),
        text::contains(
            urls_text(urls, None, OutputFormat::Markdown),
            "- [Video "@ + text::decimal((at + 1) as nat) + "]("@ + urls[at] + ")"@,
        ),
        text::contains(
            urls_text(urls, Some(index), OutputFormat::Markdown),
            "- [Video "@ + text::decimal(index as nat) + "]("@ + urls[at] + ")"@,
        ),
{
    text::lemma_join_contains(urls, "\n"@, at);
    text::lemma_join_contains(video::markdown_list(urls, None), "\n"@, at);
    text::lemma_join_contains(video::markdown_list(urls, Some(index)), "\n"@, at);
}

/// Every downloaded file is on its line, in Markdown under its position.
pub proof fn law_files_are_listed(videos: Seq<DownloadedView>, at: int)
    requires
        0 <= at < videos.len(),
    ensures
        text::contains(
            text::join(download_lines(videos, OutputFormat::Text), "\n"@),
            videos[at].path,
        ),
        text::contains(
            text::join(download_lines(videos, OutputFormat::Markdown), "\n"@),
            "- [Video "@ + text::decimal(videos[at].index as nat) + "](<"@ + videos[at].path
                + ">)"@,
        ),
{
    text::lemma_join_contains(download_lines(videos, OutputFormat::Text), "\n"@, at);
    text::lemma_join_contains(download_lines(videos, OutputFormat::Markdown), "\n"@, at);
}

/// What is said of a download names the video and what happened to it: where it
/// goes, how far it is in hundredths or in bytes, and how large it became.
/// Progress is for a terminal alone.
pub proof fn law_notices_tell_what_happens(event: EventView, terminal: bool)
    ensures
        event matches EventView::Started { index, path, total_bytes } ==> (notice_of(
            event,
            terminal,
        ) matches Some(notice) && notice.line && text::contains(
            notice.text,
            text::decimal(index as nat) + " → "@ + path,
        )),
        event matches EventView::Progress { index, downloaded_bytes, total_bytes } ==> {
            &&& !terminal ==> notice_of(event, terminal) is None
            &&& terminal ==> (notice_of(event, terminal) matches Some(notice) && !notice.line)
            &&& terminal && total_bytes is None ==> text::contains(
                notice_of(event, terminal)->0.text,
                text::decimal(downloaded_bytes as nat) + " bytes"@,
            )
            &&& terminal ==> (total_bytes matches Some(total) ==> (0 < total && downloaded_bytes
                <= total && total <= 1_000_000_000_000_000 ==> text::contains(
                notice_of(event, terminal)->0.text,
                text::decimal((downloaded_bytes as nat * 100) / total as nat) + "%"@,
            )))
        },
        event matches EventView::Finished { index, path, bytes } ==> (notice_of(
            event,
            terminal,
        ) matches Some(notice) && notice.line && text::contains(
            notice.text,
            text::decimal(bytes as nat) + " bytes）"@,
        )),
{
    match event {
        EventView::Started { index, path, total_bytes } => {
            let number = text::decimal(index as nat);
            shown::lemma_sum("下载视频 "@, number, " → "@);
            shown::lemma_sum("下载视频 "@, number + " → "@, path);
            shown::lemma_at_end("下载视频 "@, number + " → "@ + path);
        },
        EventView::Progress { index, downloaded_bytes, total_bytes } => {
            let front = "\r下载视频 "@ + text::decimal(index as nat) + "："@;
            if total_bytes is Some && total_bytes->0 > 0 {
                let total = total_bytes->0;
                let share = text::decimal((hundredfold(downloaded_bytes) / total) as nat);
                lemma_in_three(share);
                let padding = text::repeat(" "@, (3 - share.len()) as nat);
                if share.len() < 3 {
                    shown::lemma_sum(front, padding, share);
                    shown::lemma_sum(front + padding, share, "%"@);
                    shown::lemma_at_end(front + padding, share + "%"@);
                } else {
                    shown::lemma_sum(front, share, "%"@);
                    shown::lemma_at_end(front, share + "%"@);
                }
            } else {
                let number = text::decimal(downloaded_bytes as nat);
                shown::lemma_sum(front, number, " bytes"@);
                shown::lemma_at_end(front, number + " bytes"@);
            }
        },
        EventView::Finished { index, path, bytes } => {
            let number = text::decimal(bytes as nat);
            let tail = number + " bytes）"@;
            let first = "\r下载视频 "@ + text::decimal(index as nat) + "：完成（"@;
            let second = "视频 "@ + text::decimal(index as nat) + " 下载完成（"@;
            shown::lemma_sum(first, number, " bytes）"@);
            shown::lemma_sum(second, number, " bytes）"@);
            shown::lemma_at_end(first, tail);
            shown::lemma_at_end(second, tail);
        },
    }
}

proof fn lemma_in_three(value: Seq<char>)
    ensures
        value.len() < 3 ==> in_three(value) == text::repeat(" "@, (3 - value.len()) as nat) + value,
        value.len() >= 3 ==> in_three(value) == value,
{
}

/// Every warning is shown behind the word for one, in order.
pub proof fn law_warnings_are_shown(arguments: ArgumentsView, warnings: Seq<Seq<char>>, at: int)
    requires
        !arguments.quiet,
        0 <= at < warnings.len(),
    ensures
        shown_warnings(arguments, warnings)[at] == "警告："@ + warnings[at],
{
}

} // verus!
