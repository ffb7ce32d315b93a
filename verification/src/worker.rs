//! The rules of the public HTTP service: routes, parameters and answers.

use core::str::FromStr;

use vstd::prelude::*;

use crate::cli;
use crate::error::error_view;
use crate::error::plain_error;
use crate::error::result_model;
use crate::error::status_of;
use crate::error::ErrorKind;
use crate::error::ErrorView;
use crate::error::XReadError;
use crate::human;
use crate::markdown;
use crate::model::choice;
use crate::model::config_check;
use crate::model::default_config;
use crate::model::options_check;
use crate::model::reply_mode_named;
use crate::model::sort_mode_named;
use crate::model::ConfigView;
use crate::model::OptionsView;
use crate::model::ReadOptions;
use crate::model::ReadResult;
use crate::model::ReaderConfig;
use crate::model::ReplyMode;
use crate::model::ResultView;
use crate::model::SortMode;
use crate::model::VideoQuality;
use crate::model::DEFAULT_LIMIT;
use crate::model::DEFAULT_RETRIES;
use crate::model::DEFAULT_TIMEOUT_MS;
use crate::render;
use crate::render::format_named;
use crate::render::OutputFormat;
use crate::text;
use crate::video;

verus! {

// ----------------------------------------------------------------------
// Routes

/// The methods that the service tells apart.
#[derive(Debug, Clone, Copy, PartialEq, Eq, Structural)]
pub enum HttpMethod {
    Get,
    Options,
    Other,
}

/// What a request is, before its parameters are read.
#[derive(Debug)]
pub enum Route {
    /// A browser asks what is allowed: answer 204 without a body.
    Preflight,
    /// Answer that the service is alive.
    Health,
    /// Answer the error, with the status.
    Refuse(XReadError, u16),
    /// Read the parameters.
    Serve,
}

/// The model of `Route`.
pub enum RouteView {
    Preflight,
    Health,
    Refuse(ErrorView, u16),
    Serve,
}

impl DeepView for Route {
    type V = RouteView;

    open spec fn deep_view(&self) -> RouteView {
        match self {
            Route::Preflight => RouteView::Preflight,
            Route::Health => RouteView::Health,
            Route::Refuse(error, status) => RouteView::Refuse(error.deep_view(), *status),
            Route::Serve => RouteView::Serve,
        }
    }
}

/// What a request with a method and a path is.
pub open spec fn route_of(method: HttpMethod, path: Seq<char>) -> RouteView {
    if method == HttpMethod::Options {
        RouteView::Preflight
    } else if method != HttpMethod::Get {
        RouteView::Refuse(plain_error(ErrorKind::InvalidInput, "只支持 GET 请求。"@), 405)
    } else if path == "/health"@ {
        RouteView::Health
    } else if path == "/download"@ {
        RouteView::Refuse(
            plain_error(
                ErrorKind::InvalidInput,
                "Worker 不代理视频文件；请使用 /videos 获取直链，或用 CLI 的 --download。"@,
            ),
            400,
        )
    } else {
        RouteView::Serve
    }
}

/// Decides what a request is.
pub fn route(method: HttpMethod, path: &str) -> (out: Route)
    ensures
        out.deep_view() == route_of(method, path@),
{
    match method {
        HttpMethod::Options => Route::Preflight,
        HttpMethod::Other => Route::Refuse(XReadError::invalid_input("只支持 GET 请求。"), 405),
        HttpMethod::Get => {
            if text::same(path, "/health") {
                Route::Health
            } else if text::same(path, "/download") {
                let error = XReadError::invalid_input(
                    "Worker 不代理视频文件；请使用 /videos 获取直链，或用 CLI 的 --download。",
                );
                let status: u16 = error.response_status();
                Route::Refuse(error, status)
            } else {
                Route::Serve
            }
        },
    }
}

// ----------------------------------------------------------------------
// Parameters

/// The parameters of a request.
#[derive(Debug)]
pub struct Query {
    pub url: Option<String>,
    pub replies: Option<String>,
    pub limit: Option<usize>,
    pub sort: Option<String>,
    pub lang: Option<String>,
    pub format: Option<String>,
    pub quality: Option<String>,
    pub video: Option<usize>,
}

/// The model of `Query`.
pub struct QueryView {
    pub url: Option<Seq<char>>,
    pub replies: Option<Seq<char>>,
    pub limit: Option<usize>,
    pub sort: Option<Seq<char>>,
    pub lang: Option<Seq<char>>,
    pub format: Option<Seq<char>>,
    pub quality: Option<Seq<char>>,
    pub video: Option<usize>,
}

impl DeepView for Query {
    type V = QueryView;

    open spec fn deep_view(&self) -> QueryView {
        QueryView {
            url: self.url.deep_view(),
            replies: self.replies.deep_view(),
            limit: self.limit,
            sort: self.sort.deep_view(),
            lang: self.lang.deep_view(),
            format: self.format.deep_view(),
            quality: self.quality.deep_view(),
            video: self.video,
        }
    }
}

/// The input that stands in the path itself, as older callers put it.
pub open spec fn input_in_path(path: Seq<char>) -> Option<Seq<char>> {
    let input = text::trim_start_by(path, text::among(seq!['/']));
    if input.len() == 0 || input == "read"@ || input == "videos"@ {
        None
    } else {
        Some(input)
    }
}

/// Finds the input that stands in the path itself.
pub fn legacy_path_input(path: &str) -> (out: Option<String>)
    ensures
        out.deep_view() == input_in_path(path@),
{
    let slash: [char; 1] = ['/'];
    assert(slash@ == seq!['/']);
    let input = text::trim_start_set(path, &slash);
    if input.is_empty() || text::same(input, "read") || text::same(input, "videos") {
        None
    } else {
        Some(input.to_owned())
    }
}

/// What a request is about: what its parameter says, else its path.
pub open spec fn input_for(query: QueryView, path: Seq<char>) -> Option<Seq<char>> {
    match query.url {
        Some(url) => Some(url),
        None => input_in_path(path),
    }
}

/// Finds what a request is about.
pub fn find_input(query: &Query, path: &str) -> (out: Option<String>)
    ensures
        out.deep_view() == input_for(query.deep_view(), path@),
{
    match &query.url {
        Some(url) => Some(url.clone()),
        None => legacy_path_input(path),
    }
}

/// What is read for a request with this path.
#[derive(Debug, Clone, Copy, PartialEq, Eq, Structural)]
pub enum Operation {
    Read,
    Videos,
}

/// What a path asks for: posts at `/` and `/read`, and videos everywhere else.
pub open spec fn operation_of(path: Seq<char>) -> Operation {
    if path == "/"@ || path == "/read"@ {
        Operation::Read
    } else {
        Operation::Videos
    }
}

/// Decides what a path asks for.
pub fn operation(path: &str) -> (out: Operation)
    ensures
        out == operation_of(path@),
{
    if text::same(path, "/") || text::same(path, "/read") {
        Operation::Read
    } else {
        Operation::Videos
    }
}

/// The format that a request asks for. JSON stays the default of the service.
pub open spec fn format_of(query: QueryView) -> Result<OutputFormat, ErrorView> {
    choice(
        format_named(
            match query.format {
                Some(name) => name,
                None => "json"@,
            },
        ),
        "format 只接受 markdown、text、json 或 human。"@,
    )
}

/// Finds the format that a request asks for.
pub fn worker_format(query: &Query) -> (out: Result<OutputFormat, XReadError>)
    ensures
        error_view(out) == format_of(query.deep_view()),
{
    let name = match &query.format {
        Some(name) => name.as_str(),
        None => "json",
    };
    OutputFormat::from_str(name)
}

/// The options of a reading, or what is wrong with them.
pub open spec fn options_of(query: QueryView) -> Result<OptionsView, ErrorView> {
    let mode = match query.replies {
        Some(name) => match choice(reply_mode_named(name), "replies 只接受 direct、replies 或 thread。"@) {
            Ok(mode) => Ok(Some(mode)),
            Err(error) => Err(error),
        },
        None => Ok(None),
    };
    let sort = match query.sort {
        Some(name) => choice(sort_mode_named(name), "sort 只接受 relevance 或 recent。"@),
        None => Ok(SortMode::Relevance),
    };
    match (mode, sort) {
        (Err(error), _) => Err(error),
        (_, Err(error)) => Err(error),
        (Ok(reply_mode), Ok(sort)) => {
            let options = OptionsView {
                reply_mode,
                limit: match query.limit {
                    Some(limit) => limit,
                    None => DEFAULT_LIMIT,
                },
                sort,
                lang: text::lower_case(
                    match query.lang {
                        Some(lang) => lang,
                        None => "en"@,
                    },
                ),
            };
            match options_check(options) {
                Ok(_) => Ok(options),
                Err(error) => Err(error),
            }
        },
    }
}

/// Reads the options of a reading.
pub fn read_options(query: &Query) -> (out: Result<ReadOptions, XReadError>)
    ensures
        result_model(out) == options_of(query.deep_view()),
{
    let mut reply_mode: Option<ReplyMode> = None;
    if let Some(name) = &query.replies {
        match ReplyMode::from_str(name.as_str()) {
            Ok(mode) => {
                reply_mode = Some(mode);
            },
            Err(error) => {
                return Err(error);
            },
        }
    }
    let mut sort = SortMode::Relevance;
    if let Some(name) = &query.sort {
        match SortMode::from_str(name.as_str()) {
            Ok(named) => {
                sort = named;
            },
            Err(error) => {
                return Err(error);
            },
        }
    }
    let limit: usize = match query.limit {
        Some(limit) => limit,
        None => DEFAULT_LIMIT,
    };
    let lang = match &query.lang {
        Some(lang) => lang.as_str(),
        None => "en",
    };
    let options = ReadOptions { reply_mode, limit, sort, lang: text::to_lower(lang) };
    match options.validate() {
        Ok(_) => Ok(options),
        Err(error) => Err(error),
    }
}

// ----------------------------------------------------------------------
// Plans

/// What to read for a request, and how to answer.
#[derive(Debug)]
pub enum Task {
    Read(ReadOptions, OutputFormat),
    Videos(VideoQuality, OutputFormat),
}

/// The model of `Task`.
pub enum TaskView {
    Read(OptionsView, OutputFormat),
    Videos(VideoQuality, OutputFormat),
}

impl DeepView for Task {
    type V = TaskView;

    open spec fn deep_view(&self) -> TaskView {
        match self {
            Task::Read(options, format) => TaskView::Read(options.deep_view(), *format),
            Task::Videos(quality, format) => TaskView::Videos(*quality, *format),
        }
    }
}

/// What a request asks for, or what is wrong with its parameters.
pub open spec fn task_of(query: QueryView, path: Seq<char>) -> Result<TaskView, ErrorView> {
    match format_of(query) {
        Err(error) => Err(error),
        Ok(format) => match operation_of(path) {
            Operation::Videos => match cli::quality_for(query.quality) {
                Ok(quality) => Ok(TaskView::Videos(quality, format)),
                Err(error) => Err(error),
            },
            Operation::Read => if query.quality is Some || query.video is Some {
                Err(
                    plain_error(
                        ErrorKind::InvalidInput,
                        "quality 和 video 只适用于 /videos；CLI 下载请使用 --download。"@,
                    ),
                )
            } else {
                match options_of(query) {
                    Ok(options) => Ok(TaskView::Read(options, format)),
                    Err(error) => Err(error),
                }
            },
        },
    }
}

/// Decides what a request asks for.
pub fn plan(query: &Query, path: &str) -> (out: Result<Task, XReadError>)
    ensures
        result_model(out) == task_of(query.deep_view(), path@),
{
    let format = match worker_format(query) {
        Ok(format) => format,
        Err(error) => {
            return Err(error);
        },
    };
    match operation(path) {
        Operation::Videos => match cli::resolve_quality(&query.quality) {
            Ok(quality) => Ok(Task::Videos(quality, format)),
            Err(error) => Err(error),
        },
        Operation::Read => {
            if query.quality.is_some() || query.video.is_some() {
                return Err(
                    XReadError::invalid_input(
                        "quality 和 video 只适用于 /videos；CLI 下载请使用 --download。",
                    ),
                );
            }
            match read_options(query) {
                Ok(options) => Ok(Task::Read(options, format)),
                Err(error) => Err(error),
            }
        },
    }
}

// ----------------------------------------------------------------------
// The description of the service

/// How to use the service, for people.
pub const HELP: &'static str =
    "xread - read public X/Twitter posts without an X API token\n\nUsage:\n  GET /read?url=<X URL or status ID>\n  GET /videos?url=<X URL or status ID>\n  GET /<X URL>\n  GET /health\n\nEndpoints:\n  /read      One post, optionally with replies (default: JSON)\n  /videos    One MP4 URL per video (default: JSON)\n  /<X URL>   The same as /videos\n  /health    Liveness check\n\nOptions:\n  url        X URL, status ID, or text that contains a URL\n  replies    direct, replies or thread (default: no replies)\n  limit      1..1000 (default: 20)\n  sort       relevance or recent (default: relevance)\n  lang       en, zh-cn, ... (default: en)\n  format     json, markdown, text or human (default: json)\n  quality    best, worst or 144..4320, /videos only (default: best)\n  video      One-based position of a video, /videos only (default: all)\n\nExamples:\n  /read?url=463440424141459456\n  /read?url=463440424141459456&format=markdown\n  /read?url=463440424141459456&replies=thread&sort=recent&format=text\n  /videos?url=463440424141459456&quality=720&video=1\n\nMachine-readable description: /?format=json\n";

/// How to use the service, for programs.
#[derive(Debug)]
pub struct Usage {
    pub service: &'static str,
    pub usage: &'static str,
    pub video_usage: &'static str,
    pub example: &'static str,
    pub formats: [&'static str; 4],
    pub reply_modes: [&'static str; 2],
}

/// Describes the service.
pub fn usage() -> (out: Usage)
    ensures
        out.service@ == "xread"@,
        out.usage@ == "GET /read?url=<X URL or status ID>"@,
        out.video_usage@ == "GET /videos?url=<X URL or status ID>"@,
        out.example@
            == "/read?url=https%3A%2F%2Fx.com%2FInterior%2Fstatus%2F463440424141459456&replies=direct"@,
        out.formats@.len() == 4,
        out.formats@[0]@ == "json"@,
        out.formats@[1]@ == "markdown"@,
        out.formats@[2]@ == "text"@,
        out.formats@[3]@ == "human"@,
        out.reply_modes@.len() == 2,
        out.reply_modes@[0]@ == "direct"@,
        out.reply_modes@[1]@ == "thread"@,
{
    Usage {
        service: "xread",
        usage: "GET /read?url=<X URL or status ID>",
        video_usage: "GET /videos?url=<X URL or status ID>",
        example: "/read?url=https%3A%2F%2Fx.com%2FInterior%2Fstatus%2F463440424141459456&replies=direct",
        formats: ["json", "markdown", "text", "human"],
        reply_modes: ["direct", "thread"],
    }
}

/// Whether a request without input is answered with the text for people: at
/// `/`, unless JSON is asked for.
pub open spec fn wants_help(query: QueryView, path: Seq<char>) -> bool {
    path == "/"@ && !(query.format matches Some(name) && format_named(name) == Some(
        OutputFormat::Json,
    ))
}

/// Decides how a request without input is answered.
pub fn answers_help(query: &Query, path: &str) -> (out: bool)
    ensures
        out == wants_help(query.deep_view(), path@),
{
    if !text::same(path, "/") {
        return false;
    }
    match &query.format {
        Some(name) => match OutputFormat::from_str(name.as_str()) {
            Ok(format) => format != OutputFormat::Json,
            Err(_) => true,
        },
        None => true,
    }
}

// ----------------------------------------------------------------------
// Answers

/// The content type of an answer in a format.
pub open spec fn content_type_of(format: OutputFormat) -> Seq<char> {
    match format {
        OutputFormat::Json => "application/json"@,
        OutputFormat::Markdown => "text/markdown; charset=utf-8"@,
        OutputFormat::Text => "text/plain; charset=utf-8"@,
        OutputFormat::Human => "text/plain; charset=utf-8"@,
    }
}

/// The content type of an answer in a format.
pub fn content_type(format: OutputFormat) -> (out: &'static str)
    ensures
        out@ == content_type_of(format),
{
    match format {
        OutputFormat::Json => "application/json",
        OutputFormat::Markdown => "text/markdown; charset=utf-8",
        OutputFormat::Text => "text/plain; charset=utf-8",
        OutputFormat::Human => "text/plain; charset=utf-8",
    }
}

/// A result in a format that is not JSON.
pub open spec fn view_in(result: ResultView, format: OutputFormat) -> Option<Seq<char>> {
    match format {
        OutputFormat::Json => None,
        OutputFormat::Markdown => Some(markdown::markdown_view(result)),
        OutputFormat::Text => Some(render::text_view(result)),
        OutputFormat::Human => Some(human::human_view(result)),
    }
}

/// Writes a result in a format; none for JSON, which the caller serialises.
pub fn write_result(result: &ReadResult, format: OutputFormat) -> (out: Option<String>)
    ensures
        out.deep_view() == view_in(result.deep_view(), format),
{
    match format {
        OutputFormat::Json => None,
        OutputFormat::Markdown => Some(markdown::render_markdown(result)),
        OutputFormat::Text => Some(render::render_text(result)),
        OutputFormat::Human => Some(human::render_human(result)),
    }
}

/// Selects one URL by its one-based position, or all of them.
pub fn select_video_urls(urls: Vec<String>, requested: Option<usize>) -> (out: Result<
    Vec<String>,
    XReadError,
>)
    ensures
        result_model(out) == video::selected_urls(
            urls.deep_view(),
            requested,
            "video 从 1 开始计数，例如 video=1。"@,
            "video="@,
        ),
{
    video::select_urls(
        urls,
        requested,
        "video 从 1 开始计数，例如 video=1。",
        "video=",
    )
}

// ----------------------------------------------------------------------
// Deployment

/// The number that a variable of the deployment holds.
pub open spec fn env_number(name: Seq<char>, value: Option<Seq<char>>, default: u64) -> Result<
    u64,
    ErrorView,
> {
    match value {
        Some(value) => match text::parse_unsigned(value, u64::MAX as nat) {
            Some(number) => Ok(number as u64),
            None => Err(
                plain_error(
                    ErrorKind::Internal,
                    "Worker 环境变量 "@ + name + " 必须是非负整数。"@,
                ),
            ),
        },
        None => Ok(default),
    }
}

/// Reads the number that a variable of the deployment holds.
pub fn parse_env_number(name: &str, value: Option<&str>, default: u64) -> (out: Result<
    u64,
    XReadError,
>)
    ensures
        error_view(out) == env_number(name@, value.deep_view(), default),
{
    match value {
        Some(value) => match text::parse_number(value, u64::MAX) {
            Some(number) => Ok(number),
            None => {
                let message = text::cat3("Worker 环境变量 ", name, " 必须是非负整数。");
                Err(XReadError::internal(message.as_str()))
            },
        },
        None => Ok(default),
    }
}

/// The settings that the variables of the deployment give. A request has no
/// part in them: a public parameter for the base would let anyone send the
/// service anywhere.
pub open spec fn deployed_config(
    base: Option<Seq<char>>,
    timeout: Option<Seq<char>>,
    retries: Option<Seq<char>>,
) -> Result<ConfigView, ErrorView> {
    match env_number("XREAD_TIMEOUT_MS"@, timeout, DEFAULT_TIMEOUT_MS) {
        Err(error) => Err(error),
        Ok(timeout_ms) => match env_number("XREAD_RETRIES"@, retries, DEFAULT_RETRIES as u64) {
            Err(error) => Err(error),
            Ok(retries) => if retries > u8::MAX {
                Err(plain_error(ErrorKind::Internal, "XREAD_RETRIES 超出 u8 范围。"@))
            } else {
                let config = ConfigView {
                    community_base_url: match base {
                        Some(base) => base,
                        None => default_config().community_base_url,
                    },
                    timeout_ms,
                    retries: retries as u8,
                };
                match config_check(config) {
                    Ok(_) => Ok(config),
                    Err(error) => Err(
                        plain_error(
                            ErrorKind::Internal,
                            "Worker 环境变量配置无效："@ + error.message,
                        ),
                    ),
                }
            },
        },
    }
}

/// Reads the settings from the variables of the deployment.
pub fn worker_config(base: Option<String>, timeout: Option<&str>, retries: Option<&str>) -> (out:
    Result<ReaderConfig, XReadError>)
    ensures
        result_model(out) == deployed_config(
            base.deep_view(),
            timeout.deep_view(),
            retries.deep_view(),
        ),
{
    let timeout_ms: u64 = match parse_env_number("XREAD_TIMEOUT_MS", timeout, DEFAULT_TIMEOUT_MS) {
        Ok(timeout_ms) => timeout_ms,
        Err(error) => {
            return Err(error);
        },
    };
    let retries: u64 = match parse_env_number("XREAD_RETRIES", retries, DEFAULT_RETRIES as u64) {
        Ok(retries) => retries,
        Err(error) => {
            return Err(error);
        },
    };
    if retries > u8::MAX as u64 {
        return Err(XReadError::internal("XREAD_RETRIES 超出 u8 范围。"));
    }
    let mut config = ReaderConfig::default();
    if let Some(base) = base {
        config.community_base_url = base;
    }
    config.timeout_ms = timeout_ms;
    config.retries = retries as u8;
    match config.validate() {
        Ok(_) => Ok(config),
        Err(error) => {
            let message = text::cat2(
                "Worker 环境变量配置无效：",
                error.message.as_str(),
            );
            Err(XReadError::internal(message.as_str()))
        },
    }
}

/// The error for settings that no reader can be made with.
pub fn invalid_config(error: &XReadError) -> (out: XReadError)
    ensures
        out.deep_view() == plain_error(
            ErrorKind::Internal,
            "Worker 配置无效："@ + error.message@,
        ),
{
    let message = text::cat2("Worker 配置无效：", error.message.as_str());
    XReadError::internal(message.as_str())
}

// ----------------------------------------------------------------------
// Laws

/// No request makes the service fetch a file: `/download` is refused, whatever
/// the parameters, with the status of an input error.
pub proof fn law_downloads_are_refused(method: HttpMethod)
    ensures
        !(route_of(method, "/download"@) is Serve),
        method == HttpMethod::Get ==> (route_of(method, "/download"@) matches RouteView::Refuse(
            error,
            status,
        ) && status == status_of(error.kind)),
{
    reveal_strlit("/download");
    reveal_strlit("/health");
    assert("/download"@[1] == 'd' && "/health"@[1] == 'h');
}

/// A path that is itself the input asks for its videos, as JSON unless another
/// format is named.
pub proof fn law_inputs_in_the_path_ask_for_videos(query: QueryView, path: Seq<char>)
    requires
        input_in_path(path) is Some,
    ensures
        operation_of(path) == Operation::Videos,
        query.format is None && query.quality is None ==> task_of(query, path) == Ok::<
            TaskView,
            ErrorView,
        >(TaskView::Videos(VideoQuality::Best, OutputFormat::Json)),
{
    reveal_strlit("/");
    reveal_strlit("/read");
    reveal_strlit("read");
    let slashes = text::among(seq!['/']);
    if path == "/"@ {
        assert(seq!['/'][0] == '/');
        assert(slashes(path[0]));
        assert(path.drop_first() == Seq::<char>::empty());
        assert(text::trim_start_by(path.drop_first(), slashes) == Seq::<char>::empty());
        assert(text::trim_start_by(path, slashes) == Seq::<char>::empty());
    }
    if path == "/read"@ {
        assert(seq!['/'][0] == '/');
        assert(slashes(path[0]));
        assert(path.drop_first() == "read"@);
        assert(!slashes("read"@[0]));
        assert(text::trim_start_by(path.drop_first(), slashes) == "read"@);
        assert(text::trim_start_by(path, slashes) == "read"@);
    }
    crate::render::law_format_round_trip(OutputFormat::Json);
    crate::model::law_quality_round_trip(VideoQuality::Best);
}

/// A request that asks what is allowed is told so, `/health` is answered, and
/// every other request but one for a file is served; only `GET` is.
pub proof fn law_requests_find_their_routes(method: HttpMethod, path: Seq<char>)
    ensures
        method == HttpMethod::Options <==> route_of(method, path) is Preflight,
        method == HttpMethod::Other ==> (route_of(method, path) matches RouteView::Refuse(
            error,
            status,
        ) && status == 405 && error.kind == ErrorKind::InvalidInput),
        method == HttpMethod::Get && path == "/health"@ <==> route_of(method, path) is Health,
        method == HttpMethod::Get && path != "/health"@ && path != "/download"@ <==> route_of(
            method,
            path,
        ) is Serve,
        method == HttpMethod::Get && path == "/download"@ ==> (route_of(
            method,
            path,
        ) matches RouteView::Refuse(error, status) && status == 400 && error.kind
            == ErrorKind::InvalidInput),
{
    reveal_strlit("/download");
    reveal_strlit("/health");
    assert("/download"@[1] == 'd' && "/health"@[1] == 'h');
}

/// A parameter comes before the path, and what follows the first slash of a path
/// that is not one of the service's own is the input.
pub proof fn law_inputs_come_from_parameter_or_path(query: QueryView, rest: Seq<char>)
    ensures
        query.url matches Some(url) ==> input_for(query, "/"@ + rest) == Some(url),
        query.url is None && rest.len() > 0 && rest[0] != '/' && rest != "read"@ && rest
            != "videos"@ ==> input_for(query, "/"@ + rest) == Some(rest),
        query.url is None && (rest.len() == 0 || rest == "read"@ || rest == "videos"@)
            ==> input_for(query, "/"@ + rest) is None,
        rest.len() == 0 || rest == "read"@ ==> operation_of("/"@ + rest) == Operation::Read,
        rest.len() > 0 && rest != "read"@ ==> operation_of("/"@ + rest) == Operation::Videos,
{
    reveal_strlit("/");
    reveal_strlit("/read");
    reveal_strlit("read");
    reveal_strlit("videos");
    let path = "/"@ + rest;
    let slashes = text::among(seq!['/']);
    assert(seq!['/'][0] == '/');
    assert(path[0] == '/' && slashes(path[0]));
    assert(path.drop_first() == rest);
    assert("read"@[0] == 'r' && "videos"@[0] == 'v');
    if rest.len() > 0 && rest[0] != '/' {
        assert(!slashes(rest[0]));
        assert(text::trim_start_by(rest, slashes) == rest);
    } else if rest.len() == 0 {
        assert(text::trim_start_by(rest, slashes) == rest);
    }
    assert(text::trim_start_by(path, slashes) == text::trim_start_by(rest, slashes));
    assert("/"@.len() == 1 && "/read"@.len() == 5 && "read"@.len() == 4);
    assert("/read"@ == "/"@ + "read"@);
    if path == "/read"@ {
        assert("/read"@.drop_first() == "read"@);
        assert(rest == path.drop_first());
    }
}

/// A reading takes its options from the parameters of their names, is as JSON
/// unless another format is named, and has no use for those of videos.
pub proof fn law_readings_take_their_parameters(
    query: QueryView,
    path: Seq<char>,
    options: OptionsView,
    format: OutputFormat,
)
    requires
        task_of(query, path) == Ok::<TaskView, ErrorView>(TaskView::Read(options, format)),
    ensures
        path == "/"@ || path == "/read"@,
        query.quality is None && query.video is None,
        query.format is None ==> format == OutputFormat::Json,
        query.format == Some("markdown"@) ==> format == OutputFormat::Markdown,
        query.format == Some("text"@) ==> format == OutputFormat::Text,
        query.format == Some("json"@) ==> format == OutputFormat::Json,
        query.format == Some("human"@) ==> format == OutputFormat::Human,
        query.replies is None <==> options.reply_mode is None,
        query.replies == Some("direct"@) ==> options.reply_mode == Some(ReplyMode::Direct),
        query.replies == Some("replies"@) ==> options.reply_mode == Some(ReplyMode::Direct),
        query.replies == Some("thread"@) ==> options.reply_mode == Some(ReplyMode::Thread),
        query.sort is None ==> options.sort == SortMode::Relevance,
        query.sort == Some("relevance"@) ==> options.sort == SortMode::Relevance,
        query.sort == Some("recent"@) ==> options.sort == SortMode::Recent,
        query.limit matches Some(limit) ==> options.limit == limit,
        query.limit is None ==> options.limit == 20,
        1 <= options.limit <= 1_000,
        query.lang is None ==> options.lang == "en"@,
        query.lang matches Some(lang) ==> options.lang == text::lower_case(lang),
{
    crate::render::law_format_round_trip(OutputFormat::Json);
    crate::render::law_format_round_trip(OutputFormat::Markdown);
    crate::render::law_format_round_trip(OutputFormat::Text);
    crate::render::law_format_round_trip(OutputFormat::Human);
    crate::model::law_rankings_have_their_names(options.sort);
    crate::model::law_reply_modes_have_their_names(Seq::empty());
    reveal_strlit("en");
    assert(text::lower_case("en"@) == "en"@);
}

/// A reading whose parameters are all in order is done, and one with a parameter
/// of videos is refused.
pub proof fn law_readings_in_order_are_done(query: QueryView, path: Seq<char>)
    requires
        path == "/"@ || path == "/read"@,
        query.format is None || query.format == Some("markdown"@) || query.format == Some("text"@)
            || query.format == Some("json"@) || query.format == Some("human"@),
    ensures
        query.quality is None && query.video is None && (query.limit matches Some(limit) ==> 1
            <= limit <= 1_000) && query.lang is None && (query.replies is None || query.replies
            == Some("direct"@) || query.replies == Some("thread"@)) && (query.sort is None
            || query.sort == Some("relevance"@) || query.sort == Some("recent"@)) ==> (task_of(
            query,
            path,
        ) matches Ok(TaskView::Read(options, format))),
        query.quality is Some || query.video is Some ==> (task_of(query, path) matches Err(error)
            && error.kind == ErrorKind::InvalidInput),
        query.limit == Some(0usize) ==> task_of(query, path) is Err,
        query.limit matches Some(limit) ==> (limit > 1_000 ==> task_of(query, path) is Err),
{
    crate::render::law_format_round_trip(OutputFormat::Json);
    crate::render::law_format_round_trip(OutputFormat::Markdown);
    crate::render::law_format_round_trip(OutputFormat::Text);
    crate::render::law_format_round_trip(OutputFormat::Human);
    crate::model::law_rankings_have_their_names(SortMode::Recent);
    crate::model::law_reply_modes_have_their_names(Seq::empty());
    reveal_strlit("en");
    assert(text::lower_case("en"@) == "en"@);
    let config = crate::model::default_config();
    if let Ok(options) = options_of(query) {
        crate::model::law_limits(options, config);
    }
    if query.lang is None {
        let options = OptionsView {
            reply_mode: None,
            limit: match query.limit {
                Some(limit) => limit,
                None => 20,
            },
            sort: SortMode::Relevance,
            lang: "en"@,
        };
        crate::model::law_limits(options, config);
    }
}

/// A request for videos takes its quality and its format from the parameters of
/// their names; the best quality and JSON are meant where none is named.
pub proof fn law_videos_take_their_parameters(query: QueryView, path: Seq<char>)
    requires
        path != "/"@,
        path != "/read"@,
    ensures
        task_of(query, path) matches Ok(task) ==> (task matches TaskView::Videos(quality, format)
            && (query.quality is None ==> quality == VideoQuality::Best) && (query.quality == Some(
            "worst"@,
        ) ==> quality == VideoQuality::Worst) && (query.format is None ==> format
            == OutputFormat::Json) && (query.format == Some("markdown"@) ==> format
            == OutputFormat::Markdown)),
        (query.quality is None || query.quality == Some("best"@) || query.quality == Some(
            "worst"@,
        )) && (query.format is None || query.format == Some("json"@)) ==> task_of(query, path)
            is Ok,
        task_of(query, path) matches Err(error) ==> error.kind == ErrorKind::InvalidInput,
{
    crate::render::law_format_round_trip(OutputFormat::Json);
    crate::render::law_format_round_trip(OutputFormat::Markdown);
    crate::model::law_quality_round_trip(VideoQuality::Best);
    crate::model::law_quality_round_trip(VideoQuality::Worst);
}

/// Every format has its content type and its view; JSON has no text.
pub proof fn law_formats_have_their_answers(result: ResultView)
    ensures
        content_type_of(OutputFormat::Json) == "application/json"@,
        content_type_of(OutputFormat::Markdown) == "text/markdown; charset=utf-8"@,
        content_type_of(OutputFormat::Text) == "text/plain; charset=utf-8"@,
        content_type_of(OutputFormat::Human) == "text/plain; charset=utf-8"@,
        view_in(result, OutputFormat::Json) is None,
        view_in(result, OutputFormat::Markdown) == Some(markdown::markdown_view(result)),
        view_in(result, OutputFormat::Text) == Some(render::text_view(result)),
        view_in(result, OutputFormat::Human) == Some(human::human_view(result)),
{
}

/// A request without input is answered with the text for people at `/` alone,
/// and there unless it asks for JSON.
pub proof fn law_help_is_at_the_root(query: QueryView, path: Seq<char>)
    ensures
        path != "/"@ ==> !wants_help(query, path),
        path == "/"@ && query.format is None ==> wants_help(query, path),
        query.format == Some("json"@) ==> !wants_help(query, path),
        path == "/"@ && query.format == Some("markdown"@) ==> wants_help(query, path),
{
    crate::render::law_format_round_trip(OutputFormat::Json);
    crate::render::law_format_round_trip(OutputFormat::Markdown);
}

/// The variables of the deployment are the settings: each its own, and the usual
/// one where it is not set. Settings out of bounds are the fault of the service.
pub proof fn law_variables_are_the_settings(base: Option<Seq<char>>, timeout: u64, retries: u64)
    ensures
        1_000 <= timeout <= 120_000 && retries <= 5 ==> (deployed_config(
            base,
            Some(text::decimal(timeout as nat)),
            Some(text::decimal(retries as nat)),
        ) matches Ok(config) && config.timeout_ms == timeout && config.retries == retries && (
        base matches Some(base) ==> config.community_base_url == base) && (base is None
            ==> config.community_base_url == "https://api.fxtwitter.com/2"@)),
        1_000 <= timeout <= 120_000 ==> (deployed_config(
            base,
            Some(text::decimal(timeout as nat)),
            None,
        ) matches Ok(config) && config.timeout_ms == timeout && config.retries == 2),
        retries <= 5 ==> (deployed_config(
            base,
            None,
            Some(text::decimal(retries as nat)),
        ) matches Ok(config) && config.timeout_ms == 12_000 && config.retries == retries),
        timeout < 1_000 || timeout > 120_000 || retries > 5 ==> (deployed_config(
            base,
            Some(text::decimal(timeout as nat)),
            Some(text::decimal(retries as nat)),
        ) matches Err(error) && error.kind == ErrorKind::Internal),
{
    text::law_decimal_round_trip(timeout as nat);
    text::law_decimal_round_trip(retries as nat);
}

} // verus!
