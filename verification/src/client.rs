//! The reader: which upstream services are asked, in which order, and what is
//! made of their answers.
//!
//! The community source has structured data. The embedding service is smaller,
//! but official, and can still return the post itself where the community
//! source fails. The reader performs no request: it says what to fetch, and is
//! handed what came back.

use vstd::prelude::*;

use crate::bridge;
use crate::bridge::UrlParts;
use crate::bridge::UrlView;
use crate::conversation;
use crate::conversation::Conversation;
use crate::conversation::ConversationView;
use crate::error::hinted_error;
use crate::error::plain_error;
use crate::error::result_model;
use crate::error::ErrorKind;
use crate::error::ErrorView;
use crate::error::XReadError;
use crate::json;
use crate::json::Json;
use crate::json::JsonView;
use crate::model::config_check;
use crate::model::options_check;
use crate::model::reply_mode_name;
use crate::model::sort_mode_name;
use crate::model::sort_mode_ranking;
use crate::model::ConfigView;
use crate::model::OptionsView;
use crate::model::Post;
use crate::model::PostReference;
use crate::model::PostView;
use crate::model::ReadOptions;
use crate::model::ReadResult;
use crate::model::ReaderConfig;
use crate::model::ReferenceView;
use crate::model::ReplyInfo;
use crate::model::ReplyInfoView;
use crate::model::ReplyMode;
use crate::model::ResultView;
use crate::model::SortMode;
use crate::model::VideoQuality;
use crate::normalize;
use crate::oembed;
use crate::parse;
use crate::text;
use crate::transport;
use crate::transport::HttpOutcome;
use crate::transport::Next;
use crate::video;

verus! {

/// Where the embedding service is.
pub const OEMBED_ENDPOINT: &'static str = "https://publish.x.com/oembed";

// ----------------------------------------------------------------------
// The reader

/// Reusable application service: the settings of a reader, checked.
#[derive(Debug)]
pub struct XReader {
    community_base_url: String,
    timeout_ms: u64,
    retries: u8,
}

/// The model of `XReader`.
pub struct ReaderView {
    pub community_base_url: Seq<char>,
    pub timeout_ms: u64,
    pub retries: u8,
}

impl View for XReader {
    type V = ReaderView;

    closed spec fn view(&self) -> ReaderView {
        ReaderView {
            community_base_url: self.community_base_url@,
            timeout_ms: self.timeout_ms,
            retries: self.retries,
        }
    }
}

impl Clone for XReader {
    fn clone(&self) -> (out: Self)
        ensures
            out@ == self@,
    {
        proof {
            use_type_invariant(self);
        }
        XReader {
            community_base_url: self.community_base_url.clone(),
            timeout_ms: self.timeout_ms,
            retries: self.retries,
        }
    }
}

/// The base address without slashes at its end.
pub open spec fn without_slashes(value: Seq<char>) -> Seq<char> {
    text::trim_end_by(value, text::among(seq!['/']))
}

/// A reader with the given settings, where `base` is what their base address
/// spells; or what is wrong with the settings.
pub open spec fn reader_with(config: ConfigView, base: Option<UrlView>) -> Result<
    ReaderView,
    ErrorView,
> {
    match config_check(config) {
        Err(error) => Err(error),
        Ok(_) => match base {
            None => Err(
                plain_error(
                    ErrorKind::InvalidInput,
                    "community base 需要有效的 http(s) URL，例如 https://api.fxtwitter.com/2。"@,
                ),
            ),
            Some(url) => if url.scheme == "http"@ || url.scheme == "https"@ {
                Ok(
                    ReaderView {
                        community_base_url: url.href,
                        timeout_ms: config.timeout_ms,
                        retries: config.retries,
                    },
                )
            } else {
                Err(plain_error(ErrorKind::InvalidInput, "community base 只接受 http(s) URL。"@))
            },
        },
    }
}

/// A reader with the given settings, or what is wrong with them.
pub open spec fn reader_of(config: ConfigView) -> Result<ReaderView, ErrorView> {
    reader_with(config, bridge::url_parts(without_slashes(config.community_base_url)))
}

/// The model of a reader or an error.
pub open spec fn reader_result(result: Result<XReader, XReadError>) -> Result<
    ReaderView,
    ErrorView,
> {
    match result {
        Ok(reader) => Ok(reader@),
        Err(error) => Err(error.deep_view()),
    }
}

fn trim_slashes(value: &str) -> (out: &str)
    ensures
        out@ == without_slashes(value@),
{
    let slash: [char; 1] = ['/'];
    assert(slash@ == seq!['/']);
    text::trim_end_set(value, &slash)
}

impl XReader {
    #[verifier::type_invariant]
    spec fn is_checked(self) -> bool {
        self.retries <= 5
    }

    /// A reader with the given settings, where `base` is what their base
    /// address spells.
    pub fn from_parts(config: ReaderConfig, base: Option<UrlParts>) -> (out: Result<
        Self,
        XReadError,
    >)
        ensures
            reader_result(out) == reader_with(config.deep_view(), base.deep_view()),
    {
        if let Err(error) = config.validate() {
            return Err(error);
        }
        let url = match base {
            Some(url) => url,
            None => {
                return Err(
                    XReadError::invalid_input(
                        "community base 需要有效的 http(s) URL，例如 https://api.fxtwitter.com/2。",
                    ),
                );
            },
        };
        if !text::same(url.scheme.as_str(), "http") && !text::same(url.scheme.as_str(), "https") {
            return Err(XReadError::invalid_input("community base 只接受 http(s) URL。"));
        }
        Ok(
            XReader {
                community_base_url: url.href,
                timeout_ms: config.timeout_ms,
                retries: config.retries,
            },
        )
    }

    /// A reader with the given settings.
    pub fn new(config: ReaderConfig) -> (out: Result<Self, XReadError>)
        ensures
            reader_result(out) == reader_of(config.deep_view()),
    {
        let base = bridge::parse_url(trim_slashes(config.community_base_url.as_str()));
        Self::from_parts(config, base)
    }

    /// The time limit of one request, in milliseconds.
    pub fn timeout_ms(&self) -> (out: u64)
        ensures
            out == self@.timeout_ms,
    {
        self.timeout_ms
    }

    /// How often a request may be repeated.
    pub fn retries(&self) -> (out: u8)
        ensures
            out == self@.retries,
            out <= 5,
    {
        proof {
            use_type_invariant(self);
        }
        self.retries
    }

    /// Decides what to do after an attempt of a request, counted from zero.
    pub fn after_attempt(&self, label: &str, attempt: u8, outcome: HttpOutcome) -> (out: Next)
        ensures
            out.deep_view() == transport::next_step(
                label@,
                self@.timeout_ms,
                self@.retries,
                attempt,
                outcome.deep_view(),
            ),
    {
        proof {
            use_type_invariant(self);
        }
        transport::after_attempt(label, self.timeout_ms, self.retries, attempt, outcome)
    }
}

// ----------------------------------------------------------------------
// Addresses

/// A request: where to, and what the service is called.
pub struct Fetch {
    pub url: String,
    pub label: String,
}

/// The model of `Fetch`.
pub struct FetchView {
    pub url: Seq<char>,
    pub label: Seq<char>,
}

impl DeepView for Fetch {
    type V = FetchView;

    open spec fn deep_view(&self) -> FetchView {
        FetchView { url: self.url@, label: self.label@ }
    }
}

/// A request to an address, or that the address cannot be built.
pub open spec fn fetch_at(
    url: Result<Seq<char>, Seq<char>>,
    label: Seq<char>,
    problem: Seq<char>,
) -> Result<FetchView, ErrorView> {
    match url {
        Ok(url) => Ok(FetchView { url, label }),
        Err(error) => Err(plain_error(ErrorKind::Internal, problem + error)),
    }
}

/// The address of a path below the base of the community source. Without the
/// slash at its end the base would count as a file.
pub open spec fn community_address(reader: ReaderView, path: Seq<char>) -> Result<
    Seq<char>,
    Seq<char>,
> {
    bridge::url_joined(without_slashes(reader.community_base_url) + "/"@, path)
}

/// The request for a post.
pub open spec fn post_fetch(reader: ReaderView, id: Seq<char>) -> Result<FetchView, ErrorView> {
    fetch_at(
        community_address(reader, "status/"@ + id),
        "FxTwitter 免费结构化源"@,
        "无法构造上游地址："@,
    )
}

/// The request for a conversation.
pub open spec fn conversation_fetch(reader: ReaderView, id: Seq<char>, ranking: Seq<char>) -> Result<
    FetchView,
    ErrorView,
> {
    fetch_at(
        match community_address(reader, "conversation/"@ + id) {
            Ok(url) => bridge::url_with_pairs(url, seq![("ranking_mode"@, ranking)]),
            Err(error) => Err(error),
        },
        "FxTwitter 免费回复源"@,
        "无法构造上游地址："@,
    )
}

/// The query of the embedding service.
pub open spec fn oembed_query(url: Seq<char>, lang: Seq<char>) -> Seq<(Seq<char>, Seq<char>)> {
    seq![
        ("url"@, url),
        ("omit_script"@, "true"@),
        ("hide_thread"@, "true"@),
        ("dnt"@, "true"@),
        ("lang"@, lang),
    ]
}

/// The request to the embedding service.
pub open spec fn oembed_fetch(url: Seq<char>, lang: Seq<char>) -> Result<FetchView, ErrorView> {
    fetch_at(
        bridge::url_with_pairs(OEMBED_ENDPOINT@, oembed_query(url, lang)),
        "X oEmbed"@,
        "无效的 oEmbed 地址："@,
    )
}

/// Makes a request to an address.
pub fn make_fetch(url: Result<String, String>, label: &str, problem: &str) -> (out: Result<
    Fetch,
    XReadError,
>)
    ensures
        result_model(out) == fetch_at(bridge::result_view(url), label@, problem@),
{
    match url {
        Ok(url) => Ok(Fetch { url, label: label.to_owned() }),
        Err(error) => {
            let message = text::cat2(problem, error.as_str());
            Err(XReadError::internal(message.as_str()))
        },
    }
}

fn pair(name: &str, value: &str) -> (out: (String, String))
    ensures
        out.0@ == name@,
        out.1@ == value@,
{
    (name.to_owned(), value.to_owned())
}

impl XReader {
    fn community_url(&self, path: &str) -> (out: Result<String, String>)
        ensures
            bridge::result_view(out) == community_address(self@, path@),
    {
        let base = text::cat2(trim_slashes(self.community_base_url.as_str()), "/");
        bridge::join_url(base.as_str(), path)
    }

    /// The request for a post.
    pub fn fetch_post(&self, id: &str) -> (out: Result<Fetch, XReadError>)
        ensures
            result_model(out) == post_fetch(self@, id@),
    {
        let path = text::cat2("status/", id);
        make_fetch(
            self.community_url(path.as_str()),
            "FxTwitter 免费结构化源",
            "无法构造上游地址：",
        )
    }

    /// The request for a conversation.
    pub fn fetch_conversation(&self, id: &str, ranking: &str) -> (out: Result<Fetch, XReadError>)
        ensures
            result_model(out) == conversation_fetch(self@, id@, ranking@),
    {
        let path = text::cat2("conversation/", id);
        let url = match self.community_url(path.as_str()) {
            Ok(url) => {
                let mut pairs: Vec<(String, String)> = Vec::new();
                pairs.push(pair("ranking_mode", ranking));
                assert(pairs.deep_view() == seq![("ranking_mode"@, ranking@)]);
                bridge::add_query(url.as_str(), pairs.as_slice())
            },
            Err(error) => Err(error),
        };
        make_fetch(url, "FxTwitter 免费回复源", "无法构造上游地址：")
    }
}

/// The request to the embedding service.
pub fn fetch_oembed(url: &str, lang: &str) -> (out: Result<Fetch, XReadError>)
    ensures
        result_model(out) == oembed_fetch(url@, lang@),
{
    let mut pairs: Vec<(String, String)> = Vec::new();
    pairs.push(pair("url", url));
    pairs.push(pair("omit_script", "true"));
    pairs.push(pair("hide_thread", "true"));
    pairs.push(pair("dnt", "true"));
    pairs.push(pair("lang", lang));
    assert(pairs.deep_view() == oembed_query(url@, lang@));
    make_fetch(
        bridge::add_query(OEMBED_ENDPOINT, pairs.as_slice()),
        "X oEmbed",
        "无效的 oEmbed 地址：",
    )
}

// ----------------------------------------------------------------------
// Results

/// The error where both sources failed.
pub open spec fn combined_error(community: ErrorView, oembed: ErrorView) -> ErrorView {
    hinted_error(
        ErrorKind::Upstream,
        "免费结构化源与 oEmbed 都无法读取该推文："@ + community.message + "；"@ + oembed.message,
        "推文可能已删除、受保护，或两个公开服务暂时不可用。"@,
    )
}

/// The error where both sources failed.
pub fn combined_source_error(community: &XReadError, oembed: &XReadError) -> (out: XReadError)
    ensures
        out.deep_view() == combined_error(community.deep_view(), oembed.deep_view()),
{
    let message = text::cat4(
        "免费结构化源与 oEmbed 都无法读取该推文：",
        community.message.as_str(),
        "；",
        oembed.message.as_str(),
    );
    XReadError::upstream(message.as_str()).with_hint(
        "推文可能已删除、受保护，或两个公开服务暂时不可用。",
    )
}

/// How replies were read.
pub open spec fn reply_info(
    options: OptionsView,
    mode: ReplyMode,
    available_count: Option<u64>,
    count: usize,
    error: Option<Seq<char>>,
    truncated: bool,
) -> ReplyInfoView {
    ReplyInfoView {
        available_count,
        backend: "community"@,
        conversation_id: None,
        count,
        error,
        limit: options.limit,
        mode: reply_mode_name(mode),
        range: "community-first-page"@,
        sort: sort_mode_name(options.sort),
        truncated,
    }
}

/// The result of a conversation.
pub open spec fn conversation_result(
    options: OptionsView,
    mode: ReplyMode,
    conversation: ConversationView,
) -> ResultView {
    ResultView {
        post: conversation.post,
        replies: conversation.replies,
        reply_info: Some(
            reply_info(
                options,
                mode,
                conversation.available_count,
                conversation.count,
                None,
                conversation.truncated,
            ),
        ),
        warnings: seq![
            "免费回复由第三方 FxTwitter 提供，只包含首批精选/最新评论，不保证完整。"@,
        ],
    }
}

/// The result of a post without replies.
pub open spec fn post_result(post: PostView) -> ResultView {
    ResultView { post, replies: Seq::empty(), reply_info: None, warnings: Seq::empty() }
}

/// The result of a post from the embedding service, after the community source
/// failed with an error.
pub open spec fn fallback_result(
    options: OptionsView,
    community: ErrorView,
    post: PostView,
) -> ResultView {
    match options.reply_mode {
        Some(mode) => ResultView {
            post,
            replies: Seq::empty(),
            reply_info: Some(
                reply_info(options, mode, None, 0, Some("FxTwitter 免费结构化源不可用"@), true),
            ),
            warnings: seq![
                "免费回复源暂时不可用，已通过 X oEmbed 返回主推文："@ + community.message,
            ],
        },
        None => ResultView {
            post,
            replies: Seq::empty(),
            reply_info: None,
            warnings: seq![
                "免费结构化源暂时不可用，已退回 X oEmbed；长推文、Article、引用和媒体信息可能不完整："@
                    + community.message,
            ],
        },
    }
}

fn write_reply_info(
    options: &ReadOptions,
    mode: ReplyMode,
    available_count: Option<u64>,
    count: usize,
    error: Option<String>,
    truncated: bool,
) -> (out: ReplyInfo)
    ensures
        out.deep_view() == reply_info(
            options.deep_view(),
            mode,
            available_count,
            count,
            error.deep_view(),
            truncated,
        ),
{
    ReplyInfo {
        available_count,
        backend: "community".to_owned(),
        conversation_id: None,
        count,
        error,
        limit: options.limit,
        mode: mode.as_str().to_owned(),
        range: "community-first-page".to_owned(),
        sort: options.sort.as_str().to_owned(),
        truncated,
    }
}

fn one_line(value: String) -> (out: Vec<String>)
    ensures
        out.deep_view() == seq![value@],
{
    let ghost line = value@;
    let mut out: Vec<String> = Vec::new();
    text::push_line(&mut out, value);
    assert(out.deep_view() == seq![line]);
    out
}

fn no_posts() -> (out: Vec<Post>)
    ensures
        out.deep_view() == Seq::<PostView>::empty(),
{
    let out: Vec<Post> = Vec::new();
    assert(out.deep_view() == Seq::<PostView>::empty());
    out
}

/// Makes the result of a conversation.
pub fn result_of_conversation(
    options: &ReadOptions,
    mode: ReplyMode,
    conversation: Conversation,
) -> (out: ReadResult)
    ensures
        out.deep_view() == conversation_result(
            options.deep_view(),
            mode,
            conversation.deep_view(),
        ),
{
    let info = write_reply_info(
        options,
        mode,
        conversation.available_count,
        conversation.count,
        None,
        conversation.truncated,
    );
    ReadResult {
        post: conversation.post,
        replies: conversation.replies,
        reply_info: Some(info),
        warnings: one_line(
            "免费回复由第三方 FxTwitter 提供，只包含首批精选/最新评论，不保证完整。".to_owned(),
        ),
    }
}

/// Makes the result of a post without replies.
pub fn result_of_post(post: Post) -> (out: ReadResult)
    ensures
        out.deep_view() == post_result(post.deep_view()),
{
    let warnings: Vec<String> = Vec::new();
    assert(warnings.deep_view() == Seq::<Seq<char>>::empty());
    ReadResult { post, replies: no_posts(), reply_info: None, warnings }
}

/// Makes the result of a post from the embedding service, after the community
/// source failed with an error.
pub fn result_of_fallback(
    options: &ReadOptions,
    community: &XReadError,
    post: Post,
) -> (out: ReadResult)
    ensures
        out.deep_view() == fallback_result(
            options.deep_view(),
            community.deep_view(),
            post.deep_view(),
        ),
{
    match options.reply_mode {
        Some(mode) => {
            let error = Some("FxTwitter 免费结构化源不可用".to_owned());
            ReadResult {
                post,
                replies: no_posts(),
                reply_info: Some(write_reply_info(options, mode, None, 0, error, true)),
                warnings: one_line(
                    text::cat2(
                        "免费回复源暂时不可用，已通过 X oEmbed 返回主推文：",
                        community.message.as_str(),
                    ),
                ),
            }
        },
        None => ReadResult {
            post,
            replies: no_posts(),
            reply_info: None,
            warnings: one_line(
                text::cat2(
                    "免费结构化源暂时不可用，已退回 X oEmbed；长推文、Article、引用和媒体信息可能不完整：",
                    community.message.as_str(),
                ),
            ),
        },
    }
}

// ----------------------------------------------------------------------
// Reading

/// What a reading is waiting for.
pub enum Stage {
    /// The answer of the community source.
    Community,
    /// The answer of the embedding service; the community source failed with
    /// this error.
    Oembed(XReadError),
}

/// The model of `Stage`.
pub enum StageView {
    Community,
    Oembed(ErrorView),
}

/// A reading that is under way.
pub struct Reading {
    pub reference: PostReference,
    pub options: ReadOptions,
    pub stage: Stage,
}

/// The model of `Reading`.
pub struct ReadingView {
    pub reference: ReferenceView,
    pub options: OptionsView,
    pub stage: StageView,
}

impl DeepView for Reading {
    type V = ReadingView;

    open spec fn deep_view(&self) -> ReadingView {
        ReadingView {
            reference: self.reference.deep_view(),
            options: self.options.deep_view(),
            stage: match self.stage {
                Stage::Community => StageView::Community,
                Stage::Oembed(error) => StageView::Oembed(error.deep_view()),
            },
        }
    }
}

/// What a reading does next.
pub enum ReadStep {
    /// Perform the request, and hand its answer to `Reading::resume`.
    Fetch(Reading, Fetch),
    /// The reading is over.
    Done(Result<ReadResult, XReadError>),
}

/// The model of `ReadStep`.
pub enum StepView {
    Fetch(ReadingView, FetchView),
    Done(Result<ResultView, ErrorView>),
}

impl DeepView for ReadStep {
    type V = StepView;

    open spec fn deep_view(&self) -> StepView {
        match self {
            ReadStep::Fetch(reading, fetch) => StepView::Fetch(
                reading.deep_view(),
                fetch.deep_view(),
            ),
            ReadStep::Done(result) => StepView::Done(result_model(*result)),
        }
    }
}

/// The step after the community source failed with an error: the embedding
/// service is asked.
pub open spec fn fall_back(
    reference: ReferenceView,
    options: OptionsView,
    community: ErrorView,
) -> StepView {
    match oembed_fetch(reference.url, options.lang) {
        Ok(fetch) => StepView::Fetch(
            ReadingView { reference, options, stage: StageView::Oembed(community) },
            fetch,
        ),
        Err(error) => StepView::Done(Err(combined_error(community, error))),
    }
}

/// The request that a reading begins with.
pub open spec fn first_fetch(reader: ReaderView, id: Seq<char>, options: OptionsView) -> Result<
    FetchView,
    ErrorView,
> {
    match options.reply_mode {
        Some(_) => conversation_fetch(reader, id, sort_mode_ranking(options.sort)),
        None => post_fetch(reader, id),
    }
}

/// The first step of reading the post that a reference names.
pub open spec fn begin(reader: ReaderView, reference: ReferenceView, options: OptionsView) -> StepView {
    match first_fetch(reader, reference.id, options) {
        Ok(fetch) => StepView::Fetch(
            ReadingView { reference, options, stage: StageView::Community },
            fetch,
        ),
        Err(error) => fall_back(reference, options, error),
    }
}

/// The first step of a reading.
pub open spec fn start(reader: ReaderView, input: Seq<char>, options: OptionsView) -> StepView {
    match options_check(options) {
        Err(error) => StepView::Done(Err(error)),
        Ok(_) => match parse::reference_of(input) {
            Err(error) => StepView::Done(Err(error)),
            Ok(reference) => begin(reader, reference, options),
        },
    }
}

/// What the answer of the community source comes to.
pub open spec fn community_result(
    reference: ReferenceView,
    options: OptionsView,
    answer: Result<JsonView, ErrorView>,
) -> Result<ResultView, ErrorView> {
    match answer {
        Err(error) => Err(error),
        Ok(payload) => match options.reply_mode {
            Some(mode) => match conversation::conversation_in(
                payload,
                reference.id,
                options.reply_mode,
                options.limit,
            ) {
                Ok(conversation) => Ok(conversation_result(options, mode, conversation)),
                Err(error) => Err(error),
            },
            None => match conversation::target_post(payload) {
                Ok(post) => Ok(post_result(post)),
                Err(error) => Err(error),
            },
        },
    }
}

/// The post in the answer of the embedding service.
pub open spec fn oembed_answer(
    reference: ReferenceView,
    answer: Result<JsonView, ErrorView>,
) -> Result<PostView, ErrorView> {
    match answer {
        Ok(payload) => oembed::oembed_post(payload, reference.id),
        Err(error) => Err(error),
    }
}

/// What the answer of the embedding service comes to, after the community
/// source failed with an error.
pub open spec fn oembed_result(
    reference: ReferenceView,
    options: OptionsView,
    community: ErrorView,
    answer: Result<JsonView, ErrorView>,
) -> Result<ResultView, ErrorView> {
    match oembed_answer(reference, answer) {
        Ok(post) => Ok(fallback_result(options, community, post)),
        Err(error) => Err(combined_error(community, error)),
    }
}

/// The step after an answer: success ends the reading, a failure of the
/// community source leads to the embedding service, and a failure of that ends
/// it with both errors.
pub open spec fn resume(reading: ReadingView, answer: Result<JsonView, ErrorView>) -> StepView {
    match reading.stage {
        StageView::Community => match community_result(
            reading.reference,
            reading.options,
            answer,
        ) {
            Ok(result) => StepView::Done(Ok(result)),
            Err(error) => fall_back(reading.reference, reading.options, error),
        },
        StageView::Oembed(community) => StepView::Done(
            oembed_result(reading.reference, reading.options, community, answer),
        ),
    }
}

fn copy_options(options: &ReadOptions) -> (out: ReadOptions)
    ensures
        out.deep_view() == options.deep_view(),
{
    ReadOptions {
        reply_mode: options.reply_mode,
        limit: options.limit,
        sort: options.sort,
        lang: options.lang.clone(),
    }
}

fn start_fallback(reference: PostReference, options: ReadOptions, community: XReadError) -> (out:
    ReadStep)
    ensures
        out.deep_view() == fall_back(
            reference.deep_view(),
            options.deep_view(),
            community.deep_view(),
        ),
{
    match fetch_oembed(reference.url.as_str(), options.lang.as_str()) {
        Ok(fetch) => ReadStep::Fetch(
            Reading { reference, options, stage: Stage::Oembed(community) },
            fetch,
        ),
        Err(error) => ReadStep::Done(Err(combined_source_error(&community, &error))),
    }
}

impl XReader {
    /// Begins to read the post that a reference names.
    pub fn begin(&self, reference: PostReference, options: &ReadOptions) -> (out: ReadStep)
        ensures
            out.deep_view() == begin(self@, reference.deep_view(), options.deep_view()),
    {
        let options = copy_options(options);
        let first = match options.reply_mode {
            Some(_) => self.fetch_conversation(
                reference.id.as_str(),
                options.sort.community_value(),
            ),
            None => self.fetch_post(reference.id.as_str()),
        };
        match first {
            Ok(fetch) => ReadStep::Fetch(
                Reading { reference, options, stage: Stage::Community },
                fetch,
            ),
            Err(error) => start_fallback(reference, options, error),
        }
    }

    /// Begins to read one post, optionally together with direct replies or its
    /// thread.
    pub fn start(&self, input: &str, options: &ReadOptions) -> (out: ReadStep)
        ensures
            out.deep_view() == start(self@, input@, options.deep_view()),
    {
        if let Err(error) = options.validate() {
            return ReadStep::Done(Err(error));
        }
        match parse::parse_post_reference(input) {
            Ok(reference) => self.begin(reference, options),
            Err(error) => ReadStep::Done(Err(error)),
        }
    }
}

fn read_community(
    reference: &PostReference,
    options: &ReadOptions,
    answer: Result<Json, XReadError>,
) -> (out: Result<ReadResult, XReadError>)
    ensures
        result_model(out) == community_result(
            reference.deep_view(),
            options.deep_view(),
            transport::answer_view(answer),
        ),
{
    let payload = match answer {
        Ok(payload) => payload,
        Err(error) => {
            return Err(error);
        },
    };
    match options.reply_mode {
        Some(mode) => match conversation::read_conversation(
            &payload,
            reference.id.as_str(),
            options.reply_mode,
            options.limit,
        ) {
            Ok(conversation) => Ok(result_of_conversation(options, mode, conversation)),
            Err(error) => Err(error),
        },
        None => match conversation::read_target(&payload) {
            Ok(post) => Ok(result_of_post(post)),
            Err(error) => Err(error),
        },
    }
}

fn read_oembed(
    reference: &PostReference,
    options: &ReadOptions,
    community: XReadError,
    answer: Result<Json, XReadError>,
) -> (out: Result<ReadResult, XReadError>)
    ensures
        result_model(out) == oembed_result(
            reference.deep_view(),
            options.deep_view(),
            community.deep_view(),
            transport::answer_view(answer),
        ),
{
    let post = match answer {
        Ok(payload) => oembed::normalize_oembed(&payload, reference.id.as_str()),
        Err(error) => Err(error),
    };
    match post {
        Ok(post) => Ok(result_of_fallback(options, &community, post)),
        Err(error) => Err(combined_source_error(&community, &error)),
    }
}

impl Reading {
    /// Goes on with the answer of the request.
    pub fn resume(self, answer: Result<Json, XReadError>) -> (out: ReadStep)
        ensures
            out.deep_view() == resume(self.deep_view(), transport::answer_view(answer)),
    {
        match self.stage {
            Stage::Community => match read_community(&self.reference, &self.options, answer) {
                Ok(result) => ReadStep::Done(Ok(result)),
                Err(error) => start_fallback(self.reference, self.options, error),
            },
            Stage::Oembed(community) => ReadStep::Done(
                read_oembed(&self.reference, &self.options, community, answer),
            ),
        }
    }
}

// ----------------------------------------------------------------------
// Videos

/// The request for the media of the post that an input refers to. Only the
/// community source has media, so there is no fallback: a source that failed
/// must not look like a post without videos.
pub open spec fn media_fetch(reader: ReaderView, input: Seq<char>) -> Result<FetchView, ErrorView> {
    match parse::reference_of(input) {
        Ok(reference) => post_fetch(reader, reference.id),
        Err(error) => Err(error),
    }
}

/// The post that the answer to such a request holds.
pub open spec fn media_answer(answer: Result<JsonView, ErrorView>) -> Result<PostView, ErrorView> {
    match answer {
        Ok(payload) => conversation::target_post(payload),
        Err(error) => Err(error),
    }
}

/// The video URLs of a post, or that it has none.
pub open spec fn urls_or_none(post: PostView, quality: VideoQuality, message: Seq<char>) -> Result<
    Seq<Seq<char>>,
    ErrorView,
> {
    let urls = video::post_urls(post, quality);
    if urls.len() == 0 {
        Err(plain_error(ErrorKind::NoVideo, message))
    } else {
        Ok(urls)
    }
}

impl XReader {
    /// The request for the media of the post that an input refers to.
    pub fn media_request(&self, input: &str) -> (out: Result<Fetch, XReadError>)
        ensures
            result_model(out) == media_fetch(self@, input@),
    {
        match parse::parse_post_reference(input) {
            Ok(reference) => self.fetch_post(reference.id.as_str()),
            Err(error) => Err(error),
        }
    }
}

/// Reads the post from the answer to a request for its media.
pub fn media_post(answer: Result<Json, XReadError>) -> (out: Result<Post, XReadError>)
    ensures
        result_model(out) == media_answer(transport::answer_view(answer)),
{
    match answer {
        Ok(payload) => conversation::read_target(&payload),
        Err(error) => Err(error),
    }
}

/// The video URLs of a post; an error with the given message where it has none.
pub fn urls_of_post(post: &Post, quality: VideoQuality, message: &str) -> (out: Result<
    Vec<String>,
    XReadError,
>)
    ensures
        result_model(out) == urls_or_none(post.deep_view(), quality, message@),
{
    let urls = post.video_urls_with_quality(quality);
    assert(urls@.len() == urls.deep_view().len());
    if urls.len() == 0 {
        Err(XReadError::no_video(message))
    } else {
        Ok(urls)
    }
}

/// One MP4 URL for each video of a post.
pub fn video_urls_of(post: &Post, quality: VideoQuality) -> (out: Result<Vec<String>, XReadError>)
    ensures
        result_model(out) == urls_or_none(
            post.deep_view(),
            quality,
            "该推文中没有找到可下载的视频。"@,
        ),
{
    urls_of_post(post, quality, "该推文中没有找到可下载的视频。")
}

/// The video URLs of the post in the answer to a request for its media.
pub open spec fn videos_in_answer(
    answer: Result<JsonView, ErrorView>,
    quality: VideoQuality,
) -> Result<Seq<Seq<char>>, ErrorView> {
    match media_answer(answer) {
        Ok(post) => urls_or_none(post, quality, "该推文中没有找到可下载的视频。"@),
        Err(error) => Err(error),
    }
}

/// Reads one MP4 URL for each video from the answer to a request for the media
/// of a post.
pub fn video_urls_from(answer: Result<Json, XReadError>, quality: VideoQuality) -> (out: Result<
    Vec<String>,
    XReadError,
>)
    ensures
        result_model(out) == videos_in_answer(transport::answer_view(answer), quality),
{
    match media_post(answer) {
        Ok(post) => video_urls_of(&post, quality),
        Err(error) => Err(error),
    }
}

// ----------------------------------------------------------------------
// Laws

/// A request for videos ends with the URLs of a post, of which there is at
/// least one, or says why not: the error of the request or of its answer, as it
/// is, or that the post has no videos. That a post has none is said of nothing
/// but a post that came and has none.
pub proof fn law_videos_or_the_reason(
    label: Seq<char>,
    timeout_ms: u64,
    retries: u8,
    attempt: u8,
    outcome: transport::OutcomeView,
    answer: Result<JsonView, ErrorView>,
    quality: VideoQuality,
)
    requires
        transport::next_step(label, timeout_ms, retries, attempt, outcome)
            == transport::NextView::Finish(answer),
    ensures
        match media_answer(answer) {
            Err(error) => {
                &&& videos_in_answer(answer, quality) == Err::<Seq<Seq<char>>, ErrorView>(error)
                &&& error.kind != ErrorKind::NoVideo
            },
            Ok(post) => if video::post_urls(post, quality).len() == 0 {
                videos_in_answer(answer, quality) matches Err(error) && error.kind
                    == ErrorKind::NoVideo
            } else {
                videos_in_answer(answer, quality) == Ok::<Seq<Seq<char>>, ErrorView>(
                    video::post_urls(post, quality),
                )
            },
        },
        answer matches Err(error) ==> videos_in_answer(answer, quality) == Err::<
            Seq<Seq<char>>,
            ErrorView,
        >(error),
        videos_in_answer(answer, quality) matches Ok(urls) ==> urls.len() > 0,
        videos_in_answer(answer, quality) matches Err(error) ==> (error.kind == ErrorKind::NoVideo
            ==> (media_answer(answer) matches Ok(post) && video::post_urls(post, quality).len()
            == 0)),
{
}

/// A reading asks at most twice: whatever the community source answers, the
/// reading ends or asks the embedding service for the post, and whatever that
/// answers, the reading ends.
pub proof fn law_readings_end(
    reading: ReadingView,
    first: Result<JsonView, ErrorView>,
    second: Result<JsonView, ErrorView>,
)
    ensures
        reading.stage is Oembed ==> resume(reading, second) is Done,
        resume(reading, first) matches StepView::Fetch(next, fetch) ==> {
            &&& next.stage is Oembed
            &&& oembed_fetch(reading.reference.url, reading.options.lang) == Ok::<
                FetchView,
                ErrorView,
            >(fetch)
            &&& resume(next, second) is Done
        },
{
}

/// Where the community source answers with the post, its result is returned and
/// the embedding service is not asked.
pub proof fn law_structured_data_is_preferred(reading: ReadingView, payload: JsonView)
    requires
        reading.stage is Community,
        conversation::target_post(payload) is Ok,
    ensures
        resume(reading, Ok(payload)) matches StepView::Done(Ok(result)) && result.post
            == conversation::target_post(payload)->Ok_0,
{
}

/// Where the community source fails, the embedding service is asked, and where
/// that answers with the post, the post is returned, with a warning that holds
/// the first error; and where replies were asked for, the result says that they
/// are missing. A reading ends before the second request only where that has no
/// address.
pub proof fn law_failures_fall_back(
    reading: ReadingView,
    first: Result<JsonView, ErrorView>,
    second: Result<JsonView, ErrorView>,
)
    requires
        reading.stage is Community,
        community_result(reading.reference, reading.options, first) is Err,
        oembed_answer(reading.reference, second) is Ok,
    ensures
        match resume(reading, first) {
            StepView::Fetch(next, fetch) => {
                let community = community_result(
                    reading.reference,
                    reading.options,
                    first,
                )->Err_0;
                &&& oembed_fetch(reading.reference.url, reading.options.lang) == Ok::<
                    FetchView,
                    ErrorView,
                >(fetch)
                &&& resume(next, second) matches StepView::Done(Ok(result)) && {
                    &&& result.post == oembed_answer(reading.reference, second)->Ok_0
                    &&& result.replies.len() == 0
                    &&& result.warnings.len() == 1
                    &&& text::contains(result.warnings[0], community.message)
                    &&& reading.options.reply_mode is Some ==> (result.reply_info matches Some(info)
                        && info.error is Some && info.truncated && info.count == 0)
                }
            },
            StepView::Done(result) => {
                &&& oembed_fetch(reading.reference.url, reading.options.lang) is Err
                &&& result is Err
            },
        },
{
    let none = Seq::<char>::empty();
    let community = community_result(reading.reference, reading.options, first)->Err_0;
    text::lemma_contains_middle(
        "免费回复源暂时不可用，已通过 X oEmbed 返回主推文："@,
        community.message,
        none,
    );
    text::lemma_contains_middle(
        "免费结构化源暂时不可用，已退回 X oEmbed；长推文、Article、引用和媒体信息可能不完整："@,
        community.message,
        none,
    );
}

/// An error made of two holds the messages of both.
proof fn lemma_combined(community: ErrorView, oembed: ErrorView)
    ensures
        text::contains(combined_error(community, oembed).message, community.message),
        text::contains(combined_error(community, oembed).message, oembed.message),
{
    let head = "免费结构化源与 oEmbed 都无法读取该推文："@;
    let none = Seq::<char>::empty();
    let whole = combined_error(community, oembed).message;
    text::lemma_contains_middle(head, community.message, "；"@ + oembed.message);
    assert(head + community.message + ("；"@ + oembed.message) == whole);
    text::lemma_contains_middle(head + community.message + "；"@, oembed.message, none);
}

/// Where both sources fail, the reading ends with an upstream error that holds
/// the messages of both.
pub proof fn law_both_errors_are_told(
    reading: ReadingView,
    first: Result<JsonView, ErrorView>,
    second: Result<JsonView, ErrorView>,
)
    requires
        reading.stage is Community,
        community_result(reading.reference, reading.options, first) is Err,
        oembed_answer(reading.reference, second) is Err,
    ensures
        resume(reading, first) matches StepView::Fetch(next, fetch) ==> {
            let community = community_result(reading.reference, reading.options, first)->Err_0;
            let oembed = oembed_answer(reading.reference, second)->Err_0;
            resume(next, second) matches StepView::Done(Err(error)) && {
                &&& error.kind == ErrorKind::Upstream
                &&& text::contains(error.message, community.message)
                &&& text::contains(error.message, oembed.message)
            }
        },
{
    lemma_combined(
        community_result(reading.reference, reading.options, first)->Err_0,
        oembed_answer(reading.reference, second)->Err_0,
    );
}

/// A result with replies holds no more of them than were asked for.
pub proof fn law_results_respect_the_limit(
    reading: ReadingView,
    answer: Result<JsonView, ErrorView>,
)
    requires
        options_check(reading.options) is Ok,
    ensures
        resume(reading, answer) matches StepView::Done(Ok(result)) ==> result.replies.len()
            <= reading.options.limit,
{
    if let Ok(payload) = answer {
        conversation::law_replies_are_wanted(
            payload,
            reading.reference.id,
            reading.options.reply_mode,
            reading.options.limit,
        );
    }
}

/// What the first request of a reading asks for, below the base of the
/// community source: the post by its ID, or with replies its conversation,
/// ranked by likes where relevance is wanted and by recency where the newest
/// are.
pub proof fn law_first_requests(
    reader: ReaderView,
    reference: ReferenceView,
    options: OptionsView,
    base: Seq<char>,
    address: Seq<char>,
    ranked: Seq<char>,
)
    requires
        reader.community_base_url == base || reader.community_base_url == base + "/"@,
        base.len() > 0,
        base.last() != '/',
    ensures
        options.reply_mode is None && bridge::url_joined(base + "/"@, "status/"@ + reference.id)
            == Ok::<Seq<char>, Seq<char>>(address) ==> (begin(reader, reference, options) matches
            StepView::Fetch(reading, fetch) && fetch.url == address && reading.reference
            == reference && reading.options == options),
        options.reply_mode is Some && bridge::url_joined(
            base + "/"@,
            "conversation/"@ + reference.id,
        ) == Ok::<Seq<char>, Seq<char>>(address) ==> {
            &&& options.sort == SortMode::Relevance && bridge::url_with_pairs(
                address,
                seq![("ranking_mode"@, "likes"@)],
            ) == Ok::<Seq<char>, Seq<char>>(ranked) ==> (begin(reader, reference, options) matches
                StepView::Fetch(reading, fetch) && fetch.url == ranked && reading.reference
                == reference && reading.options == options)
            &&& options.sort == SortMode::Recent && bridge::url_with_pairs(
                address,
                seq![("ranking_mode"@, "recency"@)],
            ) == Ok::<Seq<char>, Seq<char>>(ranked) ==> (begin(reader, reference, options) matches
                StepView::Fetch(reading, fetch) && fetch.url == ranked && reading.reference
                == reference && reading.options == options)
        },
{
    reveal_strlit("/");
    let slashes = text::among(seq!['/']);
    let set = seq!['/'];
    assert(set[0] == '/');
    assert(slashes('/'));
    assert(!slashes(base.last()));
    let longer = base + "/"@;
    assert(longer.last() == '/');
    assert(longer.drop_last() == base);
    assert(text::trim_end_by(base, slashes) == base);
    assert(text::trim_end_by(longer, slashes) == base);
}

/// Two readings that differ in the ranking only ask for two rankings.
pub proof fn law_rankings_lead_to_their_own_queries(options: OptionsView, other: OptionsView)
    requires
        options.sort != other.sort,
    ensures
        sort_mode_ranking(options.sort) != sort_mode_ranking(other.sort),
        seq![("ranking_mode"@, sort_mode_ranking(options.sort))] != seq![
            ("ranking_mode"@, sort_mode_ranking(other.sort)),
        ],
{
    crate::model::law_rankings_have_their_names(options.sort);
    let one = seq![("ranking_mode"@, sort_mode_ranking(options.sort))];
    let two = seq![("ranking_mode"@, sort_mode_ranking(other.sort))];
    assert(one[0].1 != two[0].1);
}

/// The videos of a post are asked for under its ID, without replies.
pub proof fn law_requests_for_videos(
    reader: ReaderView,
    input: Seq<char>,
    reference: ReferenceView,
    base: Seq<char>,
    address: Seq<char>,
)
    requires
        reader.community_base_url == base,
        base.len() > 0,
        base.last() != '/',
        parse::reference_of(input) == Ok::<ReferenceView, ErrorView>(reference),
        bridge::url_joined(base + "/"@, "status/"@ + reference.id) == Ok::<Seq<char>, Seq<char>>(
            address,
        ),
    ensures
        media_fetch(reader, input) matches Ok(fetch) && fetch.url == address,
{
    let slashes = text::among(seq!['/']);
    assert(!slashes(base.last()));
    assert(text::trim_end_by(base, slashes) == base);
}

/// The embedding service is asked about the address of the post, in the
/// language of the options, without scripts, threads and tracking.
pub proof fn law_requests_to_the_embedding_service(
    url: Seq<char>,
    lang: Seq<char>,
    address: Seq<char>,
)
    requires
        bridge::url_with_pairs(
            "https://publish.x.com/oembed"@,
            seq![
                ("url"@, url),
                ("omit_script"@, "true"@),
                ("hide_thread"@, "true"@),
                ("dnt"@, "true"@),
                ("lang"@, lang),
            ],
        ) == Ok::<Seq<char>, Seq<char>>(address),
    ensures
        oembed_fetch(url, lang) matches Ok(fetch) && fetch.url == address,
{
}

/// How replies were read is told as it was asked for: the mode, the ranking
/// and the limit of the options, the replies that there are, how many the
/// source counts, and whether some are left out.
pub proof fn law_replies_are_told(
    reading: ReadingView,
    payload: JsonView,
    target: JsonView,
    count: u64,
)
    requires
        reading.stage is Community,
        reading.options.reply_mode is Some,
        json::member(payload, "status"@) == Some(target),
    ensures
        resume(reading, Ok(payload)) matches StepView::Done(Ok(result)) ==> (
        result.reply_info matches Some(info) && {
            &&& reading.options.reply_mode == Some(ReplyMode::Direct) ==> info.mode == "direct"@
            &&& reading.options.reply_mode == Some(ReplyMode::Thread) ==> info.mode == "thread"@
            &&& reading.options.sort == SortMode::Relevance ==> info.sort == "relevance"@
            &&& reading.options.sort == SortMode::Recent ==> info.sort == "recent"@
            &&& info.limit == reading.options.limit
            &&& info.error is None
            &&& result.replies.len() <= usize::MAX ==> info.count == result.replies.len()
            &&& crate::documents::has_count(target, "replies"@, count) ==> info.available_count
                == Some(count)
            &&& crate::documents::has_count(target, "replies"@, count) && count
                > result.replies.len() ==> info.truncated
            &&& json::member(payload, "cursor"@) is None && crate::documents::has_count(
                target,
                "replies"@,
                count,
            ) && count <= result.replies.len() ==> !info.truncated
            &&& result.warnings.len() == 1
        }),
{
}

/// A reading without replies tells nothing of replies and warns of nothing,
/// where the community source has the post.
pub proof fn law_readings_without_replies(reading: ReadingView, payload: JsonView)
    requires
        reading.stage is Community,
        reading.options.reply_mode is None,
        conversation::target_post(payload) is Ok,
    ensures
        resume(reading, Ok(payload)) matches StepView::Done(Ok(result)) && result.reply_info is None
            && result.replies.len() == 0 && result.warnings.len() == 0,
{
}

/// The post that an answer is about stands under `status`.
pub proof fn law_answers_hold_the_post(payload: JsonView, status: JsonView)
    requires
        json::member(payload, "status"@) == Some(status),
    ensures
        normalize::community_post(status, 0) matches Ok(post) ==> conversation::target_post(payload)
            == Ok::<PostView, ErrorView>(post),
        normalize::community_post(status, 0) is Err ==> conversation::target_post(payload) is Err,
{
}

/// Only settings within their limits make a reader, which keeps them; and only
/// a web address is the base of the community source.
pub proof fn law_readers_keep_their_settings(config: ConfigView, base: Option<UrlView>)
    ensures
        reader_with(config, base) matches Ok(reader) ==> {
            &&& reader.timeout_ms == config.timeout_ms
            &&& reader.retries == config.retries
            &&& 1_000 <= config.timeout_ms <= 120_000
            &&& config.retries <= 5
            &&& base matches Some(url) && reader.community_base_url == url.href && (url.scheme
                == "http"@ || url.scheme == "https"@)
        },
        base matches Some(url) ==> (url.scheme == "https"@ && 1_000 <= config.timeout_ms <= 120_000
            && config.retries <= 5 ==> reader_with(config, base) is Ok),
        reader_with(config, base) matches Err(error) ==> error.kind == ErrorKind::InvalidInput,
{
}

/// A reading starts with valid options and a reference only: what is wrong with
/// either is an error about the input and nothing is asked.
pub proof fn law_readings_start(reader: ReaderView, input: Seq<char>, options: OptionsView)
    ensures
        options.limit == 0 || options.limit > 1_000 ==> (start(
            reader,
            input,
            options,
        ) matches StepView::Done(Err(error)) && error.kind == ErrorKind::InvalidInput),
        input.len() == 0 ==> (start(reader, input, options) matches StepView::Done(Err(error))
            && error.kind == ErrorKind::InvalidInput),
        1 <= options.limit <= 1_000 && options.lang == "en"@ && 1 <= input.len() <= 19
            && text::all_digits(input) ==> (start(reader, input, options) matches StepView::Fetch(
            reading,
            fetch,
        ) ==> reading.reference.id == input && reading.options == options),
{
    let config = crate::model::default_config();
    crate::model::law_limits(options, config);
    parse::law_numbers_are_posts(input);
}

/// A fallback tells of replies as they were asked for, and that there are none.
pub proof fn law_fallbacks_tell_what_was_asked(
    options: OptionsView,
    community: ErrorView,
    post: PostView,
)
    ensures
        ({
            let result = fallback_result(options, community, post);
            &&& result.post == post
            &&& result.replies.len() == 0
            &&& options.reply_mode is None <==> result.reply_info is None
            &&& result.reply_info matches Some(info) ==> {
                &&& options.reply_mode == Some(ReplyMode::Direct) ==> info.mode == "direct"@
                &&& options.reply_mode == Some(ReplyMode::Thread) ==> info.mode == "thread"@
                &&& options.sort == SortMode::Relevance ==> info.sort == "relevance"@
                &&& options.sort == SortMode::Recent ==> info.sort == "recent"@
                &&& info.limit == options.limit
                &&& info.count == 0
                &&& info.truncated
                &&& info.error is Some
                &&& info.available_count is None
            }
        }),
{
}

} // verus!
