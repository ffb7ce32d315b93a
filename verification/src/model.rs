//! The stable types of the library, and the policies that go with them.

use vstd::prelude::*;
use vstd::string::StrSliceExecFns;

use crate::error::plain_error;
use crate::error::error_view;
use crate::error::ErrorKind;
use crate::error::ErrorView;
use crate::error::XReadError;
use crate::text;

verus! {

pub const DEFAULT_COMMUNITY_BASE_URL: &'static str = "https://api.fxtwitter.com/2";

pub const DEFAULT_LIMIT: usize = 20;

pub const MAX_LIMIT: usize = 1_000;

pub const DEFAULT_TIMEOUT_MS: u64 = 12_000;

pub const DEFAULT_RETRIES: u8 = 2;

// ----------------------------------------------------------------------
// Choices

/// Which replies to read.
#[derive(Debug, Clone, Copy, PartialEq, Eq, Structural)]
pub enum ReplyMode {
    Direct,
    Thread,
}

/// The reply mode that a word names.
pub open spec fn reply_mode_named(value: Seq<char>) -> Option<ReplyMode> {
    if value == "direct"@ || value == "replies"@ {
        Some(ReplyMode::Direct)
    } else if value == "thread"@ {
        Some(ReplyMode::Thread)
    } else {
        None
    }
}

/// The word for a reply mode.
pub open spec fn reply_mode_name(mode: ReplyMode) -> Seq<char> {
    match mode {
        ReplyMode::Direct => "direct"@,
        ReplyMode::Thread => "thread"@,
    }
}

impl ReplyMode {
    /// The word for this mode.
    pub fn as_str(self) -> (out: &'static str)
        ensures
            out@ == reply_mode_name(self),
    {
        match self {
            ReplyMode::Direct => "direct",
            ReplyMode::Thread => "thread",
        }
    }
}

/// A choice that a word names, or an error about the input.
pub open spec fn choice<T>(named: Option<T>, message: Seq<char>) -> Result<T, ErrorView> {
    match named {
        Some(value) => Ok(value),
        None => Err(plain_error(ErrorKind::InvalidInput, message)),
    }
}

impl core::str::FromStr for ReplyMode {
    type Err = XReadError;

    fn from_str(value: &str) -> (out: Result<Self, XReadError>)
        ensures
            error_view(out) == choice(
                reply_mode_named(value@),
                "replies 只接受 direct、replies 或 thread。"@,
            ),
    {
        if text::same(value, "direct") || text::same(value, "replies") {
            Ok(ReplyMode::Direct)
        } else if text::same(value, "thread") {
            Ok(ReplyMode::Thread)
        } else {
            Err(XReadError::invalid_input("replies 只接受 direct、replies 或 thread。"))
        }
    }
}

/// How replies are ranked.
#[derive(Debug, Clone, Copy, PartialEq, Eq, Structural)]
pub enum SortMode {
    Relevance,
    Recent,
}

impl Default for SortMode {
    fn default() -> (out: Self)
        ensures
            out == SortMode::Relevance,
    {
        SortMode::Relevance
    }
}

/// The ranking that a word names.
pub open spec fn sort_mode_named(value: Seq<char>) -> Option<SortMode> {
    if value == "relevance"@ {
        Some(SortMode::Relevance)
    } else if value == "recent"@ {
        Some(SortMode::Recent)
    } else {
        None
    }
}

/// The word for a ranking.
pub open spec fn sort_mode_name(sort: SortMode) -> Seq<char> {
    match sort {
        SortMode::Relevance => "relevance"@,
        SortMode::Recent => "recent"@,
    }
}

/// What the community service calls a ranking.
pub open spec fn sort_mode_ranking(sort: SortMode) -> Seq<char> {
    match sort {
        SortMode::Relevance => "likes"@,
        SortMode::Recent => "recency"@,
    }
}

impl SortMode {
    /// The word for this ranking.
    pub fn as_str(self) -> (out: &'static str)
        ensures
            out@ == sort_mode_name(self),
    {
        match self {
            SortMode::Relevance => "relevance",
            SortMode::Recent => "recent",
        }
    }

    /// What the community service calls this ranking.
    pub fn community_value(self) -> (out: &'static str)
        ensures
            out@ == sort_mode_ranking(self),
    {
        match self {
            SortMode::Relevance => "likes",
            SortMode::Recent => "recency",
        }
    }
}

impl core::str::FromStr for SortMode {
    type Err = XReadError;

    fn from_str(value: &str) -> (out: Result<Self, XReadError>)
        ensures
            error_view(out) == choice(
                sort_mode_named(value@),
                "sort 只接受 relevance 或 recent。"@,
            ),
    {
        if text::same(value, "relevance") {
            Ok(SortMode::Relevance)
        } else if text::same(value, "recent") {
            Ok(SortMode::Recent)
        } else {
            Err(XReadError::invalid_input("sort 只接受 relevance 或 recent。"))
        }
    }
}

/// Which MP4 representation to select for each video.
#[derive(Debug, Clone, Copy, PartialEq, Eq, Structural)]
pub enum VideoQuality {
    Best,
    Worst,
    /// For portrait video, 720x1280 is treated as 720p (the shorter edge).
    Height(u32),
}

impl Default for VideoQuality {
    fn default() -> (out: Self)
        ensures
            out == VideoQuality::Best,
    {
        VideoQuality::Best
    }
}

/// `s` without one final `p`.
pub open spec fn strip_p(s: Seq<char>) -> Seq<char> {
    if s.len() > 0 && s.last() == 'p' {
        s.drop_last()
    } else {
        s
    }
}

/// The quality that a word names, whatever its case and the white space
/// around it: `best`, `worst`, or a height from 144 to 4320 with or without `p`.
pub open spec fn quality_named(value: Seq<char>) -> Option<VideoQuality> {
    let word = text::lower_case(text::trim(value));
    if word == "best"@ {
        Some(VideoQuality::Best)
    } else if word == "worst"@ {
        Some(VideoQuality::Worst)
    } else {
        match text::parse_unsigned(strip_p(word), u32::MAX as nat) {
            Some(height) => if 144 <= height <= 4320 {
                Some(VideoQuality::Height(height as u32))
            } else {
                None
            },
            None => None,
        }
    }
}

/// The word for a quality.
pub open spec fn quality_name(quality: VideoQuality) -> Seq<char> {
    match quality {
        VideoQuality::Best => "best"@,
        VideoQuality::Worst => "worst"@,
        VideoQuality::Height(height) => text::decimal(height as nat) + "p"@,
    }
}

impl VideoQuality {
    /// The word for this quality.
    pub fn to_text(self) -> (out: String)
        ensures
            out@ == quality_name(self),
    {
        match self {
            VideoQuality::Best => "best".to_owned(),
            VideoQuality::Worst => "worst".to_owned(),
            VideoQuality::Height(height) => {
                let digits = text::number_text(height as u64);
                text::cat2(digits.as_str(), "p")
            },
        }
    }
}

impl core::str::FromStr for VideoQuality {
    type Err = XReadError;

    fn from_str(value: &str) -> (out: Result<Self, XReadError>)
        ensures
            error_view(out) == choice(
                quality_named(value@),
                "quality 只接受 best、worst 或 144 到 4320 的清晰度，例如 720。"@,
            ),
    {
        let word = text::to_lower(text::trim_text(value));
        if text::same(word.as_str(), "best") {
            return Ok(VideoQuality::Best);
        }
        if text::same(word.as_str(), "worst") {
            return Ok(VideoQuality::Worst);
        }
        let len: usize = word.as_str().unicode_len();
        let digits = if len > 0 && word.as_str().get_char(len - 1) == 'p' {
            word.as_str().substring_char(0, len - 1)
        } else {
            word.as_str()
        };
        assert(digits@ == strip_p(word@));
        if let Some(height) = text::parse_number(digits, u32::MAX as u64) {
            if 144 <= height && height <= 4320 {
                return Ok(VideoQuality::Height(height as u32));
            }
        }
        Err(
            XReadError::invalid_input(
                "quality 只接受 best、worst 或 144 到 4320 的清晰度，例如 720。",
            ),
        )
    }
}

/// The word for a reply mode names that mode.
pub proof fn law_reply_mode_round_trip(mode: ReplyMode)
    ensures
        reply_mode_named(reply_mode_name(mode)) == Some(mode),
{
    reveal_strlit("direct");
    reveal_strlit("replies");
    reveal_strlit("thread");
    assert("direct"@[0] == 'd' && "replies"@[0] == 'r' && "thread"@[0] == 't');
}

/// The word for an order of replies names that order.
pub proof fn law_sort_mode_round_trip(sort: SortMode)
    ensures
        sort_mode_named(sort_mode_name(sort)) == Some(sort),
{
    reveal_strlit("relevance");
    reveal_strlit("recent");
    assert("relevance"@.len() == 9 && "recent"@.len() == 6);
}

/// The word for a quality names that quality, for every height that can be
/// asked for.
pub proof fn law_quality_round_trip(quality: VideoQuality)
    requires
        quality matches VideoQuality::Height(height) ==> 144 <= height <= 4320,
    ensures
        quality_named(quality_name(quality)) == Some(quality),
{
    reveal_strlit("best");
    reveal_strlit("worst");
    reveal_strlit("p");
    let name = quality_name(quality);
    if let VideoQuality::Height(height) = quality {
        text::law_decimal_round_trip(height as nat);
        let digits = text::decimal(height as nat);
        assert(text::is_digit(digits[0]));
        assert(name[0] == digits[0]);
        assert(name.last() == 'p');
        assert(name.drop_last() == digits);
    }
    assert(!text::is_whitespace(name[0]) && !text::is_whitespace(name.last()));
    assert(text::trim(name) == name);
    let word = text::lower_case(name);
    assert forall|i: int| 0 <= i < name.len() implies word[i] == name[i] by {
        if quality is Height && i < name.len() - 1 {
            assert(text::is_digit(name.drop_last()[i]));
        }
    }
    assert(word == name);
    assert("best"@[0] == 'b' && "worst"@[0] == 'w');
}

// ----------------------------------------------------------------------
// Options

/// Options that affect the meaning of a read operation.
#[derive(Debug, Clone)]
pub struct ReadOptions {
    pub reply_mode: Option<ReplyMode>,
    pub limit: usize,
    pub sort: SortMode,
    pub lang: String,
}

/// The model of `ReadOptions`.
pub struct OptionsView {
    pub reply_mode: Option<ReplyMode>,
    pub limit: usize,
    pub sort: SortMode,
    pub lang: Seq<char>,
}

impl DeepView for ReadOptions {
    type V = OptionsView;

    open spec fn deep_view(&self) -> OptionsView {
        OptionsView {
            reply_mode: self.reply_mode,
            limit: self.limit,
            sort: self.sort,
            lang: self.lang@,
        }
    }
}

/// The options without any choice of the caller.
pub open spec fn default_options() -> OptionsView {
    OptionsView {
        reply_mode: None,
        limit: DEFAULT_LIMIT,
        sort: SortMode::Relevance,
        lang: "en"@,
    }
}

/// `en` is a language code.
proof fn lemma_default_language()
    ensures
        valid_language("en"@),
{
    reveal_strlit("en");
    let lang = "en"@;
    let one = lang.drop_last();
    assert(lang.len() == 2 && lang[0] == 'e' && lang[1] == 'n');
    assert(one.drop_last() == Seq::<char>::empty());
    assert(text::split(one.drop_last(), '-') == seq![Seq::<char>::empty()]);
    assert(text::split(one, '-') == seq![seq!['e']]);
    assert(seq!['e'].push('n') == seq!['e', 'n']);
    assert(text::split(lang, '-') == seq![seq!['e', 'n']]);
}

impl Default for ReadOptions {
    /// The default options are valid.
    fn default() -> (out: Self)
        ensures
            out.deep_view() == default_options(),
            options_check(out.deep_view()) is Ok,
    {
        proof {
            lemma_default_language();
        }
        ReadOptions {
            reply_mode: None,
            limit: DEFAULT_LIMIT,
            sort: SortMode::Relevance,
            lang: "en".to_owned(),
        }
    }
}

/// A first language subtag: two or three ASCII letters.
pub open spec fn is_language(s: Seq<char>) -> bool {
    2 <= s.len() <= 3 && forall|i: int| 0 <= i < s.len() ==> text::is_letter(#[trigger] s[i])
}

/// A further subtag: two to eight ASCII letters or digits.
pub open spec fn is_subtag(s: Seq<char>) -> bool {
    2 <= s.len() <= 8 && forall|i: int|
        0 <= i < s.len() ==> text::is_letter(#[trigger] s[i]) || text::is_digit(s[i])
}

/// A language code: a language, and subtags behind hyphens.
pub open spec fn valid_language(s: Seq<char>) -> bool {
    let parts = text::split(s, '-');
    is_language(parts[0]) && forall|i: int| 1 <= i < parts.len() ==> is_subtag(#[trigger] parts[i])
}

/// Decides `is_language` and `is_subtag`.
fn subtag(part: &str, first: bool) -> (out: bool)
    ensures
        out == (if first {
            is_language(part@)
        } else {
            is_subtag(part@)
        }),
{
    let chars = text::chars_of(part);
    if chars.len() < 2 || chars.len() > 8 || (first && chars.len() > 3) {
        return false;
    }
    let mut i: usize = 0;
    while i < chars.len()
        invariant
            i <= chars@.len(),
            chars@ == part@,
            forall|j: int|
                0 <= j < i ==> text::is_letter(#[trigger] chars@[j]) || (!first && text::is_digit(
                    chars@[j],
                )),
        decreases chars.len() - i,
    {
        let c = chars[i];
        if !text::char_is_letter(c) && (first || !text::char_is_digit(c)) {
            assert(!text::is_letter(part@[i as int]));
            return false;
        }
        i = i + 1;
    }
    true
}

/// Decides `valid_language`.
fn language(value: &str) -> (out: bool)
    ensures
        out == valid_language(value@),
{
    let parts = text::split_text(value, '-');
    let ghost model = parts.deep_view();
    assert(model[0] == parts@[0]@);
    if !subtag(parts[0].as_str(), true) {
        return false;
    }
    let mut i: usize = 1;
    while i < parts.len()
        invariant
            1 <= i <= parts@.len(),
            model == parts.deep_view(),
            model == text::split(value@, '-'),
            forall|j: int| 1 <= j < i ==> is_subtag(#[trigger] model[j]),
        decreases parts.len() - i,
    {
        assert(model[i as int] == parts@[i as int]@);
        if !subtag(parts[i].as_str(), false) {
            return false;
        }
        i = i + 1;
    }
    true
}

/// What is wrong with the options, if anything.
pub open spec fn options_check(options: OptionsView) -> Result<(), ErrorView> {
    if !(1 <= options.limit <= MAX_LIMIT) {
        Err(
            plain_error(
                ErrorKind::InvalidInput,
                "limit 必须在 1 到 "@ + text::decimal(MAX_LIMIT as nat) + " 之间。"@,
            ),
        )
    } else if !valid_language(options.lang) {
        Err(
            plain_error(
                ErrorKind::InvalidInput,
                "lang 需要语言代码，例如 en、zh-cn 或 ja。"@,
            ),
        )
    } else {
        Ok(())
    }
}

impl ReadOptions {
    /// Refuses a limit outside 1 to 1000 and what is no language code.
    pub fn validate(&self) -> (out: Result<(), XReadError>)
        ensures
            error_view(out) == options_check(self.deep_view()),
    {
        if self.limit < 1 || self.limit > MAX_LIMIT {
            let max = text::number_text(MAX_LIMIT as u64);
            let message = text::cat3("limit 必须在 1 到 ", max.as_str(), " 之间。");
            return Err(XReadError::invalid_input(message.as_str()));
        }
        if !language(self.lang.as_str()) {
            return Err(
                XReadError::invalid_input("lang 需要语言代码，例如 en、zh-cn 或 ja。"),
            );
        }
        Ok(())
    }
}

/// Transport settings, apart from `ReadOptions`, so that a service can own its
/// deployment policy while callers choose only what content they want.
#[derive(Debug, Clone)]
pub struct ReaderConfig {
    pub community_base_url: String,
    /// The time limit of one upstream request, in milliseconds.
    pub timeout_ms: u64,
    pub retries: u8,
}

/// The model of `ReaderConfig`.
pub struct ConfigView {
    pub community_base_url: Seq<char>,
    pub timeout_ms: u64,
    pub retries: u8,
}

impl DeepView for ReaderConfig {
    type V = ConfigView;

    open spec fn deep_view(&self) -> ConfigView {
        ConfigView {
            community_base_url: self.community_base_url@,
            timeout_ms: self.timeout_ms,
            retries: self.retries,
        }
    }
}

/// The settings without any choice of the caller.
pub open spec fn default_config() -> ConfigView {
    ConfigView {
        community_base_url: DEFAULT_COMMUNITY_BASE_URL@,
        timeout_ms: DEFAULT_TIMEOUT_MS,
        retries: DEFAULT_RETRIES,
    }
}

impl Default for ReaderConfig {
    /// The default settings are valid.
    fn default() -> (out: Self)
        ensures
            out.deep_view() == default_config(),
            config_check(out.deep_view()) is Ok,
    {
        ReaderConfig {
            community_base_url: DEFAULT_COMMUNITY_BASE_URL.to_owned(),
            timeout_ms: DEFAULT_TIMEOUT_MS,
            retries: DEFAULT_RETRIES,
        }
    }
}

/// What is wrong with the settings, if anything.
pub open spec fn config_check(config: ConfigView) -> Result<(), ErrorView> {
    if !(1_000 <= config.timeout_ms <= 120_000) {
        Err(
            plain_error(
                ErrorKind::InvalidInput,
                "timeout 必须在 1000 到 120000 毫秒之间。"@,
            ),
        )
    } else if config.retries > 5 {
        Err(plain_error(ErrorKind::InvalidInput, "retries 必须在 0 到 5 之间。"@))
    } else {
        Ok(())
    }
}

impl ReaderConfig {
    /// Refuses a time limit outside one second to two minutes and more than five retries.
    pub fn validate(&self) -> (out: Result<(), XReadError>)
        ensures
            error_view(out) == config_check(self.deep_view()),
    {
        if self.timeout_ms < 1_000 || self.timeout_ms > 120_000 {
            return Err(
                XReadError::invalid_input("timeout 必须在 1000 到 120000 毫秒之间。"),
            );
        }
        if self.retries > 5 {
            return Err(XReadError::invalid_input("retries 必须在 0 到 5 之间。"));
        }
        Ok(())
    }
}

// ----------------------------------------------------------------------
// Content

/// A post that the input refers to.
#[derive(Debug, Clone, PartialEq, Eq)]
pub struct PostReference {
    pub id: String,
    pub original: String,
    pub username: Option<String>,
    pub url: String,
}

/// The model of `PostReference`.
pub struct ReferenceView {
    pub id: Seq<char>,
    pub original: Seq<char>,
    pub username: Option<Seq<char>>,
    pub url: Seq<char>,
}

impl DeepView for PostReference {
    type V = ReferenceView;

    open spec fn deep_view(&self) -> ReferenceView {
        ReferenceView {
            id: self.id@,
            original: self.original@,
            username: self.username.deep_view(),
            url: self.url@,
        }
    }
}

/// What a read operation returns.
#[derive(Debug, PartialEq)]
pub struct ReadResult {
    pub post: Post,
    pub replies: Vec<Post>,
    pub reply_info: Option<ReplyInfo>,
    pub warnings: Vec<String>,
}

/// The model of `ReadResult`.
pub struct ResultView {
    pub post: PostView,
    pub replies: Seq<PostView>,
    pub reply_info: Option<ReplyInfoView>,
    pub warnings: Seq<Seq<char>>,
}

impl DeepView for ReadResult {
    type V = ResultView;

    open spec fn deep_view(&self) -> ResultView {
        ResultView {
            post: self.post.deep_view(),
            replies: self.replies.deep_view(),
            reply_info: self.reply_info.deep_view(),
            warnings: self.warnings.deep_view(),
        }
    }
}

/// How the replies of a result were read.
#[derive(Debug, PartialEq)]
pub struct ReplyInfo {
    pub available_count: Option<u64>,
    pub backend: String,
    pub conversation_id: Option<String>,
    pub count: usize,
    pub error: Option<String>,
    pub limit: usize,
    pub mode: String,
    pub range: String,
    pub sort: String,
    pub truncated: bool,
}

/// The model of `ReplyInfo`.
pub struct ReplyInfoView {
    pub available_count: Option<u64>,
    pub backend: Seq<char>,
    pub conversation_id: Option<Seq<char>>,
    pub count: usize,
    pub error: Option<Seq<char>>,
    pub limit: usize,
    pub mode: Seq<char>,
    pub range: Seq<char>,
    pub sort: Seq<char>,
    pub truncated: bool,
}

impl DeepView for ReplyInfo {
    type V = ReplyInfoView;

    open spec fn deep_view(&self) -> ReplyInfoView {
        ReplyInfoView {
            available_count: self.available_count,
            backend: self.backend@,
            conversation_id: self.conversation_id.deep_view(),
            count: self.count,
            error: self.error.deep_view(),
            limit: self.limit,
            mode: self.mode@,
            range: self.range@,
            sort: self.sort@,
            truncated: self.truncated,
        }
    }
}

/// A post, whatever source it came from.
#[derive(Debug, PartialEq)]
pub struct Post {
    pub article: Option<Article>,
    pub author: Author,
    pub conversation_id: Option<String>,
    pub created_at: Option<String>,
    pub date_label: Option<String>,
    pub id: Option<String>,
    pub is_long_post: bool,
    pub kind: String,
    pub lang: Option<String>,
    pub links: Vec<Link>,
    pub media: Vec<Media>,
    pub metrics: Option<Metrics>,
    pub parent_id: Option<String>,
    pub possibly_sensitive: Option<bool>,
    pub quoted_post: Option<Box<Post>>,
    pub reposted_by: Option<Author>,
    pub reposted_post: Option<Box<Post>>,
    pub source: String,
    pub text: String,
    pub url: Option<String>,
}

/// The model of `Post`.
pub struct PostView {
    pub article: Option<ArticleView>,
    pub author: AuthorView,
    pub conversation_id: Option<Seq<char>>,
    pub created_at: Option<Seq<char>>,
    pub date_label: Option<Seq<char>>,
    pub id: Option<Seq<char>>,
    pub is_long_post: bool,
    pub kind: Seq<char>,
    pub lang: Option<Seq<char>>,
    pub links: Seq<LinkView>,
    pub media: Seq<MediaView>,
    pub metrics: Option<Metrics>,
    pub parent_id: Option<Seq<char>>,
    pub possibly_sensitive: Option<bool>,
    pub quoted_post: Option<Box<PostView>>,
    pub reposted_by: Option<AuthorView>,
    pub reposted_post: Option<Box<PostView>>,
    pub source: Seq<char>,
    pub text: Seq<char>,
    pub url: Option<Seq<char>>,
}

impl Post {
    /// The model of this post.
    pub open spec fn model(&self) -> PostView
        decreases self,
    {
        PostView {
            article: self.article.deep_view(),
            author: self.author.deep_view(),
            conversation_id: self.conversation_id.deep_view(),
            created_at: self.created_at.deep_view(),
            date_label: self.date_label.deep_view(),
            id: self.id.deep_view(),
            is_long_post: self.is_long_post,
            kind: self.kind@,
            lang: self.lang.deep_view(),
            links: self.links.deep_view(),
            media: self.media.deep_view(),
            metrics: self.metrics,
            parent_id: self.parent_id.deep_view(),
            possibly_sensitive: self.possibly_sensitive,
            quoted_post: match self.quoted_post {
                Some(post) => Some(Box::new(post.model())),
                None => None,
            },
            reposted_by: self.reposted_by.deep_view(),
            reposted_post: match self.reposted_post {
                Some(post) => Some(Box::new(post.model())),
                None => None,
            },
            source: self.source@,
            text: self.text@,
            url: self.url.deep_view(),
        }
    }
}

impl DeepView for Post {
    type V = PostView;

    open spec fn deep_view(&self) -> PostView {
        self.model()
    }
}

/// Who wrote a post.
#[derive(Debug, PartialEq)]
pub struct Author {
    pub id: Option<String>,
    pub name: Option<String>,
    pub profile_image_url: Option<String>,
    pub username: Option<String>,
    pub verified: Option<bool>,
}

/// The model of `Author`.
pub struct AuthorView {
    pub id: Option<Seq<char>>,
    pub name: Option<Seq<char>>,
    pub profile_image_url: Option<Seq<char>>,
    pub username: Option<Seq<char>>,
    pub verified: Option<bool>,
}

impl DeepView for Author {
    type V = AuthorView;

    open spec fn deep_view(&self) -> AuthorView {
        AuthorView {
            id: self.id.deep_view(),
            name: self.name.deep_view(),
            profile_image_url: self.profile_image_url.deep_view(),
            username: self.username.deep_view(),
            verified: self.verified,
        }
    }
}

impl Default for Author {
    fn default() -> (out: Self)
        ensures
            out.deep_view() == (AuthorView {
                id: None,
                name: None,
                profile_image_url: None,
                username: None,
                verified: None,
            }),
    {
        Author { id: None, name: None, profile_image_url: None, username: None, verified: None }
    }
}

/// A long document that a post carries.
#[derive(Debug, PartialEq)]
pub struct Article {
    pub cover_media_url: Option<String>,
    pub created_at: Option<String>,
    pub embedded_post_ids: Vec<String>,
    pub id: Option<String>,
    pub links: Vec<Link>,
    pub markdown: String,
    /// Media embedded inside the Article body, in upstream order.
    pub media: Vec<Media>,
    pub modified_at: Option<String>,
    pub preview_text: Option<String>,
    pub text: String,
    pub title: Option<String>,
}

/// The model of `Article`.
pub struct ArticleView {
    pub cover_media_url: Option<Seq<char>>,
    pub created_at: Option<Seq<char>>,
    pub embedded_post_ids: Seq<Seq<char>>,
    pub id: Option<Seq<char>>,
    pub links: Seq<LinkView>,
    pub markdown: Seq<char>,
    pub media: Seq<MediaView>,
    pub modified_at: Option<Seq<char>>,
    pub preview_text: Option<Seq<char>>,
    pub text: Seq<char>,
    pub title: Option<Seq<char>>,
}

impl DeepView for Article {
    type V = ArticleView;

    open spec fn deep_view(&self) -> ArticleView {
        ArticleView {
            cover_media_url: self.cover_media_url.deep_view(),
            created_at: self.created_at.deep_view(),
            embedded_post_ids: self.embedded_post_ids.deep_view(),
            id: self.id.deep_view(),
            links: self.links.deep_view(),
            markdown: self.markdown@,
            media: self.media.deep_view(),
            modified_at: self.modified_at.deep_view(),
            preview_text: self.preview_text.deep_view(),
            text: self.text@,
            title: self.title.deep_view(),
        }
    }
}

/// A link and what it is called.
#[derive(Debug, PartialEq, Eq)]
pub struct Link {
    pub href: String,
    pub text: String,
}

/// The model of `Link`.
pub struct LinkView {
    pub href: Seq<char>,
    pub text: Seq<char>,
}

impl DeepView for Link {
    type V = LinkView;

    open spec fn deep_view(&self) -> LinkView {
        LinkView { href: self.href@, text: self.text@ }
    }
}

/// An image, a video or an animation.
#[derive(Debug, PartialEq)]
pub struct Media {
    pub alt_text: Option<String>,
    pub duration_ms: Option<u64>,
    pub height: Option<u64>,
    pub preview_image_url: Option<String>,
    pub media_type: Option<String>,
    pub url: Option<String>,
    pub variants: Vec<MediaVariant>,
    pub width: Option<u64>,
}

/// The model of `Media`.
pub struct MediaView {
    pub alt_text: Option<Seq<char>>,
    pub duration_ms: Option<u64>,
    pub height: Option<u64>,
    pub preview_image_url: Option<Seq<char>>,
    pub media_type: Option<Seq<char>>,
    pub url: Option<Seq<char>>,
    pub variants: Seq<VariantView>,
    pub width: Option<u64>,
}

impl DeepView for Media {
    type V = MediaView;

    open spec fn deep_view(&self) -> MediaView {
        MediaView {
            alt_text: self.alt_text.deep_view(),
            duration_ms: self.duration_ms,
            height: self.height,
            preview_image_url: self.preview_image_url.deep_view(),
            media_type: self.media_type.deep_view(),
            url: self.url.deep_view(),
            variants: self.variants.deep_view(),
            width: self.width,
        }
    }
}

/// One encoding of a video.
#[derive(Debug, PartialEq)]
pub struct MediaVariant {
    pub bit_rate: Option<u64>,
    pub content_type: Option<String>,
    pub url: String,
}

/// The model of `MediaVariant`.
pub struct VariantView {
    pub bit_rate: Option<u64>,
    pub content_type: Option<Seq<char>>,
    pub url: Seq<char>,
}

impl DeepView for MediaVariant {
    type V = VariantView;

    open spec fn deep_view(&self) -> VariantView {
        VariantView {
            bit_rate: self.bit_rate,
            content_type: self.content_type.deep_view(),
            url: self.url@,
        }
    }
}

/// How often a post was seen and answered.
#[derive(Debug, Clone, Copy, PartialEq, Eq)]
pub struct Metrics {
    pub bookmark_count: Option<u64>,
    pub impression_count: Option<u64>,
    pub like_count: Option<u64>,
    pub quote_count: Option<u64>,
    pub reply_count: Option<u64>,
    pub retweet_count: Option<u64>,
}

impl Default for Metrics {
    fn default() -> (out: Self)
        ensures
            out == (Metrics {
                bookmark_count: None,
                impression_count: None,
                like_count: None,
                quote_count: None,
                reply_count: None,
                retweet_count: None,
            }),
    {
        Metrics {
            bookmark_count: None,
            impression_count: None,
            like_count: None,
            quote_count: None,
            reply_count: None,
            retweet_count: None,
        }
    }
}

// ----------------------------------------------------------------------
// Copies

impl Clone for Link {
    fn clone(&self) -> (out: Self)
        ensures
            out.deep_view() == self.deep_view(),
    {
        let out = Link {
            href: self.href.clone(),
            text: self.text.clone(),
        };
        assert(out.deep_view() == self.deep_view());
        out
    }
}

impl Clone for MediaVariant {
    fn clone(&self) -> (out: Self)
        ensures
            out.deep_view() == self.deep_view(),
    {
        let out = MediaVariant {
            bit_rate: self.bit_rate,
            content_type: self.content_type.clone(),
            url: self.url.clone(),
        };
        assert(out.deep_view() == self.deep_view());
        out
    }
}

impl Clone for Media {
    fn clone(&self) -> (out: Self)
        ensures
            out.deep_view() == self.deep_view(),
    {
        let out = Media {
            alt_text: self.alt_text.clone(),
            duration_ms: self.duration_ms,
            height: self.height,
            preview_image_url: self.preview_image_url.clone(),
            media_type: self.media_type.clone(),
            url: self.url.clone(),
            variants: self.variants.clone(),
            width: self.width,
        };
        assert(out.deep_view() == self.deep_view());
        out
    }
}

impl Clone for Author {
    fn clone(&self) -> (out: Self)
        ensures
            out.deep_view() == self.deep_view(),
    {
        let out = Author {
            id: self.id.clone(),
            name: self.name.clone(),
            profile_image_url: self.profile_image_url.clone(),
            username: self.username.clone(),
            verified: self.verified,
        };
        assert(out.deep_view() == self.deep_view());
        out
    }
}

impl Clone for Article {
    fn clone(&self) -> (out: Self)
        ensures
            out.deep_view() == self.deep_view(),
    {
        let out = Article {
            cover_media_url: self.cover_media_url.clone(),
            created_at: self.created_at.clone(),
            embedded_post_ids: self.embedded_post_ids.clone(),
            id: self.id.clone(),
            links: self.links.clone(),
            markdown: self.markdown.clone(),
            media: self.media.clone(),
            modified_at: self.modified_at.clone(),
            preview_text: self.preview_text.clone(),
            text: self.text.clone(),
            title: self.title.clone(),
        };
        assert(out.deep_view() == self.deep_view());
        out
    }
}

/// A copy of an optional text.
fn copy_text(value: &Option<String>) -> (out: Option<String>)
    ensures
        out.deep_view() == value.deep_view(),
{
    value.clone()
}

/// A copy of a list of links.
fn copy_links(value: &Vec<Link>) -> (out: Vec<Link>)
    ensures
        out.deep_view() == value.deep_view(),
{
    let out = value.clone();
    assert(out.deep_view() == value.deep_view());
    out
}

/// A copy of a list of media.
fn copy_media(value: &Vec<Media>) -> (out: Vec<Media>)
    ensures
        out.deep_view() == value.deep_view(),
{
    let out = value.clone();
    assert(out.deep_view() == value.deep_view());
    out
}

/// A copy of an optional author.
fn copy_author(value: &Option<Author>) -> (out: Option<Author>)
    ensures
        out.deep_view() == value.deep_view(),
{
    value.clone()
}

/// A copy of an optional article.
fn copy_article(value: &Option<Article>) -> (out: Option<Article>)
    ensures
        out.deep_view() == value.deep_view(),
{
    value.clone()
}

impl Clone for Post {
    fn clone(&self) -> (out: Self)
        ensures
            out.deep_view() == self.deep_view(),
        decreases self,
    {
        let out = Post {
            article: copy_article(&self.article),
            author: self.author.clone(),
            conversation_id: copy_text(&self.conversation_id),
            created_at: copy_text(&self.created_at),
            date_label: copy_text(&self.date_label),
            id: copy_text(&self.id),
            is_long_post: self.is_long_post,
            kind: self.kind.clone(),
            lang: copy_text(&self.lang),
            links: copy_links(&self.links),
            media: copy_media(&self.media),
            metrics: self.metrics,
            parent_id: copy_text(&self.parent_id),
            possibly_sensitive: self.possibly_sensitive,
            quoted_post: match &self.quoted_post {
                Some(post) => Some(Box::new((**post).clone())),
                None => None,
            },
            reposted_by: copy_author(&self.reposted_by),
            reposted_post: match &self.reposted_post {
                Some(post) => Some(Box::new((**post).clone())),
                None => None,
            },
            source: self.source.clone(),
            text: self.text.clone(),
            url: copy_text(&self.url),
        };
        out
    }
}

impl Clone for ReadResult {
    fn clone(&self) -> (out: Self)
        ensures
            out.deep_view() == self.deep_view(),
    {
        let out = ReadResult {
            post: self.post.clone(),
            replies: self.replies.clone(),
            reply_info: self.reply_info.clone(),
            warnings: self.warnings.clone(),
        };
        assert(out.deep_view() == self.deep_view());
        out
    }
}

impl Clone for ReplyInfo {
    fn clone(&self) -> (out: Self)
        ensures
            out.deep_view() == self.deep_view(),
    {
        let out = ReplyInfo {
            available_count: self.available_count,
            backend: self.backend.clone(),
            conversation_id: self.conversation_id.clone(),
            count: self.count,
            error: self.error.clone(),
            limit: self.limit,
            mode: self.mode.clone(),
            range: self.range.clone(),
            sort: self.sort.clone(),
            truncated: self.truncated,
        };
        assert(out.deep_view() == self.deep_view());
        out
    }
}

/// The words of the two rankings: the service ranks by likes for relevance and
/// by recency for the newest.
pub proof fn law_rankings_have_their_names(sort: SortMode)
    ensures
        sort_mode_ranking(SortMode::Relevance) == "likes"@,
        sort_mode_ranking(SortMode::Recent) == "recency"@,
        sort_mode_named("relevance"@) == Some(SortMode::Relevance),
        sort_mode_named("recent"@) == Some(SortMode::Recent),
        sort_mode_ranking(SortMode::Relevance) != sort_mode_ranking(SortMode::Recent),
        sort_mode_named(sort_mode_name(sort)) == Some(sort),
{
    reveal_strlit("likes");
    reveal_strlit("recency");
    reveal_strlit("relevance");
    reveal_strlit("recent");
    assert("likes"@.len() == 5 && "recency"@.len() == 7 && "relevance"@.len() == 9 && "recent"@.len()
        == 6);
}

/// The words for the reply modes, and no others.
pub proof fn law_reply_modes_have_their_names(value: Seq<char>)
    ensures
        reply_mode_named("direct"@) == Some(ReplyMode::Direct),
        reply_mode_named("replies"@) == Some(ReplyMode::Direct),
        reply_mode_named("thread"@) == Some(ReplyMode::Thread),
        value != "direct"@ && value != "replies"@ && value != "thread"@ ==> reply_mode_named(value)
            is None,
        value != "relevance"@ && value != "recent"@ ==> sort_mode_named(value) is None,
{
    reveal_strlit("direct");
    reveal_strlit("replies");
    reveal_strlit("thread");
    assert("direct"@.len() == 6 && "replies"@.len() == 7 && "thread"@.len() == 6);
    assert("direct"@[0] == 'd' && "thread"@[0] == 't');
}

/// What holds without any choice of the caller.
pub proof fn law_defaults()
    ensures
        default_options().limit == 20,
        default_options().sort == SortMode::Relevance,
        default_options().reply_mode is None,
        default_options().lang == "en"@,
        default_config().community_base_url == "https://api.fxtwitter.com/2"@,
        default_config().timeout_ms == 12_000,
        default_config().retries == 2,
{
}

/// The limits of options and settings: one to a thousand replies, one to a
/// hundred and twenty seconds, and up to five repetitions. What is refused is
/// an error about the input.
pub proof fn law_limits(options: OptionsView, config: ConfigView)
    ensures
        options_check(options) is Ok ==> 1 <= options.limit <= 1_000,
        1 <= options.limit <= 1_000 && options.lang == "en"@ ==> options_check(options) is Ok,
        options_check(options) matches Err(error) ==> error.kind == ErrorKind::InvalidInput,
        config_check(config) is Ok <==> 1_000 <= config.timeout_ms <= 120_000 && config.retries
            <= 5,
        config_check(config) matches Err(error) ==> error.kind == ErrorKind::InvalidInput,
{
    reveal_strlit("en");
    let en = "en"@;
    assert(en.len() == 2 && en[0] == 'e' && en[1] == 'n');
    reveal_with_fuel(text::split, 3);
    let one = en.drop_last();
    let none = one.drop_last();
    assert(none == Seq::<char>::empty());
    assert(text::split(none, '-') == seq![Seq::<char>::empty()]);
    assert(text::split(one, '-') == seq![one]) by {
        assert(text::split(none, '-').drop_last() == Seq::<Seq<char>>::empty());
        assert(Seq::<char>::empty().push('e') == one);
    }
    assert(text::split(en, '-') == seq![en]) by {
        assert(text::split(one, '-').drop_last() == Seq::<Seq<char>>::empty());
        assert(one.push('n') == en);
    }
}

/// A language code of the accepted form is accepted and another is refused,
/// whatever the limit of replies is.
pub proof fn law_languages(options: OptionsView)
    requires
        1 <= options.limit <= 1_000,
    ensures
        options_check(options) is Ok ==> {
            let parts = text::split(options.lang, '-');
            &&& 2 <= parts[0].len() <= 3
            &&& forall|i: int| 1 <= i < parts.len() ==> 2 <= (#[trigger] parts[i]).len() <= 8
            &&& forall|i: int|
                0 <= i < parts[0].len() ==> text::is_letter(#[trigger] parts[0][i])
        },
{
}

/// The words for qualities: `best`, `worst`, and a height in decimal with or
/// without a `p`, from 144 to 4320.
pub proof fn law_qualities_have_their_names(height: u32)
    ensures
        quality_named("best"@) == Some(VideoQuality::Best),
        quality_named("worst"@) == Some(VideoQuality::Worst),
        144 <= height <= 4320 ==> quality_named(text::decimal(height as nat) + "p"@) == Some(
            VideoQuality::Height(height),
        ),
        quality_name(VideoQuality::Best) == "best"@,
        quality_name(VideoQuality::Worst) == "worst"@,
{
    law_quality_round_trip(VideoQuality::Best);
    law_quality_round_trip(VideoQuality::Worst);
    if 144 <= height <= 4320 {
        law_quality_round_trip(VideoQuality::Height(height));
    }
}

/// A quality is meant whatever the case and the white space around its word, and
/// a height outside of 144 to 4320 is none.
pub proof fn law_words_for_qualities(value: Seq<char>)
    ensures
        text::lower_case(text::trim(value)) == "best"@ ==> quality_named(value) == Some(
            VideoQuality::Best,
        ),
        text::lower_case(text::trim(value)) == "worst"@ ==> quality_named(value) == Some(
            VideoQuality::Worst,
        ),
        quality_named(value) matches Some(VideoQuality::Height(found)) ==> 144 <= found <= 4320,
        quality_named(value) == Some(VideoQuality::Best) ==> text::lower_case(text::trim(value))
            == "best"@,
        quality_named(value) == Some(VideoQuality::Worst) ==> text::lower_case(text::trim(value))
            == "worst"@,
{
    reveal_strlit("best");
    reveal_strlit("worst");
    assert("best"@.len() == 4 && "worst"@.len() == 5);
}

/// Options with a limit from one to a thousand and a language code of the right
/// form are accepted: two or three letters, and behind hyphens two to eight
/// letters or digits.
pub proof fn law_language_codes_are_accepted(options: OptionsView)
    requires
        1 <= options.limit <= 1_000,
        2 <= text::split(options.lang, '-')[0].len() <= 3,
        forall|i: int|
            0 <= i < text::split(options.lang, '-')[0].len() ==> text::is_letter(
                #[trigger] text::split(options.lang, '-')[0][i],
            ),
        forall|k: int|
            1 <= k < text::split(options.lang, '-').len() ==> 2 <= (#[trigger] text::split(
                options.lang,
                '-',
            )[k]).len() <= 8,
        forall|k: int, i: int|
            1 <= k < text::split(options.lang, '-').len() && 0 <= i < text::split(
                options.lang,
                '-',
            )[k].len() ==> text::is_letter(#[trigger] text::split(options.lang, '-')[k][i])
                || text::is_digit(text::split(options.lang, '-')[k][i]),
    ensures
        options_check(options) is Ok,
{
    let parts = text::split(options.lang, '-');
    assert forall|k: int| 1 <= k < parts.len() implies is_subtag(#[trigger] parts[k]) by {
        assert(forall|i: int|
            0 <= i < parts[k].len() ==> text::is_letter(#[trigger] parts[k][i]) || text::is_digit(
                parts[k][i],
            ));
    }
}

} // verus!
