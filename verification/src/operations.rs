//! What the operations return, in terms of what they are given.
//!
//! Each law takes what a call may return and says what is then true of it.

use vstd::prelude::*;

use crate::article::normalize_article;
use crate::bridge;
use crate::cli;
use crate::dates::snowflake_timestamp;
use crate::documents;
use crate::documents::has_count;
use crate::documents::has_text;
use crate::download::DownloadOptions;
use crate::error::result_model;
use crate::error::ErrorKind;
use crate::error::XReadError;
use crate::human::render_human;
use crate::json;
use crate::json::Json;
use crate::json::JsonView;
use crate::markdown::render_markdown;
use crate::model::Article;
use crate::model::MediaVariant;
use crate::model::Post;
use crate::model::PostReference;
use crate::model::ReadOptions;
use crate::model::ReadResult;
use crate::model::ReaderConfig;
use crate::model::ReplyMode;
use crate::model::SortMode;
use crate::model::VideoQuality;
use crate::normalize::normalize_community_post;
use crate::oembed::normalize_oembed;
use crate::paragraphs;
use crate::parse;
use crate::parse::parse_post_reference;
use crate::readable;
use crate::render::render_text;
use crate::render::OutputFormat;
use crate::shown;
use crate::text;
use crate::video::is_mp4_variant;
use crate::worker;

verus! {

/// The community source is asked for the likes where relevance is wanted and for
/// the newest where they are.
pub proof fn law_community_values(sort: SortMode, out: &'static str)
    requires
        call_ensures(SortMode::community_value, (sort,), out),
    ensures
        sort == SortMode::Relevance ==> out@ == "likes"@,
        sort == SortMode::Recent ==> out@ == "recency"@,
{
    crate::model::law_rankings_have_their_names(sort);
}

/// A ranking and a reply mode are called by their names.
pub proof fn law_names_of_choices(
    sort: SortMode,
    mode: ReplyMode,
    format: OutputFormat,
    first: &'static str,
    second: &'static str,
    third: &'static str,
)
    requires
        call_ensures(SortMode::as_str, (sort,), first),
        call_ensures(ReplyMode::as_str, (mode,), second),
        call_ensures(OutputFormat::as_str, (format,), third),
    ensures
        sort == SortMode::Relevance ==> first@ == "relevance"@,
        sort == SortMode::Recent ==> first@ == "recent"@,
        mode == ReplyMode::Direct ==> second@ == "direct"@,
        mode == ReplyMode::Thread ==> second@ == "thread"@,
        format == OutputFormat::Markdown ==> third@ == "markdown"@,
        format == OutputFormat::Text ==> third@ == "text"@,
        format == OutputFormat::Json ==> third@ == "json"@,
        format == OutputFormat::Human ==> third@ == "human"@,
{
    crate::render::law_formats_have_their_names(Seq::empty());
}

/// An encoding is an MP4 where its type holds `mp4` or its URL holds `.mp4`, in
/// any case, and nowhere else.
pub proof fn law_mp4_variants(variant: &MediaVariant, out: bool)
    requires
        call_ensures(is_mp4_variant, (variant,), out),
    ensures
        out == crate::video::says_mp4(variant.deep_view()),
{
    crate::video::lemma_says_mp4(variant.deep_view());
}

/// The counts of a post that is read are the numbers under their own names.
pub proof fn law_counts_of_posts(
    value: &Json,
    depth: u8,
    out: Result<Post, XReadError>,
    post: Post,
    count: u64,
)
    requires
        call_ensures(normalize_community_post, (value, depth), out),
        out == Ok::<Post, XReadError>(post),
    ensures
        post.metrics matches Some(metrics) && {
            &&& has_count(value@, "replies"@, count) ==> metrics.reply_count == Some(count)
            &&& has_count(value@, "reposts"@, count) ==> metrics.retweet_count == Some(count)
            &&& has_count(value@, "quotes"@, count) ==> metrics.quote_count == Some(count)
            &&& has_count(value@, "likes"@, count) ==> metrics.like_count == Some(count)
            &&& has_count(value@, "views"@, count) ==> metrics.impression_count == Some(count)
            &&& has_count(value@, "bookmarks"@, count) ==> metrics.bookmark_count == Some(count)
        },
{
    documents::law_counts_come_from_their_members(value@, depth as int, count);
    assert(result_model(out) == Ok::<crate::model::PostView, crate::error::ErrorView>(
        post.deep_view(),
    ));
    assert(post.deep_view().metrics == post.metrics);
}

/// The author of an embedded post has the name under `author_name`, and none
/// where there is none.
pub proof fn law_authors_of_embedded_posts(
    payload: &Json,
    id: &str,
    out: Result<Post, XReadError>,
    post: Post,
    name: Seq<char>,
)
    requires
        call_ensures(normalize_oembed, (payload, id), out),
        out == Ok::<Post, XReadError>(post),
    ensures
        has_text(payload@, "author_name"@, name) ==> post.deep_view().author.name == Some(name),
        json::member(payload@, "author_name"@) is None ==> post.deep_view().author.name is None,
        post.deep_view().id == Some(id@),
        post.deep_view().source == "x-oembed"@,
{
    documents::law_embedded_posts_come_from_their_members(
        payload@,
        id@,
        name,
        Seq::empty(),
        bridge::UrlView { href: name, scheme: name, host: None, segments: None },
        Seq::empty(),
    );
    assert(result_model(out) == Ok::<crate::model::PostView, crate::error::ErrorView>(
        post.deep_view(),
    ));
}

/// The text and the Markdown of an article that is read hold the words of every
/// block.
pub proof fn law_blocks_of_articles(
    value: &Json,
    out: Option<Article>,
    content: JsonView,
    blocks: Seq<JsonView>,
    at: int,
    line: Seq<char>,
)
    requires
        call_ensures(normalize_article, (Some(value),), out),
        value@ is Object,
        json::member(value@, "content"@) == Some(content),
        json::member(content, "blocks"@) == Some(JsonView::Array(blocks)),
        0 <= at < blocks.len(),
        paragraphs::is_text_block(blocks[at]),
        paragraphs::is_plain_block(blocks[at], line),
        paragraphs::is_line(line),
    ensures
        out.deep_view() matches Some(found) && text::contains(found.text, line) && text::contains(
            found.markdown,
            line,
        ),
{
    paragraphs::law_articles_hold_every_block(value@, content, blocks, at, line);
}

/// What holds without any choice of the caller.
pub proof fn law_default_values(
    options: ReadOptions,
    config: ReaderConfig,
    download: DownloadOptions,
    sort: SortMode,
    quality: VideoQuality,
    format: OutputFormat,
)
    requires
        call_ensures(ReadOptions::default, (), options),
        call_ensures(ReaderConfig::default, (), config),
        call_ensures(DownloadOptions::default, (), download),
        call_ensures(SortMode::default, (), sort),
        call_ensures(VideoQuality::default, (), quality),
        call_ensures(OutputFormat::default, (), format),
    ensures
        options.reply_mode is None,
        options.limit == 20,
        options.sort == SortMode::Relevance,
        options.lang@ == "en"@,
        config.community_base_url@ == "https://api.fxtwitter.com/2"@,
        config.timeout_ms == 12_000,
        config.retries == 2,
        download.output_dir@ == "."@,
        download.video is None,
        download.quality == VideoQuality::Best,
        !download.force,
        sort == SortMode::Relevance,
        quality == VideoQuality::Best,
        format == OutputFormat::Markdown,
{
    assert(options.deep_view().limit == options.limit);
    assert(config.deep_view().timeout_ms == config.timeout_ms);
}

/// The views of a result hold the words of its post.
pub proof fn law_views_hold_the_words(
    result: &ReadResult,
    markdown: String,
    plain: String,
    human: String,
    words: Seq<char>,
)
    requires
        call_ensures(render_markdown, (result,), markdown),
        call_ensures(render_text, (result,), plain),
        call_ensures(render_human, (result,), human),
        result.deep_view().post.text == words,
        result.deep_view().post.article is None,
        result.deep_view().post.url is Some,
        shown::has_ink(words),
    ensures
        text::contains(markdown@, words),
        text::contains(plain@, words),
        text::contains(human@, words),
{
    reveal(shown::shows_content);
    shown::law_markdown_shows_the_post_of_a_result(result.deep_view());
    shown::law_text_shows_the_words(result.deep_view(), words, 0);
    readable::law_people_see_the_post(result.deep_view());
}

/// A text of one to nineteen digits is the post of that number.
pub proof fn law_numbers_are_references(input: &str, out: Result<PostReference, XReadError>)
    requires
        call_ensures(parse_post_reference, (input,), out),
        1 <= input@.len() <= 19,
        text::all_digits(input@),
    ensures
        out matches Ok(reference) && reference.id@ == input@ && reference.username is None
            && reference.url@ == "https://x.com/i/status/"@ + input@,
{
    parse::law_numbers_are_posts(input@);
    assert(out is Ok);
    let reference = out->Ok_0;
    assert(reference.deep_view().id == reference.id@);
    assert(reference.deep_view().username == reference.username.deep_view());
}

/// A post has a time exactly where its ID has 15 to 19 digits.
pub proof fn law_times_of_ids(id: &str, out: Option<String>)
    requires
        call_ensures(snowflake_timestamp, (id,), out),
    ensures
        out is Some <==> 15 <= id@.len() <= 19 && text::all_digits(id@),
{
}

/// The status that an error is answered with.
pub proof fn law_statuses_of_errors(error: &XReadError, out: u16)
    requires
        call_ensures(XReadError::response_status, (error,), out),
    ensures
        error.kind == ErrorKind::InvalidInput ==> out == 400,
        error.kind == ErrorKind::NoVideo ==> out == 404,
        error.kind == ErrorKind::Upstream ==> out == 502,
        error.kind == ErrorKind::InvalidResponse ==> out == 502,
        error.kind == ErrorKind::Internal ==> out == 500,
{
}

/// A position selects its own URL, counted from one, on the command line as in
/// the service; without a position all are selected, and a position that there
/// is not is an error about the input.
pub proof fn law_positions_select_urls(
    urls: Vec<String>,
    requested: Option<usize>,
    first: Result<Vec<String>, XReadError>,
    second: Result<Vec<String>, XReadError>,
)
    requires
        call_ensures(cli::select_video_urls, (urls, requested), first),
        call_ensures(worker::select_video_urls, (urls, requested), second),
    ensures
        requested is None ==> (first matches Ok(chosen) && chosen.deep_view() == urls.deep_view())
            && (second matches Ok(chosen) && chosen.deep_view() == urls.deep_view()),
        requested matches Some(index) ==> {
            &&& 1 <= index <= urls@.len() ==> (first matches Ok(chosen) && chosen.deep_view()
                == seq![urls.deep_view()[index - 1]]) && (second matches Ok(chosen)
                && chosen.deep_view() == seq![urls.deep_view()[index - 1]])
            &&& index == 0 || index > urls@.len() ==> (first matches Err(error) && error.kind
                == ErrorKind::InvalidInput) && (second matches Err(error) && error.kind
                == ErrorKind::InvalidInput)
        },
{
}

/// An error gets a hint or the status of a service and stays otherwise as it is.
pub proof fn law_errors_keep_what_they_say(
    error: XReadError,
    hint: &str,
    status: u16,
    first: XReadError,
    second: XReadError,
)
    requires
        call_ensures(XReadError::with_hint, (error, hint), first),
        call_ensures(XReadError::with_upstream_status, (error, status), second),
    ensures
        first.deep_view().hint == Some(hint@),
        first.deep_view().kind == error.deep_view().kind,
        first.deep_view().message == error.deep_view().message,
        first.deep_view().upstream_status == error.deep_view().upstream_status,
        second.deep_view().upstream_status == Some(status),
        second.deep_view().kind == error.deep_view().kind,
        second.deep_view().message == error.deep_view().message,
        second.deep_view().hint == error.deep_view().hint,
{
}

/// An error has the kind that its name says, its message, and nothing else.
pub proof fn law_errors_have_their_kinds(
    message: &str,
    input: XReadError,
    upstream: XReadError,
    video: XReadError,
    response: XReadError,
    internal: XReadError,
)
    requires
        call_ensures(XReadError::invalid_input, (message,), input),
        call_ensures(XReadError::upstream, (message,), upstream),
        call_ensures(XReadError::no_video, (message,), video),
        call_ensures(XReadError::invalid_response, (message,), response),
        call_ensures(XReadError::internal, (message,), internal),
    ensures
        input.deep_view().kind == ErrorKind::InvalidInput,
        upstream.deep_view().kind == ErrorKind::Upstream,
        video.deep_view().kind == ErrorKind::NoVideo,
        response.deep_view().kind == ErrorKind::InvalidResponse,
        internal.deep_view().kind == ErrorKind::Internal,
        input.deep_view().message == message@,
        upstream.deep_view().message == message@,
        video.deep_view().message == message@,
        response.deep_view().message == message@,
        internal.deep_view().message == message@,
        input.deep_view().hint is None && input.deep_view().upstream_status is None,
{
}

} // verus!
