//! Views of a read result: the plain text, and what several views share.

use std::str::FromStr;

use vstd::prelude::*;
use vstd::string::StrSliceExecFns;

use crate::error::error_view;
use crate::error::XReadError;
use crate::model::choice;
use crate::model::Author;
use crate::model::AuthorView;
use crate::model::Media;
use crate::model::MediaView;
use crate::model::Post;
use crate::model::PostView;
use crate::model::ReadResult;
use crate::model::ReplyInfo;
use crate::model::ReplyInfoView;
use crate::model::ResultView;
use crate::text;
use crate::video;

verus! {

// ----------------------------------------------------------------------
// Formats

/// The format of an output.
#[derive(Debug, Clone, Copy, PartialEq, Eq, Structural)]
pub enum OutputFormat {
    Markdown,
    Text,
    Json,
    Human,
}

impl Default for OutputFormat {
    fn default() -> (out: Self)
        ensures
            out == OutputFormat::Markdown,
    {
        OutputFormat::Markdown
    }
}

/// The format with a given name, in any case.
pub open spec fn format_named(value: Seq<char>) -> Option<OutputFormat> {
    let name = text::lower_case(value);
    if name == "md"@ || name == "markdown"@ {
        Some(OutputFormat::Markdown)
    } else if name == "text"@ || name == "txt"@ {
        Some(OutputFormat::Text)
    } else if name == "json"@ {
        Some(OutputFormat::Json)
    } else if name == "human"@ {
        Some(OutputFormat::Human)
    } else {
        None
    }
}

/// The name of a format.
pub open spec fn format_name(format: OutputFormat) -> Seq<char> {
    match format {
        OutputFormat::Markdown => "markdown"@,
        OutputFormat::Text => "text"@,
        OutputFormat::Json => "json"@,
        OutputFormat::Human => "human"@,
    }
}

impl OutputFormat {
    /// The name of this format.
    pub fn as_str(self) -> (out: &'static str)
        ensures
            out@ == format_name(self),
    {
        match self {
            OutputFormat::Markdown => "markdown",
            OutputFormat::Text => "text",
            OutputFormat::Json => "json",
            OutputFormat::Human => "human",
        }
    }
}

impl FromStr for OutputFormat {
    type Err = XReadError;

    fn from_str(value: &str) -> (out: Result<Self, XReadError>)
        ensures
            error_view(out) == choice(
                format_named(value@),
                "format 只接受 markdown、text、json 或 human。"@,
            ),
    {
        let name = text::to_lower(value);
        let name = name.as_str();
        if text::same(name, "md") || text::same(name, "markdown") {
            Ok(OutputFormat::Markdown)
        } else if text::same(name, "text") || text::same(name, "txt") {
            Ok(OutputFormat::Text)
        } else if text::same(name, "json") {
            Ok(OutputFormat::Json)
        } else if text::same(name, "human") {
            Ok(OutputFormat::Human)
        } else {
            Err(XReadError::invalid_input("format 只接受 markdown、text、json 或 human。"))
        }
    }
}

/// A format has its name and, but for JSON and the text for people, a short one;
/// the case of the letters does not matter, and nothing else names a format.
pub proof fn law_formats_have_their_names(value: Seq<char>)
    ensures
        ({
            let name = text::lower_case(value);
            &&& name == "markdown"@ || name == "md"@ <==> format_named(value) == Some(
                OutputFormat::Markdown,
            )
            &&& name == "text"@ || name == "txt"@ <==> format_named(value) == Some(
                OutputFormat::Text,
            )
            &&& name == "json"@ <==> format_named(value) == Some(OutputFormat::Json)
            &&& name == "human"@ <==> format_named(value) == Some(OutputFormat::Human)
        }),
        format_name(OutputFormat::Markdown) == "markdown"@,
        format_name(OutputFormat::Text) == "text"@,
        format_name(OutputFormat::Json) == "json"@,
        format_name(OutputFormat::Human) == "human"@,
{
    reveal_strlit("md");
    reveal_strlit("markdown");
    reveal_strlit("text");
    reveal_strlit("txt");
    reveal_strlit("json");
    reveal_strlit("human");
    assert("human"@.len() == 5 && "json"@.len() == 4 && "text"@.len() == 4 && "txt"@.len() == 3
        && "md"@.len() == 2 && "markdown"@.len() == 8);
    assert("json"@[0] == 'j' && "text"@[0] == 't');
}

/// The name of a format names that format.
pub proof fn law_format_round_trip(format: OutputFormat)
    ensures
        format_named(format_name(format)) == Some(format),
{
    reveal_strlit("md");
    reveal_strlit("markdown");
    reveal_strlit("text");
    reveal_strlit("txt");
    reveal_strlit("json");
    reveal_strlit("human");
    assert(text::lower_case("markdown"@) == "markdown"@);
    assert(text::lower_case("text"@) == "text"@);
    assert(text::lower_case("json"@) == "json"@);
    assert(text::lower_case("human"@) == "human"@);
    assert("human"@.len() == 5 && "json"@.len() == 4 && "text"@.len() == 4);
    assert("json"@[0] == 'j' && "text"@[0] == 't');
    assert("human"@[0] == 'h');
}

// ----------------------------------------------------------------------
// Numbers

/// Digits with a comma before every three but the first.
pub open spec fn grouped(digits: Seq<char>) -> Seq<char>
    decreases digits.len(),
{
    if digits.len() <= 3 {
        digits
    } else {
        grouped(digits.take(digits.len() - 3)) + ","@ + digits.skip(digits.len() - 3)
    }
}

fn group_digits(digits: &str) -> (out: String)
    ensures
        out@ == grouped(digits@),
    decreases digits@.len(),
{
    let len: usize = digits.unicode_len();
    if len <= 3 {
        digits.to_owned()
    } else {
        let head = digits.substring_char(0, len - 3);
        let tail = digits.substring_char(len - 3, len);
        assert(head@ == digits@.take(digits@.len() - 3));
        assert(tail@ == digits@.skip(digits@.len() - 3));
        text::cat3(group_digits(head).as_str(), ",", tail)
    }
}

/// Writes a number with its digits in groups of three.
pub fn format_number(value: u64) -> (out: String)
    ensures
        out@ == grouped(text::decimal(value as nat)),
{
    group_digits(text::number_text(value).as_str())
}

/// Grouping adds commas and changes no digit.
pub proof fn law_grouping_keeps_the_digits(digits: Seq<char>)
    requires
        !digits.contains(','),
    ensures
        grouped(digits).filter(|c: char| c != ',') == digits,
    decreases digits.len(),
{
    let kept = |c: char| c != ',';
    if digits.len() <= 3 {
        lemma_filter_keeps_all(digits);
    } else {
        let head = digits.take(digits.len() - 3);
        let tail = digits.skip(digits.len() - 3);
        assert forall|i: int| 0 <= i < head.len() implies head[i] != ',' by {
            assert(digits[i] != ',');
        }
        assert forall|i: int| 0 <= i < tail.len() implies tail[i] != ',' by {
            assert(digits[digits.len() - 3 + i] != ',');
        }
        law_grouping_keeps_the_digits(head);
        lemma_filter_keeps_all(tail);
        Seq::filter_distributes_over_add(grouped(head) + ","@, tail, kept);
        Seq::filter_distributes_over_add(grouped(head), ","@, kept);
        reveal_strlit(",");
        reveal_with_fuel(Seq::filter, 2);
        assert(","@.drop_last() == Seq::<char>::empty());
        assert(","@.filter(kept) == Seq::<char>::empty());
        assert(head + Seq::<char>::empty() + tail == digits);
    }
}

proof fn lemma_filter_keeps_all(s: Seq<char>)
    requires
        !s.contains(','),
    ensures
        s.filter(|c: char| c != ',') == s,
    decreases s.len(),
{
    reveal(Seq::filter);
    if s.len() > 0 {
        let rest = s.drop_last();
        assert forall|i: int| 0 <= i < rest.len() implies rest[i] != ',' by {
            assert(s[i] != ',');
        }
        lemma_filter_keeps_all(rest);
        assert(s.last() != ',');
        assert(rest.push(s.last()) == s);
    }
}

/// The commas of a grouped number stand before every third digit from its end.
pub proof fn law_groups_are_of_three(digits: Seq<char>)
    requires
        !digits.contains(','),
    ensures
        forall|i: int|
            0 <= i < grouped(digits).len() ==> (#[trigger] grouped(digits)[i] == ',' <==> (
            grouped(digits).len() - i) % 4 == 0),
    decreases digits.len(),
{
    let out = grouped(digits);
    if digits.len() <= 3 {
        assert forall|i: int| 0 <= i < out.len() implies (#[trigger] out[i] == ',' <==> (out.len()
            - i) % 4 == 0) by {
            assert(digits[i] != ',');
        }
    } else {
        let head = digits.take(digits.len() - 3);
        let tail = digits.skip(digits.len() - 3);
        assert forall|i: int| 0 <= i < head.len() implies head[i] != ',' by {
            assert(digits[i] != ',');
        }
        law_groups_are_of_three(head);
        reveal_strlit(",");
        let front = grouped(head);
        assert(out.len() == front.len() + 4);
        assert forall|i: int| 0 <= i < out.len() implies (#[trigger] out[i] == ',' <==> (out.len()
            - i) % 4 == 0) by {
            if i < front.len() {
                assert(out[i] == front[i]);
                assert((out.len() - i) % 4 == (front.len() - i) % 4);
            } else if i > front.len() {
                assert(out[i] == tail[i - front.len() - 1]);
                assert(digits[digits.len() - 3 + (i - front.len() - 1)] != ',');
            }
        }
    }
}

// ----------------------------------------------------------------------
// Authors, dates and media

/// An author by name and user name.
pub open spec fn author_text(author: AuthorView) -> Seq<char> {
    let username = match author.username {
        Some(username) => "@"@ + username,
        None => "@未知用户"@,
    };
    match author.name {
        Some(name) => name + " ("@ + username + ")"@,
        None => username,
    }
}

/// Writes an author by name and user name.
pub fn render_author(author: &Author) -> (out: String)
    ensures
        out@ == author_text(author.deep_view()),
{
    let username = match &author.username {
        Some(username) => text::cat2("@", username.as_str()),
        None => "@未知用户".to_owned(),
    };
    match &author.name {
        Some(name) => text::cat4(name.as_str(), " (", username.as_str(), ")"),
        None => username,
    }
}

/// The day of a post, else what its source calls its date.
pub open spec fn day_of(post: PostView) -> Option<Seq<char>> {
    match post.created_at {
        Some(date) => Some(text::split(date, 'T')[0]),
        None => post.date_label,
    }
}

/// Writes the day of a post.
pub fn compact_date(post: &Post) -> (out: Option<String>)
    ensures
        out.deep_view() == day_of(post.deep_view()),
{
    match &post.created_at {
        Some(date) => {
            let parts = text::split_text(date.as_str(), 'T');
            assert(parts@.len() == parts.deep_view().len());
            assert(parts.deep_view()[0] == parts@[0]@);
            Some(parts[0].clone())
        },
        None => post.date_label.clone(),
    }
}

/// Whether a media item is a photo.
pub open spec fn is_photo(media: MediaView) -> bool {
    media.media_type == Some("photo"@)
}

/// How many of the media items are photos.
pub open spec fn photos(media: Seq<MediaView>) -> nat
    decreases media.len(),
{
    if media.len() == 0 {
        0
    } else {
        photos(media.drop_last()) + (if is_photo(media.last()) {
            1nat
        } else {
            0
        })
    }
}

/// How many of the media items are videos or animations.
pub open spec fn videos(media: Seq<MediaView>) -> nat
    decreases media.len(),
{
    if media.len() == 0 {
        0
    } else {
        videos(media.drop_last()) + (if video::is_video_type(media.last().media_type) {
            1nat
        } else {
            0
        })
    }
}

/// A count and what it counts; none where it counts nothing.
pub open spec fn counted(count: nat, name: Seq<char>) -> Option<Seq<char>> {
    if count == 0 {
        None
    } else {
        Some(
            text::decimal(count) + name + (if count == 1 {
                ""@
            } else {
                "s"@
            }),
        )
    }
}

/// How many images and videos the media items are.
pub open spec fn media_summary(media: Seq<MediaView>) -> Option<Seq<char>> {
    let parts = text::with_text(
        text::with_text(Seq::empty(), counted(photos(media), " image"@)),
        counted(videos(media), " video"@),
    );
    if parts.len() == 0 {
        None
    } else {
        Some(text::join(parts, ", "@))
    }
}

fn count_text(count: usize, name: &str) -> (out: Option<String>)
    ensures
        out.deep_view() == counted(count as nat, name@),
{
    if count == 0 {
        None
    } else {
        let suffix = if count == 1 {
            ""
        } else {
            "s"
        };
        Some(text::cat3(text::number_text(count as u64).as_str(), name, suffix))
    }
}

/// Sums up media items.
pub fn compact_media_summary(media: &Vec<Media>) -> (out: Option<String>)
    ensures
        out.deep_view() == media_summary(media.deep_view()),
{
    let ghost model = media.deep_view();
    let total: usize = media.len();
    let mut images: usize = 0;
    let mut movies: usize = 0;
    let mut i: usize = 0;
    while i < total
        invariant
            i <= total,
            total == media@.len(),
            model == media.deep_view(),
            model.len() == media@.len(),
            images <= i,
            movies <= i,
            images == photos(model.take(i as int)),
            movies == videos(model.take(i as int)),
        decreases total - i,
    {
        assert(model.take(i + 1).drop_last() == model.take(i as int));
        assert(model[i as int] == media@[i as int].deep_view());
        let photo = match &media[i].media_type {
            Some(kind) => text::same(kind.as_str(), "photo"),
            None => false,
        };
        if photo {
            images = images + 1;
        }
        if video::video_type(&media[i].media_type) {
            movies = movies + 1;
        }
        i = i + 1;
    }
    assert(model.take(i as int) == model);
    let mut parts: Vec<String> = Vec::new();
    assert(parts.deep_view() == Seq::<Seq<char>>::empty());
    text::push_text(&mut parts, count_text(images, " image"));
    text::push_text(&mut parts, count_text(movies, " video"));
    assert(parts@.len() == parts.deep_view().len());
    if parts.len() == 0 {
        None
    } else {
        Some(text::join_strings(parts.as_slice(), ", "))
    }
}

/// What is said of replies that may not be all.
pub open spec fn partial_note(info: ReplyInfoView) -> Seq<char> {
    if info.truncated {
        ", partial"@
    } else {
        ""@
    }
}

/// Says that replies may not be all.
pub fn partial(info: &ReplyInfo) -> (out: &'static str)
    ensures
        out@ == partial_note(info.deep_view()),
{
    if info.truncated {
        ", partial"
    } else {
        ""
    }
}

// ----------------------------------------------------------------------
// Plain text

/// The plain body of a post: its article's where that is not blank.
pub open spec fn body_text(post: PostView) -> Seq<char> {
    match post.article {
        Some(article) => if text::trim(article.text).len() > 0 {
            text::trim(article.text)
        } else {
            text::trim(post.text)
        },
        None => text::trim(post.text),
    }
}

/// The plain body of a post.
pub fn plain_body(post: &Post) -> (out: String)
    ensures
        out@ == body_text(post.deep_view()),
{
    if let Some(article) = &post.article {
        let body = text::trim_text(article.text.as_str());
        if !body.is_empty() {
            return body.to_owned();
        }
    }
    text::trim_text(post.text.as_str()).to_owned()
}

/// `lines` with the replies as plain text.
pub open spec fn add_plain_replies(lines: Seq<Seq<char>>, replies: Seq<PostView>) -> Seq<Seq<char>>
    decreases replies.len(),
{
    if replies.len() == 0 {
        lines
    } else {
        let reply = replies.last();
        add_plain_replies(lines, replies.drop_last()).push(
            author_text(reply.author) + ":\n"@ + body_text(reply),
        )
    }
}

/// The replies of a result as plain text.
pub open spec fn plain_replies(info: ReplyInfoView, replies: Seq<PostView>) -> Seq<char> {
    let heading = "Replies ("@ + text::decimal(replies.len()) + " shown"@ + partial_note(info)
        + "):"@;
    text::join(add_plain_replies(seq![heading], replies), "\n\n"@)
}

/// The sections of a result as plain text.
pub open spec fn plain_sections(result: ResultView) -> Seq<Seq<char>> {
    let own = seq![body_text(result.post)];
    let with_quoted = match result.post.quoted_post {
        Some(quoted) => own.push("Quoted post:\n"@ + body_text(*quoted)),
        None => own,
    };
    let with_reposted = match result.post.reposted_post {
        Some(reposted) => with_quoted.push("Reposted content:\n"@ + body_text(*reposted)),
        None => with_quoted,
    };
    match result.reply_info {
        Some(info) => with_reposted.push(plain_replies(info, result.replies)),
        None => with_reposted,
    }
}

/// A result as plain text.
pub open spec fn text_view(result: ResultView) -> Seq<char> {
    text::join(text::drop_blank(plain_sections(result)), "\n\n"@)
}

fn render_plain_replies(info: &ReplyInfo, replies: &Vec<Post>) -> (out: String)
    ensures
        out@ == plain_replies(info.deep_view(), replies.deep_view()),
{
    let ghost model = replies.deep_view();
    assert(model.len() == replies@.len());
    let count = text::number_text(replies.len() as u64);
    let heading = text::cat5("Replies (", count.as_str(), " shown", partial(info), "):");
    let mut lines: Vec<String> = Vec::new();
    let ghost start = seq![heading@];
    text::push_line(&mut lines, heading);
    assert(lines.deep_view() == start);
    let mut i: usize = 0;
    while i < replies.len()
        invariant
            i <= replies@.len(),
            model == replies.deep_view(),
            model.len() == replies@.len(),
            lines.deep_view() == add_plain_replies(start, model.take(i as int)),
        decreases replies.len() - i,
    {
        assert(model.take(i + 1).drop_last() == model.take(i as int));
        assert(model[i as int] == replies@[i as int].deep_view());
        let author = render_author(&replies[i].author);
        let body = plain_body(&replies[i]);
        text::push_line(&mut lines, text::cat3(author.as_str(), ":\n", body.as_str()));
        i = i + 1;
    }
    assert(model.take(i as int) == model);
    text::join_strings(lines.as_slice(), "\n\n")
}

/// Plain content with no terminal decoration or backend diagnostics.
pub fn render_text(result: &ReadResult) -> (out: String)
    ensures
        out@ == text_view(result.deep_view()),
{
    let mut sections: Vec<String> = Vec::new();
    text::push_line(&mut sections, plain_body(&result.post));
    assert(sections.deep_view() == seq![body_text(result.post.deep_view())]);
    if let Some(quoted) = &result.post.quoted_post {
        let body = plain_body(quoted);
        text::push_line(&mut sections, text::cat2("Quoted post:\n", body.as_str()));
    }
    if let Some(reposted) = &result.post.reposted_post {
        let body = plain_body(reposted);
        text::push_line(&mut sections, text::cat2("Reposted content:\n", body.as_str()));
    }
    if let Some(info) = &result.reply_info {
        text::push_line(&mut sections, render_plain_replies(info, &result.replies));
    }
    let filled = text::without_blank(sections.as_slice());
    text::join_strings(filled.as_slice(), "\n\n")
}

// ----------------------------------------------------------------------
// Laws on parts

/// The day of a moment is what stands before the `T` of its spelling; where
/// there is no moment, it is what the source calls the date.
pub proof fn law_days_of_moments(post: PostView, day: Seq<char>, time: Seq<char>)
    requires
        forall|i: int| 0 <= i < day.len() ==> #[trigger] day[i] != 'T',
    ensures
        post.created_at == Some(day + seq!['T'] + time) ==> day_of(post) == Some(day),
        post.created_at is None ==> day_of(post) == post.date_label,
{
    lemma_before_t(day, time);
}

proof fn lemma_before_t(day: Seq<char>, time: Seq<char>)
    requires
        forall|i: int| 0 <= i < day.len() ==> #[trigger] day[i] != 'T',
    ensures
        text::split(day + seq!['T'] + time, 'T').len() > 1,
        text::split(day + seq!['T'] + time, 'T')[0] == day,
    decreases time.len(),
{
    let whole = day + seq!['T'] + time;
    if time.len() == 0 {
        assert(whole.drop_last() == day);
        assert(whole.last() == 'T');
        crate::oembed::lemma_one_piece(day, 'T');
    } else {
        let rest = time.drop_last();
        assert(whole.drop_last() == day + seq!['T'] + rest);
        lemma_before_t(day, rest);
    }
}

proof fn lemma_counted_media(media: Seq<MediaView>)
    ensures
        (forall|i: int| 0 <= i < media.len() ==> (#[trigger] media[i]).media_type == Some("photo"@))
            ==> photos(media) == media.len() && videos(media) == 0,
        (forall|i: int| 0 <= i < media.len() ==> (#[trigger] media[i]).media_type == Some("video"@))
            ==> videos(media) == media.len() && photos(media) == 0,
    decreases media.len(),
{
    reveal_strlit("photo");
    reveal_strlit("video");
    reveal_strlit("gif");
    assert("photo"@.len() == 5 && "video"@.len() == 5 && "gif"@.len() == 3 && "photo"@[0] == 'p'
        && "video"@[0] == 'v');
    if media.len() > 0 {
        let rest = media.drop_last();
        assert(media.last() == media[media.len() - 1]);
        assert(forall|i: int| 0 <= i < rest.len() ==> rest[i] == #[trigger] media[i]);
        lemma_counted_media(rest);
    }
}

/// Photos are counted as images and videos as videos, in the singular where
/// there is one; without media there is nothing to say.
pub proof fn law_media_are_counted(media: Seq<MediaView>)
    ensures
        media.len() == 0 ==> media_summary(media) is None,
        media.len() == 1 && media[0].media_type == Some("photo"@) ==> media_summary(media) == Some(
            "1 image"@,
        ),
        media.len() == 1 && media[0].media_type == Some("video"@) ==> media_summary(media) == Some(
            "1 video"@,
        ),
        media.len() > 1 && (forall|i: int|
            0 <= i < media.len() ==> (#[trigger] media[i]).media_type == Some("photo"@))
            ==> media_summary(media) == Some(text::decimal(media.len()) + " images"@),
        media.len() > 1 && (forall|i: int|
            0 <= i < media.len() ==> (#[trigger] media[i]).media_type == Some("video"@))
            ==> media_summary(media) == Some(text::decimal(media.len()) + " videos"@),
{
    lemma_counted_media(media);
    reveal_strlit("1 image");
    reveal_strlit("1 video");
    reveal_strlit(" image");
    reveal_strlit(" video");
    reveal_strlit(" images");
    reveal_strlit(" videos");
    reveal_strlit("s");
    reveal_strlit("");
    let number = text::decimal(media.len());
    let image = number + " image"@ + (if media.len() == 1 {
        ""@
    } else {
        "s"@
    });
    let video = number + " video"@ + (if media.len() == 1 {
        ""@
    } else {
        "s"@
    });
    assert(text::decimal(1) == seq!['1']);
    if media.len() == 1 {
        assert(image == "1 image"@);
        assert(video == "1 video"@);
    } else {
        assert(image == number + " images"@);
        assert(video == number + " videos"@);
    }
    let none = Seq::<Seq<char>>::empty();
    assert(text::join(none.push(image), ", "@) == image);
    assert(text::join(none.push(video), ", "@) == video);
}

} // verus!
