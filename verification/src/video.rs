//! Which video URLs a post has, and which encoding of each is selected.

use vstd::prelude::*;

use crate::error::plain_error;
use crate::error::result_model;
use crate::error::ErrorKind;
use crate::error::ErrorView;
use crate::error::XReadError;
use crate::json::or;
use crate::model::Media;
use crate::model::MediaVariant;
use crate::model::MediaView;
use crate::model::Post;
use crate::model::PostView;
use crate::model::VariantView;
use crate::model::VideoQuality;
use crate::text;

verus! {

// ----------------------------------------------------------------------
// One encoding

/// The bit rate of a variant; zero where it is not known.
pub open spec fn rate(variant: VariantView) -> u64 {
    match variant.bit_rate {
        Some(rate) => rate,
        None => 0,
    }
}

/// Whether `s` contains `word`, whatever the case of its ASCII letters.
pub open spec fn mentions(s: Seq<char>, word: Seq<char>) -> bool {
    text::contains(text::lower_case(s), word)
}

/// Whether a variant is an MP4: its type or its URL says so.
pub open spec fn is_mp4(variant: VariantView) -> bool {
    (variant.content_type matches Some(kind) && mentions(kind, "mp4"@)) || mentions(
        variant.url,
        ".mp4"@,
    )
}

/// The shorter edge that a path segment such as `720x1280` names.
pub open spec fn segment_resolution(segment: Seq<char>) -> Option<nat> {
    match text::find(segment, seq!['x']) {
        Some(at) => {
            let width = text::parse_unsigned(segment.take(at), u32::MAX as nat);
            let height = text::parse_unsigned(segment.skip(at + 1), u32::MAX as nat);
            match (width, height) {
                (Some(width), Some(height)) => Some(
                    if width <= height {
                        width
                    } else {
                        height
                    },
                ),
                _ => None,
            }
        },
        None => None,
    }
}

/// The resolution that the first of the segments from `from` on names.
pub open spec fn first_resolution(segments: Seq<Seq<char>>, from: int) -> Option<nat>
    decreases segments.len() - from,
{
    if from < 0 || from >= segments.len() {
        None
    } else {
        or(segment_resolution(segments[from]), first_resolution(segments, from + 1))
    }
}

/// The shorter edge of a video, as its URL names it.
pub open spec fn resolution(url: Seq<char>) -> Option<nat> {
    first_resolution(text::split(url, '/'), 0)
}

fn segment_edge(segment: &str) -> (out: Option<u32>)
    ensures
        match out {
            Some(edge) => segment_resolution(segment@) == Some(edge as nat),
            None => segment_resolution(segment@) is None,
        },
{
    let chars = text::chars_of(segment);
    let mark: [char; 1] = ['x'];
    assert(mark@ == seq!['x']);
    match text::find_chars(chars.as_slice(), &mark, 0) {
        Some(at) => {
            proof {
                text::lemma_find_from(segment@, seq!['x'], 0);
            }
            let left = text::string_of(vstd::slice::slice_subrange(chars.as_slice(), 0, at));
            let right = text::string_of(
                vstd::slice::slice_subrange(chars.as_slice(), at + 1, chars.len()),
            );
            assert(left@ == segment@.take(at as int));
            assert(right@ == segment@.skip(at + 1));
            let width = text::parse_number(left.as_str(), u32::MAX as u64);
            let height = text::parse_number(right.as_str(), u32::MAX as u64);
            match (width, height) {
                (Some(width), Some(height)) => {
                    if width <= height {
                        Some(width as u32)
                    } else {
                        Some(height as u32)
                    }
                },
                _ => None,
            }
        },
        None => None,
    }
}

/// Computes `resolution`.
pub fn variant_resolution(url: &str) -> (out: Option<u32>)
    ensures
        match out {
            Some(edge) => resolution(url@) == Some(edge as nat),
            None => resolution(url@) is None,
        },
{
    let segments = text::split_text(url, '/');
    let ghost model = segments.deep_view();
    let mut i: usize = 0;
    while i < segments.len()
        invariant
            i <= segments@.len(),
            model == segments.deep_view(),
            resolution(url@) == first_resolution(model, i as int),
        decreases segments.len() - i,
    {
        assert(model[i as int] == segments@[i as int]@);
        let edge = segment_edge(segments[i].as_str());
        if edge.is_some() {
            return edge;
        }
        i = i + 1;
    }
    None
}

/// Decides `mentions`.
pub fn text_mentions(value: &str, word: &str) -> (out: bool)
    ensures
        out == mentions(value@, word@),
{
    let low = text::to_lower(value);
    text::text_contains(low.as_str(), word)
}

/// Decides `is_mp4`.
pub fn is_mp4_variant(variant: &MediaVariant) -> (out: bool)
    ensures
        out == is_mp4(variant.deep_view()),
{
    let by_type = match &variant.content_type {
        Some(kind) => text_mentions(kind.as_str(), "mp4"),
        None => false,
    };
    by_type || text_mentions(variant.url.as_str(), ".mp4")
}

// ----------------------------------------------------------------------
// The choice among encodings

/// What one search among the encodings is after.
#[derive(Clone, Copy)]
pub enum Preference {
    /// The highest bit rate, and the last of equals.
    HighestRate,
    /// The lowest bit rate, and the first of equals.
    LowestRate,
    /// The largest known resolution up to a bound, then the highest bit rate,
    /// and the last of equals.
    LargestWithin(u32),
    /// The smallest known resolution, and the first of equals.
    Smallest,
}

/// Whether a search considers a variant at all.
pub open spec fn eligible(preference: Preference, variant: VariantView) -> bool {
    is_mp4(variant) && match preference {
        Preference::HighestRate => true,
        Preference::LowestRate => true,
        Preference::LargestWithin(bound) => resolution(variant.url) matches Some(edge) && edge
            <= bound,
        Preference::Smallest => resolution(variant.url) is Some,
    }
}

/// Whether a search likes `left` strictly better than `right`.
pub open spec fn better(preference: Preference, left: VariantView, right: VariantView) -> bool {
    match preference {
        Preference::HighestRate => rate(left) > rate(right),
        Preference::LowestRate => rate(left) < rate(right),
        Preference::LargestWithin(_) => {
            let a = resolution(left.url)->0;
            let b = resolution(right.url)->0;
            a > b || (a == b && rate(left) > rate(right))
        },
        Preference::Smallest => resolution(left.url)->0 < resolution(right.url)->0,
    }
}

/// Whether of equally good variants the last one is taken.
pub open spec fn takes_last(preference: Preference) -> bool {
    match preference {
        Preference::HighestRate => true,
        Preference::LowestRate => false,
        Preference::LargestWithin(_) => true,
        Preference::Smallest => false,
    }
}

/// Whether the search leaves `current` for the later `next`.
pub open spec fn replaces(
    preference: Preference,
    current: VariantView,
    next: VariantView,
) -> bool {
    if takes_last(preference) {
        !better(preference, current, next)
    } else {
        better(preference, next, current)
    }
}

/// The variant that a search ends with.
pub open spec fn picked(variants: Seq<VariantView>, preference: Preference) -> Option<VariantView>
    decreases variants.len(),
{
    if variants.len() == 0 {
        None
    } else {
        let before = picked(variants.drop_last(), preference);
        let next = variants.last();
        if !eligible(preference, next) {
            before
        } else {
            match before {
                Some(current) => if replaces(preference, current, next) {
                    Some(next)
                } else {
                    before
                },
                None => Some(next),
            }
        }
    }
}

/// A search finds an eligible variant if there is one, and no eligible variant
/// is better than the one found.
pub proof fn law_search_finds_the_best(variants: Seq<VariantView>, preference: Preference)
    ensures
        match picked(variants, preference) {
            Some(found) => {
                &&& variants.contains(found)
                &&& eligible(preference, found)
                &&& forall|i: int|
                    0 <= i < variants.len() && eligible(preference, #[trigger] variants[i])
                        ==> !better(preference, variants[i], found)
            },
            None => forall|i: int|
                0 <= i < variants.len() ==> !eligible(preference, #[trigger] variants[i]),
        },
    decreases variants.len(),
{
    if variants.len() > 0 {
        let shorter = variants.drop_last();
        law_search_finds_the_best(shorter, preference);
        let last = variants.len() - 1;
        match picked(variants, preference) {
            Some(found) => {
                if picked(shorter, preference) == Some(found) && shorter.contains(found) {
                    let k = choose|k: int| 0 <= k < shorter.len() && shorter[k] == found;
                    assert(variants[k] == found);
                } else {
                    assert(variants[last] == found);
                }
                assert forall|i: int|
                    0 <= i < variants.len() && eligible(
                        preference,
                        #[trigger] variants[i],
                    ) implies !better(preference, variants[i], found) by {
                    if i < last {
                        assert(shorter[i] == variants[i]);
                    }
                }
            },
            None => {
                assert forall|i: int| 0 <= i < variants.len() implies !eligible(
                    preference,
                    #[trigger] variants[i],
                ) by {
                    if i < last {
                        assert(shorter[i] == variants[i]);
                    }
                }
            },
        }
    }
}

/// The variant selected for a quality. A height takes the largest resolution
/// up to it, else the smallest known one, else the highest bit rate.
pub open spec fn selected_variant(
    variants: Seq<VariantView>,
    quality: VideoQuality,
) -> Option<VariantView> {
    match quality {
        VideoQuality::Best => picked(variants, Preference::HighestRate),
        VideoQuality::Worst => picked(variants, Preference::LowestRate),
        VideoQuality::Height(target) => or(
            picked(variants, Preference::LargestWithin(target)),
            or(
                picked(variants, Preference::Smallest),
                picked(variants, Preference::HighestRate),
            ),
        ),
    }
}

/// The facts on a variant that a search looks at.
struct Facts {
    mp4: bool,
    edge: Option<u32>,
    rate: u64,
}

impl Facts {
    spec fn of(self, variant: VariantView) -> bool {
        &&& self.mp4 == is_mp4(variant)
        &&& self.rate == rate(variant)
        &&& match self.edge {
            Some(edge) => resolution(variant.url) == Some(edge as nat),
            None => resolution(variant.url) is None,
        }
    }
}

fn facts(variant: &MediaVariant) -> (out: Facts)
    ensures
        out.of(variant.deep_view()),
{
    Facts {
        mp4: is_mp4_variant(variant),
        edge: variant_resolution(variant.url.as_str()),
        rate: match variant.bit_rate {
            Some(rate) => rate,
            None => 0,
        },
    }
}

fn considers(preference: Preference, next: &Facts, Ghost(variant): Ghost<VariantView>) -> (out: bool)
    requires
        next.of(variant),
    ensures
        out == eligible(preference, variant),
{
    next.mp4 && match preference {
        Preference::HighestRate => true,
        Preference::LowestRate => true,
        Preference::LargestWithin(bound) => match next.edge {
            Some(edge) => edge <= bound,
            None => false,
        },
        Preference::Smallest => next.edge.is_some(),
    }
}

fn leaves(
    preference: Preference,
    current: &Facts,
    next: &Facts,
    Ghost(old_variant): Ghost<VariantView>,
    Ghost(new_variant): Ghost<VariantView>,
) -> (out: bool)
    requires
        current.of(old_variant),
        next.of(new_variant),
        eligible(preference, old_variant),
        eligible(preference, new_variant),
    ensures
        out == replaces(preference, old_variant, new_variant),
{
    let old_edge: u32 = match current.edge {
        Some(edge) => edge,
        None => 0,
    };
    let new_edge: u32 = match next.edge {
        Some(edge) => edge,
        None => 0,
    };
    match preference {
        Preference::HighestRate => next.rate >= current.rate,
        Preference::LowestRate => next.rate < current.rate,
        Preference::LargestWithin(_) => new_edge > old_edge || (new_edge == old_edge && next.rate
            >= current.rate),
        Preference::Smallest => new_edge < old_edge,
    }
}

/// Computes `picked`.
fn pick(variants: &Vec<MediaVariant>, preference: Preference) -> (out: Option<&MediaVariant>)
    ensures
        out.deep_view() == picked(variants.deep_view(), preference),
{
    let ghost model = variants.deep_view();
    let mut best: Option<usize> = None;
    let mut i: usize = 0;
    while i < variants.len()
        invariant
            i <= variants@.len(),
            model == variants.deep_view(),
            model.len() == variants@.len(),
            match best {
                Some(k) => k < i && picked(model.take(i as int), preference) == Some(
                    model[k as int],
                ),
                None => picked(model.take(i as int), preference) is None,
            },
        decreases variants.len() - i,
    {
        proof {
            assert(model.take(i + 1).drop_last() == model.take(i as int));
            assert(model[i as int] == variants@[i as int].deep_view());
            law_search_finds_the_best(model.take(i as int), preference);
        }
        let next = facts(&variants[i]);
        if considers(preference, &next, Ghost(model[i as int])) {
            match best {
                Some(k) => {
                    let current = facts(&variants[k]);
                    if leaves(
                        preference,
                        &current,
                        &next,
                        Ghost(model[k as int]),
                        Ghost(model[i as int]),
                    ) {
                        best = Some(i);
                    }
                },
                None => {
                    best = Some(i);
                },
            }
        }
        i = i + 1;
    }
    assert(model.take(i as int) == model);
    match best {
        Some(k) => Some(&variants[k]),
        None => None,
    }
}

/// Computes `selected_variant`.
fn select_video_variant(variants: &Vec<MediaVariant>, quality: VideoQuality) -> (out: Option<
    &MediaVariant,
>)
    ensures
        out.deep_view() == selected_variant(variants.deep_view(), quality),
{
    match quality {
        VideoQuality::Best => pick(variants, Preference::HighestRate),
        VideoQuality::Worst => pick(variants, Preference::LowestRate),
        VideoQuality::Height(target) => {
            let within = pick(variants, Preference::LargestWithin(target));
            if within.is_some() {
                return within;
            }
            let smallest = pick(variants, Preference::Smallest);
            if smallest.is_some() {
                return smallest;
            }
            pick(variants, Preference::HighestRate)
        },
    }
}

// ----------------------------------------------------------------------
// One media item

/// Whether a media type is that of a video.
pub open spec fn is_video_type(media_type: Option<Seq<char>>) -> bool {
    media_type == Some("video"@) || media_type == Some("gif"@)
}

/// Decides `is_video_type`.
pub fn video_type(media_type: &Option<String>) -> (out: bool)
    ensures
        out == is_video_type(media_type.deep_view()),
{
    match media_type {
        Some(kind) => text::same(kind.as_str(), "video") || text::same(kind.as_str(), "gif"),
        None => false,
    }
}

/// The MP4 URL of a media item: that of the selected variant, and where there
/// is no MP4 variant the item's own URL, if that is an MP4.
pub open spec fn selected_url(media: MediaView, quality: VideoQuality) -> Option<Seq<char>> {
    if !is_video_type(media.media_type) {
        None
    } else {
        match selected_variant(media.variants, quality) {
            Some(variant) => Some(variant.url),
            None => match media.url {
                Some(url) => if mentions(url, ".mp4"@) {
                    Some(url)
                } else {
                    None
                },
                None => None,
            },
        }
    }
}

impl Media {
    /// Select one directly usable MP4 representation for this media item.
    pub fn video_url(&self) -> (out: Option<&str>)
        ensures
            out.deep_view() == selected_url(self.deep_view(), VideoQuality::Best),
    {
        self.video_url_with_quality(VideoQuality::Best)
    }

    /// Select the MP4 representation of the given quality.
    pub fn video_url_with_quality(&self, quality: VideoQuality) -> (out: Option<&str>)
        ensures
            out.deep_view() == selected_url(self.deep_view(), quality),
    {
        if !video_type(&self.media_type) {
            return None;
        }
        match select_video_variant(&self.variants, quality) {
            Some(variant) => Some(variant.url.as_str()),
            None => match &self.url {
                Some(url) => {
                    if text_mentions(url.as_str(), ".mp4") {
                        Some(url.as_str())
                    } else {
                        None
                    }
                },
                None => None,
            },
        }
    }
}

// ----------------------------------------------------------------------
// A post

/// `urls` with one more at the end, unless it is there already.
pub open spec fn add_url(urls: Seq<Seq<char>>, url: Option<Seq<char>>) -> Seq<Seq<char>> {
    match url {
        Some(url) => if urls.contains(url) {
            urls
        } else {
            urls.push(url)
        },
        None => urls,
    }
}

/// `urls` with those of the media items.
pub open spec fn add_media_urls(
    urls: Seq<Seq<char>>,
    media: Seq<MediaView>,
    quality: VideoQuality,
) -> Seq<Seq<char>>
    decreases media.len(),
{
    if media.len() == 0 {
        urls
    } else {
        add_url(
            add_media_urls(urls, media.drop_last(), quality),
            selected_url(media.last(), quality),
        )
    }
}

/// `urls` with those of a post: its own videos first, then those of the quoted
/// post and of the reposted post, each with what it quotes and reposts.
pub open spec fn add_post_urls(
    urls: Seq<Seq<char>>,
    post: PostView,
    quality: VideoQuality,
) -> Seq<Seq<char>>
    decreases post,
{
    let own = add_media_urls(urls, post.media, quality);
    let with_quoted = match post.quoted_post {
        Some(quoted) => add_post_urls(own, *quoted, quality),
        None => own,
    };
    match post.reposted_post {
        Some(reposted) => add_post_urls(with_quoted, *reposted, quality),
        None => with_quoted,
    }
}

/// The video URLs of a post.
pub open spec fn post_urls(post: PostView, quality: VideoQuality) -> Seq<Seq<char>> {
    add_post_urls(Seq::empty(), post, quality)
}

fn collect_media_urls(urls: &mut Vec<String>, media: &Vec<Media>, quality: VideoQuality)
    ensures
        final(urls).deep_view() == add_media_urls(old(urls).deep_view(), media.deep_view(), quality),
{
    let ghost model = media.deep_view();
    let ghost start = urls.deep_view();
    let mut i: usize = 0;
    while i < media.len()
        invariant
            i <= media@.len(),
            model == media.deep_view(),
            model.len() == media@.len(),
            urls.deep_view() == add_media_urls(start, model.take(i as int), quality),
        decreases media.len() - i,
    {
        assert(model.take(i + 1).drop_last() == model.take(i as int));
        assert(model[i as int] == media@[i as int].deep_view());
        if let Some(url) = media[i].video_url_with_quality(quality) {
            if !text::list_contains(urls, url) {
                let ghost before = urls.deep_view();
                urls.push(url.to_owned());
                assert(urls.deep_view() == before.push(url@));
            }
        }
        i = i + 1;
    }
    assert(model.take(i as int) == model);
}

impl Post {
    /// Return one directly downloadable URL for every video/GIF of this post
    /// and of the posts that it quotes and reposts, without repetition.
    pub fn video_urls(&self) -> (out: Vec<String>)
        ensures
            out.deep_view() == post_urls(self.deep_view(), VideoQuality::Best),
    {
        self.video_urls_with_quality(VideoQuality::Best)
    }

    /// The same for a given quality, which holds for all the videos.
    pub fn video_urls_with_quality(&self, quality: VideoQuality) -> (out: Vec<String>)
        ensures
            out.deep_view() == post_urls(self.deep_view(), quality),
    {
        let mut urls: Vec<String> = Vec::new();
        assert(urls.deep_view() == Seq::<Seq<char>>::empty());
        self.collect_video_urls(&mut urls, quality);
        urls
    }

    fn collect_video_urls(&self, urls: &mut Vec<String>, quality: VideoQuality)
        ensures
            final(urls).deep_view() == add_post_urls(
                old(urls).deep_view(),
                self.deep_view(),
                quality,
            ),
        decreases self,
    {
        collect_media_urls(urls, &self.media, quality);
        if let Some(quoted) = &self.quoted_post {
            quoted.collect_video_urls(urls, quality);
        }
        if let Some(reposted) = &self.reposted_post {
            reposted.collect_video_urls(urls, quality);
        }
    }

    /// One URL for every video/GIF among this post's own media, without repetition.
    pub fn own_video_urls(&self, quality: VideoQuality) -> (out: Vec<String>)
        ensures
            out.deep_view() == add_media_urls(Seq::empty(), self.media.deep_view(), quality),
    {
        let mut urls: Vec<String> = Vec::new();
        assert(urls.deep_view() == Seq::<Seq<char>>::empty());
        collect_media_urls(&mut urls, &self.media, quality);
        urls
    }
}

// ----------------------------------------------------------------------
// Laws

/// What is handed out for a media item is a video, and an MP4: one of its MP4
/// variants, or its own URL where that names an MP4. A thumbnail never is.
pub proof fn law_selected_url_is_an_mp4(media: MediaView, quality: VideoQuality)
    ensures
        selected_url(media, quality) matches Some(url) ==> {
            &&& is_video_type(media.media_type)
            &&& (exists|i: int|
                0 <= i < media.variants.len() && is_mp4(#[trigger] media.variants[i])
                    && media.variants[i].url == url) || (media.url == Some(url) && mentions(
                url,
                ".mp4"@,
            ))
        },
{
    law_search_finds_the_best(media.variants, Preference::HighestRate);
    law_search_finds_the_best(media.variants, Preference::LowestRate);
    law_search_finds_the_best(media.variants, Preference::Smallest);
    if let VideoQuality::Height(target) = quality {
        law_search_finds_the_best(media.variants, Preference::LargestWithin(target));
    }
    if let Some(variant) = selected_variant(media.variants, quality) {
        let i = choose|i: int| 0 <= i < media.variants.len() && media.variants[i] == variant;
        assert(is_mp4(media.variants[i]));
    }
}

/// The best quality has the greatest bit rate of all the MP4 variants, and the
/// worst the smallest; each is there as soon as there is an MP4 variant.
pub proof fn law_best_and_worst_by_bit_rate(variants: Seq<VariantView>, i: int)
    requires
        0 <= i < variants.len(),
        is_mp4(variants[i]),
    ensures
        selected_variant(variants, VideoQuality::Best) matches Some(best) && rate(best) >= rate(
            variants[i],
        ),
        selected_variant(variants, VideoQuality::Worst) matches Some(worst) && rate(worst) <= rate(
            variants[i],
        ),
{
    law_search_finds_the_best(variants, Preference::HighestRate);
    law_search_finds_the_best(variants, Preference::LowestRate);
    assert(eligible(Preference::HighestRate, variants[i]));
    assert(eligible(Preference::LowestRate, variants[i]));
}

/// A height selects the highest resolution that is not above it; where all the
/// known resolutions are above it, the smallest of them.
pub proof fn law_height_takes_the_nearest_below(
    variants: Seq<VariantView>,
    target: u32,
    i: int,
)
    requires
        0 <= i < variants.len(),
        is_mp4(variants[i]),
        resolution(variants[i].url) is Some,
    ensures
        selected_variant(variants, VideoQuality::Height(target)) matches Some(found) && {
            let edge = resolution(variants[i].url)->0;
            &&& resolution(found.url) is Some
            &&& edge <= target ==> edge <= resolution(found.url)->0 <= target
            &&& resolution(found.url)->0 > target ==> resolution(found.url)->0 <= edge
        },
{
    law_search_finds_the_best(variants, Preference::LargestWithin(target));
    law_search_finds_the_best(variants, Preference::Smallest);
    assert(eligible(Preference::Smallest, variants[i]));
    if resolution(variants[i].url)->0 <= target {
        assert(eligible(Preference::LargestWithin(target), variants[i]));
    }
}

/// Adding keeps what is there, at its place, and repeats nothing.
proof fn lemma_add_media_urls(urls: Seq<Seq<char>>, media: Seq<MediaView>, quality: VideoQuality)
    ensures
        urls.is_prefix_of(add_media_urls(urls, media, quality)),
        urls.no_duplicates() ==> add_media_urls(urls, media, quality).no_duplicates(),
        add_media_urls(urls, media, quality).len() <= urls.len() + media.len(),
        forall|i: int|
            0 <= i < media.len() ==> (selected_url(#[trigger] media[i], quality) matches Some(url)
                ==> add_media_urls(urls, media, quality).contains(url)),
    decreases media.len(),
{
    if media.len() > 0 {
        let shorter = media.drop_last();
        lemma_add_media_urls(urls, shorter, quality);
        let before = add_media_urls(urls, shorter, quality);
        let after = add_media_urls(urls, media, quality);
        assert(before.is_prefix_of(after));
        if let Some(url) = selected_url(media.last(), quality) {
            if !before.contains(url) {
                assert(after == before.push(url));
                assert(after[after.len() - 1] == url);
            }
        }
        assert forall|i: int| 0 <= i < media.len() implies (selected_url(
            #[trigger] media[i],
            quality,
        ) matches Some(url) ==> after.contains(url)) by {
            if let Some(url) = selected_url(media[i], quality) {
                if i < shorter.len() {
                    assert(shorter[i] == media[i]);
                    let k = choose|k: int| 0 <= k < before.len() && before[k] == url;
                    assert(after[k] == url);
                }
            }
        }
    }
}

/// Adding the URLs of a post keeps what is there, at its place, and repeats nothing.
pub proof fn law_adding_keeps_order_and_repeats_nothing(
    urls: Seq<Seq<char>>,
    post: PostView,
    quality: VideoQuality,
)
    ensures
        urls.is_prefix_of(add_post_urls(urls, post, quality)),
        urls.no_duplicates() ==> add_post_urls(urls, post, quality).no_duplicates(),
    decreases post,
{
    lemma_add_media_urls(urls, post.media, quality);
    let own = add_media_urls(urls, post.media, quality);
    let with_quoted = match post.quoted_post {
        Some(quoted) => add_post_urls(own, *quoted, quality),
        None => own,
    };
    if let Some(quoted) = post.quoted_post {
        law_adding_keeps_order_and_repeats_nothing(own, *quoted, quality);
    }
    if let Some(reposted) = post.reposted_post {
        law_adding_keeps_order_and_repeats_nothing(with_quoted, *reposted, quality);
    }
}

/// The URLs that are there before do not take away from those that are added.
proof fn lemma_members_from_any_start(
    urls: Seq<Seq<char>>,
    post: PostView,
    quality: VideoQuality,
    url: Seq<char>,
)
    requires
        post_urls(post, quality).contains(url),
    ensures
        add_post_urls(urls, post, quality).contains(url),
{
    lemma_members_of_sum(Seq::empty(), urls, post, quality, url);
}

/// A URL that appears from one start appears from any start that holds the first.
proof fn lemma_members_of_sum(
    less: Seq<Seq<char>>,
    more: Seq<Seq<char>>,
    post: PostView,
    quality: VideoQuality,
    url: Seq<char>,
)
    requires
        add_post_urls(less, post, quality).contains(url),
        forall|u: Seq<char>| less.contains(u) ==> more.contains(u),
    ensures
        add_post_urls(more, post, quality).contains(url),
    decreases post,
{
    let a = add_media_urls(less, post.media, quality);
    let b = add_media_urls(more, post.media, quality);
    assert forall|u: Seq<char>| a.contains(u) implies b.contains(u) by {
        lemma_media_members(less, more, post.media, quality, u);
    }
    let qa = match post.quoted_post {
        Some(quoted) => add_post_urls(a, *quoted, quality),
        None => a,
    };
    let qb = match post.quoted_post {
        Some(quoted) => add_post_urls(b, *quoted, quality),
        None => b,
    };
    assert forall|u: Seq<char>| qa.contains(u) implies qb.contains(u) by {
        if let Some(quoted) = post.quoted_post {
            lemma_members_of_sum(a, b, *quoted, quality, u);
        }
    }
    if let Some(reposted) = post.reposted_post {
        lemma_members_of_sum(qa, qb, *reposted, quality, url);
    }
}

proof fn lemma_media_members(
    less: Seq<Seq<char>>,
    more: Seq<Seq<char>>,
    media: Seq<MediaView>,
    quality: VideoQuality,
    url: Seq<char>,
)
    requires
        add_media_urls(less, media, quality).contains(url),
        forall|u: Seq<char>| less.contains(u) ==> more.contains(u),
    ensures
        add_media_urls(more, media, quality).contains(url),
    decreases media.len(),
{
    if media.len() > 0 {
        let shorter = media.drop_last();
        let a = add_media_urls(less, shorter, quality);
        let b = add_media_urls(more, shorter, quality);
        let after = add_media_urls(more, media, quality);
        if a.contains(url) {
            lemma_media_members(less, more, shorter, quality, url);
            let k = choose|k: int| 0 <= k < b.len() && b[k] == url;
            assert(after[k] == url);
        } else {
            let whole = add_media_urls(less, media, quality);
            let k = choose|k: int| 0 <= k < whole.len() && whole[k] == url;
            assert(selected_url(media.last(), quality) == Some(url)) by {
                if k < a.len() {
                    assert(a[k] == url);
                }
            }
            if !b.contains(url) {
                assert(after[after.len() - 1] == url);
            }
        }
    }
}

/// The video URLs of a post are all different. Those of its own media come
/// first, and those of the posts that it quotes and reposts are among them.
pub proof fn law_video_urls_of_a_post(post: PostView, quality: VideoQuality)
    ensures
        post_urls(post, quality).no_duplicates(),
        add_media_urls(Seq::empty(), post.media, quality).is_prefix_of(post_urls(post, quality)),
        forall|i: int|
            0 <= i < post.media.len() ==> (selected_url(
                #[trigger] post.media[i],
                quality,
            ) matches Some(url) ==> post_urls(post, quality).contains(url)),
        post.quoted_post matches Some(quoted) ==> forall|url: Seq<char>| #[trigger]
            post_urls(*quoted, quality).contains(url) ==> post_urls(post, quality).contains(url),
        post.reposted_post matches Some(reposted) ==> forall|url: Seq<char>| #[trigger]
            post_urls(*reposted, quality).contains(url) ==> post_urls(post, quality).contains(url),
{
    let none = Seq::<Seq<char>>::empty();
    law_adding_keeps_order_and_repeats_nothing(none, post, quality);
    lemma_add_media_urls(none, post.media, quality);
    let own = add_media_urls(none, post.media, quality);
    let all = post_urls(post, quality);
    let with_quoted = match post.quoted_post {
        Some(quoted) => add_post_urls(own, *quoted, quality),
        None => own,
    };
    if let Some(quoted) = post.quoted_post {
        law_adding_keeps_order_and_repeats_nothing(own, *quoted, quality);
    }
    if let Some(reposted) = post.reposted_post {
        law_adding_keeps_order_and_repeats_nothing(with_quoted, *reposted, quality);
    }
    assert(own.is_prefix_of(with_quoted) && with_quoted.is_prefix_of(all));
    assert forall|i: int| 0 <= i < post.media.len() implies (selected_url(
        #[trigger] post.media[i],
        quality,
    ) matches Some(url) ==> all.contains(url)) by {
        if let Some(url) = selected_url(post.media[i], quality) {
            let k = choose|k: int| 0 <= k < own.len() && own[k] == url;
            assert(all[k] == url);
        }
    }
    if let Some(quoted) = post.quoted_post {
        assert forall|url: Seq<char>| #[trigger]
            post_urls(*quoted, quality).contains(url) implies all.contains(url) by {
            lemma_members_from_any_start(own, *quoted, quality, url);
            let k = choose|k: int| 0 <= k < with_quoted.len() && with_quoted[k] == url;
            assert(all[k] == url);
        }
    }
    if let Some(reposted) = post.reposted_post {
        assert forall|url: Seq<char>| #[trigger]
            post_urls(*reposted, quality).contains(url) implies all.contains(url) by {
            lemma_members_from_any_start(with_quoted, *reposted, quality, url);
        }
    }
}

// ----------------------------------------------------------------------
// Picking by position

/// The videos that a one-based position asks for, each with its position; all
/// of them where no position is given.
pub open spec fn selected_videos(urls: Seq<Seq<char>>, requested: Option<usize>) -> Result<
    Seq<(usize, Seq<char>)>,
    ErrorView,
> {
    match requested {
        Some(index) => if index == 0 {
            Err(
                plain_error(
                    ErrorKind::InvalidInput,
                    "video 从 1 开始计数，例如 --video 1。"@,
                ),
            )
        } else if index > urls.len() {
            Err(plain_error(ErrorKind::InvalidInput, out_of_range("--video "@, index, urls.len())))
        } else {
            Ok(seq![(index, urls[index - 1])])
        },
        None => Ok(Seq::new(urls.len(), |i: int| ((i + 1) as usize, urls[i]))),
    }
}

/// What is said of a position past the last video.
pub open spec fn out_of_range(name: Seq<char>, index: usize, total: nat) -> Seq<char> {
    name + text::decimal(index as nat) + " 超出范围；这条推文共有 "@ + text::decimal(total)
        + " 个视频。"@
}

/// Writes `out_of_range`.
pub fn out_of_range_text(name: &str, index: usize, total: usize) -> (out: String)
    ensures
        out@ == out_of_range(name@, index, total as nat),
{
    let index = text::number_text(index as u64);
    let total = text::number_text(total as u64);
    text::cat5(
        name,
        index.as_str(),
        " 超出范围；这条推文共有 ",
        total.as_str(),
        " 个视频。",
    )
}

/// The model of a list of numbered URLs.
pub open spec fn numbered(list: Seq<(usize, &str)>) -> Seq<(usize, Seq<char>)> {
    Seq::new(list.len(), |i: int| (list[i].0, list[i].1@))
}

/// Selects one video by its one-based position, or all of them.
pub fn select_videos(urls: &[String], requested: Option<usize>) -> (out: Result<
    Vec<(usize, &str)>,
    XReadError,
>)
    ensures
        match out {
            Ok(list) => selected_videos(urls.deep_view(), requested) == Ok::<
                Seq<(usize, Seq<char>)>,
                ErrorView,
            >(numbered(list@)),
            Err(error) => selected_videos(urls.deep_view(), requested) == Err::<
                Seq<(usize, Seq<char>)>,
                ErrorView,
            >(error.deep_view()),
        },
{
    let ghost model = urls.deep_view();
    if let Some(index) = requested {
        if index == 0 {
            return Err(
                XReadError::invalid_input("video 从 1 开始计数，例如 --video 1。"),
            );
        }
        if index > urls.len() {
            let message = out_of_range_text("--video ", index, urls.len());
            return Err(XReadError::invalid_input(message.as_str()));
        }
        let mut out: Vec<(usize, &str)> = Vec::new();
        assert(model[index - 1] == urls@[index - 1]@);
        out.push((index, urls[index - 1].as_str()));
        assert(numbered(out@) == seq![(index, model[index - 1])]);
        return Ok(out);
    }
    let mut out: Vec<(usize, &str)> = Vec::new();
    let total: usize = urls.len();
    let mut i: usize = 0;
    while i < total
        invariant
            i <= total == urls@.len(),
            model == urls.deep_view(),
            model.len() == urls@.len(),
            out@.len() == i,
            forall|j: int|
                0 <= j < i ==> (#[trigger] out@[j]).0 == j + 1 && out@[j].1@ == model[j],
        decreases total - i,
    {
        assert(model[i as int] == urls@[i as int]@);
        out.push((i + 1, urls[i].as_str()));
        i = i + 1;
    }
    assert(numbered(out@) == Seq::new(model.len(), |i: int| ((i + 1) as usize, model[i])));
    Ok(out)
}

/// The URL that a one-based position asks for; all of them where no position is given.
pub open spec fn selected_urls(
    urls: Seq<Seq<char>>,
    requested: Option<usize>,
    from_one: Seq<char>,
    name: Seq<char>,
) -> Result<Seq<Seq<char>>, ErrorView> {
    match requested {
        Some(index) => if index == 0 {
            Err(plain_error(ErrorKind::InvalidInput, from_one))
        } else if index > urls.len() {
            Err(plain_error(ErrorKind::InvalidInput, out_of_range(name, index, urls.len())))
        } else {
            Ok(seq![urls[index - 1]])
        },
        None => Ok(urls),
    }
}

/// Selects one URL by its one-based position, or all of them. `from_one` is
/// the message for position zero, and `name` what the position is called.
pub fn select_urls(
    urls: Vec<String>,
    requested: Option<usize>,
    from_one: &str,
    name: &str,
) -> (out: Result<Vec<String>, XReadError>)
    ensures
        result_model(out) == selected_urls(urls.deep_view(), requested, from_one@, name@),
{
    match requested {
        None => Ok(urls),
        Some(index) => {
            if index == 0 {
                return Err(XReadError::invalid_input(from_one));
            }
            if index > urls.len() {
                let message = out_of_range_text(name, index, urls.len());
                return Err(XReadError::invalid_input(message.as_str()));
            }
            let mut out: Vec<String> = Vec::new();
            assert(urls.deep_view()[index - 1] == urls@[index - 1]@);
            out.push(urls[index - 1].clone());
            assert(out.deep_view() == seq![urls.deep_view()[index - 1]]);
            Ok(out)
        },
    }
}

/// One line for each URL, as a Markdown link with its position.
pub open spec fn markdown_list(urls: Seq<Seq<char>>, requested: Option<usize>) -> Seq<Seq<char>> {
    Seq::new(
        urls.len(),
        |i: int|
            "- [Video "@ + text::decimal(
                match requested {
                    Some(index) => index as nat,
                    None => (i + 1) as nat,
                },
            ) + "]("@ + urls[i] + ")"@,
    )
}

/// The URLs as a Markdown list.
pub fn markdown_urls(urls: &Vec<String>, requested: Option<usize>) -> (out: String)
    ensures
        out@ == text::join(markdown_list(urls.deep_view(), requested), "\n"@),
{
    let ghost model = urls.deep_view();
    let mut list: Vec<String> = Vec::new();
    let total: usize = urls.len();
    let mut i: usize = 0;
    while i < total
        invariant
            i <= total == urls@.len(),
            model == urls.deep_view(),
            model.len() == urls@.len(),
            list.deep_view() == markdown_list(model, requested).take(i as int),
        decreases total - i,
    {
        assert(model[i as int] == urls@[i as int]@);
        let number = text::number_text(
            match requested {
                Some(index) => index as u64,
                None => (i + 1) as u64,
            },
        );
        let line = text::cat5("- [Video ", number.as_str(), "](", urls[i].as_str(), ")");
        let ghost before = list.deep_view();
        list.push(line);
        assert(list.deep_view() == before.push(line@));
        assert(markdown_list(model, requested).take(i + 1) == markdown_list(model, requested).take(
            i as int,
        ).push(markdown_list(model, requested)[i as int]));
        i = i + 1;
    }
    assert(markdown_list(model, requested).take(i as int) == markdown_list(model, requested));
    text::join_strings(list.as_slice(), "\n")
}

/// Whether an encoding says that it is an MP4: its content type holds `mp4`, or
/// its URL holds `.mp4`, in small or capital letters.
pub open spec fn says_mp4(variant: VariantView) -> bool {
    ||| variant.content_type matches Some(kind) && (exists|at: int|
        0 <= at && at + 3 <= kind.len() && #[trigger] text::lower(kind[at]) == 'm' && text::lower(
            kind[at + 1],
        ) == 'p' && kind[at + 2] == '4')
    ||| exists|at: int|
        0 <= at && at + 4 <= variant.url.len() && #[trigger] variant.url[at] == '.' && text::lower(
            variant.url[at + 1],
        ) == 'm' && text::lower(variant.url[at + 2]) == 'p' && variant.url[at + 3] == '4'
}

pub proof fn lemma_says_mp4(variant: VariantView)
    ensures
        is_mp4(variant) <==> says_mp4(variant),
{
    reveal_strlit("mp4");
    reveal_strlit(".mp4");
    assert("mp4"@.len() == 3 && "mp4"@[0] == 'm' && "mp4"@[1] == 'p' && "mp4"@[2] == '4');
    assert(".mp4"@.len() == 4 && ".mp4"@[0] == '.' && ".mp4"@[1] == 'm' && ".mp4"@[2] == 'p'
        && ".mp4"@[3] == '4');
    let url = text::lower_case(variant.url);
    if mentions(variant.url, ".mp4"@) {
        let at = choose|at: int| text::occurs_at(url, ".mp4"@, at);
        let part = url.subrange(at, at + 4);
        assert(part[0] == url[at] && part[1] == url[at + 1] && part[2] == url[at + 2] && part[3]
            == url[at + 3]);
        assert(variant.url[at] == '.');
    }
    if exists|at: int|
        0 <= at && at + 4 <= variant.url.len() && #[trigger] variant.url[at] == '.' && text::lower(
            variant.url[at + 1],
        ) == 'm' && text::lower(variant.url[at + 2]) == 'p' && variant.url[at + 3] == '4' {
        let at = choose|at: int|
            0 <= at && at + 4 <= variant.url.len() && #[trigger] variant.url[at] == '.'
                && text::lower(variant.url[at + 1]) == 'm' && text::lower(variant.url[at + 2])
                == 'p' && variant.url[at + 3] == '4';
        assert(url.subrange(at, at + 4) == ".mp4"@);
        assert(text::occurs_at(url, ".mp4"@, at));
    }
    if let Some(kind) = variant.content_type {
        let low = text::lower_case(kind);
        if mentions(kind, "mp4"@) {
            let at = choose|at: int| text::occurs_at(low, "mp4"@, at);
            let part = low.subrange(at, at + 3);
            assert(part[0] == low[at] && part[1] == low[at + 1] && part[2] == low[at + 2]);
            assert(text::lower(kind[at]) == 'm');
        }
        if exists|at: int|
            0 <= at && at + 3 <= kind.len() && #[trigger] text::lower(kind[at]) == 'm'
                && text::lower(kind[at + 1]) == 'p' && kind[at + 2] == '4' {
            let at = choose|at: int|
                0 <= at && at + 3 <= kind.len() && #[trigger] text::lower(kind[at]) == 'm'
                    && text::lower(kind[at + 1]) == 'p' && kind[at + 2] == '4';
            assert(low.subrange(at, at + 3) == "mp4"@);
            assert(text::occurs_at(low, "mp4"@, at));
        }
    }
}

/// What is selected for a video with encodings is an encoding that says it is
/// an MP4, and where there is one, one is selected. A playlist never is.
pub proof fn law_only_mp4_is_selected(media: MediaView, quality: VideoQuality)
    ensures
        selected_url(media, quality) matches Some(url) ==> (exists|i: int|
            0 <= i < media.variants.len() && says_mp4(#[trigger] media.variants[i])
                && media.variants[i].url == url) || media.url == Some(url),
        (forall|i: int| 0 <= i < media.variants.len() ==> !says_mp4(#[trigger] media.variants[i]))
            && media.url is None ==> selected_url(media, quality) is None,
        forall|i: int|
            0 <= i < media.variants.len() && says_mp4(#[trigger] media.variants[i]) && (
            media.media_type == Some("video"@) || media.media_type == Some("gif"@)) ==> (
            selected_url(media, quality) matches Some(url) && exists|j: int|
                0 <= j < media.variants.len() && says_mp4(#[trigger] media.variants[j])
                    && media.variants[j].url == url),
        media.media_type is None || media.media_type == Some("photo"@) ==> selected_url(
            media,
            quality,
        ) is None,
{
    reveal_strlit("photo");
    reveal_strlit("video");
    reveal_strlit("gif");
    assert("photo"@.len() == 5 && "video"@.len() == 5 && "gif"@.len() == 3 && "photo"@[0] == 'p'
        && "video"@[0] == 'v');
    let variants = media.variants;
    assert forall|i: int| 0 <= i < variants.len() implies says_mp4(#[trigger] variants[i])
        == is_mp4(variants[i]) by {
        lemma_says_mp4(variants[i]);
    }
    law_search_finds_the_best(variants, Preference::HighestRate);
    law_search_finds_the_best(variants, Preference::LowestRate);
    law_search_finds_the_best(variants, Preference::Smallest);
    if let VideoQuality::Height(target) = quality {
        law_search_finds_the_best(variants, Preference::LargestWithin(target));
    }
    if let Some(found) = selected_variant(variants, quality) {
        let at = choose|at: int| 0 <= at < variants.len() && variants[at] == found;
        assert(is_mp4(found));
        assert(says_mp4(variants[at]));
    }
    assert forall|i: int|
        0 <= i < variants.len() && says_mp4(#[trigger] variants[i]) implies selected_variant(
        variants,
        quality,
    ) is Some by {
        assert(is_mp4(variants[i]));
        assert(eligible(Preference::HighestRate, variants[i]));
        assert(eligible(Preference::LowestRate, variants[i]));
    }
}

/// Of the MP4 encodings with a known bit rate, the best quality takes one with
/// the greatest and the worst one with the smallest.
pub proof fn law_bit_rates_decide(media: MediaView, at: int, bits: u64)
    requires
        0 <= at < media.variants.len(),
        says_mp4(media.variants[at]),
        media.variants[at].bit_rate == Some(bits),
        forall|i: int|
            0 <= i < media.variants.len() ==> (#[trigger] media.variants[i]).bit_rate is Some,
        media.media_type == Some("video"@) || media.media_type == Some("gif"@),
    ensures
        exists|i: int|
            0 <= i < media.variants.len() && says_mp4(#[trigger] media.variants[i]) && selected_url(
                media,
                VideoQuality::Best,
            ) == Some(media.variants[i].url) && media.variants[i].bit_rate->0 >= bits,
        exists|i: int|
            0 <= i < media.variants.len() && says_mp4(#[trigger] media.variants[i]) && selected_url(
                media,
                VideoQuality::Worst,
            ) == Some(media.variants[i].url) && media.variants[i].bit_rate->0 <= bits,
{
    let variants = media.variants;
    lemma_says_mp4(variants[at]);
    law_best_and_worst_by_bit_rate(variants, at);
    law_search_finds_the_best(variants, Preference::HighestRate);
    law_search_finds_the_best(variants, Preference::LowestRate);
    let best = selected_variant(variants, VideoQuality::Best)->0;
    let worst = selected_variant(variants, VideoQuality::Worst)->0;
    let i = choose|i: int| 0 <= i < variants.len() && variants[i] == best;
    let j = choose|j: int| 0 <= j < variants.len() && variants[j] == worst;
    lemma_says_mp4(variants[i]);
    lemma_says_mp4(variants[j]);
    assert(variants[i].bit_rate is Some && variants[j].bit_rate is Some);
}

/// A path segment of two numbers around an `x` names the smaller of them.
pub proof fn law_segments_name_the_shorter_edge(width: u32, height: u32)
    ensures
        segment_resolution(
            text::decimal(width as nat) + seq!['x'] + text::decimal(height as nat),
        ) == Some(
            if width < height {
                width as nat
            } else {
                height as nat
            },
        ),
{
    let front = text::decimal(width as nat);
    let back = text::decimal(height as nat);
    let segment = front + seq!['x'] + back;
    text::law_decimal_round_trip(width as nat);
    text::law_decimal_round_trip(height as nat);
    let at = front.len() as int;
    lemma_first_x(segment, at, 0);
    assert(segment.take(at) == front);
    assert(segment.skip(at + 1) == back);
    assert(text::is_digit(front[0]) && text::is_digit(back[0]));
}

proof fn lemma_first_x(segment: Seq<char>, at: int, from: int)
    requires
        0 <= from <= at < segment.len(),
        segment[at] == 'x',
        forall|i: int| 0 <= i < at ==> #[trigger] segment[i] != 'x',
    ensures
        text::find_from(segment, seq!['x'], from) == Some(at),
    decreases at - from,
{
    let x = seq!['x'];
    if from == at {
        assert(segment.subrange(at, at + 1) == x);
    } else {
        assert(segment.subrange(from, from + 1)[0] == segment[from]);
        assert(x[0] == 'x');
        lemma_first_x(segment, at, from + 1);
    }
}

/// A position counts the videos from one: it selects that video and no other,
/// and a position that no video has is an error about the input. Without a
/// position all are selected, each with its own.
pub proof fn law_positions_count_from_one(urls: Seq<Seq<char>>, index: usize)
    ensures
        1 <= index <= urls.len() ==> selected_videos(urls, Some(index)) == Ok::<
            Seq<(usize, Seq<char>)>,
            ErrorView,
        >(seq![(index, urls[index - 1])]),
        index == 0 || index > urls.len() ==> (selected_videos(urls, Some(index)) matches Err(error)
            && error.kind == ErrorKind::InvalidInput),
        selected_videos(urls, None) matches Ok(all) && all.len() == urls.len() && (forall|i: int|
            0 <= i < urls.len() && i < usize::MAX ==> (#[trigger] all[i]).0 == i + 1 && all[i].1
                == urls[i]),
        forall|from_one: Seq<char>, name: Seq<char>|
            {
                let one = #[trigger] selected_urls(urls, Some(index), from_one, name);
                &&& 1 <= index <= urls.len() ==> one == Ok::<Seq<Seq<char>>, ErrorView>(
                    seq![urls[index - 1]],
                )
                &&& index == 0 || index > urls.len() ==> (one matches Err(error) && error.kind
                    == ErrorKind::InvalidInput)
                &&& selected_urls(urls, None, from_one, name) == Ok::<Seq<Seq<char>>, ErrorView>(
                    urls,
                )
            },
{
}

/// Without a wish the best quality is meant: what is returned then has no lower
/// bit rate than any other MP4 of the item.
pub proof fn law_the_best_is_the_default(media: &Media, out: Option<&str>, at: int, bits: u64)
    requires
        call_ensures(Media::video_url, (media,), out),
        0 <= at < media.deep_view().variants.len(),
        says_mp4(media.deep_view().variants[at]),
        media.deep_view().variants[at].bit_rate == Some(bits),
        forall|i: int|
            0 <= i < media.deep_view().variants.len() ==> (
            #[trigger] media.deep_view().variants[i]).bit_rate is Some,
        media.deep_view().media_type == Some("video"@),
    ensures
        exists|i: int|
            0 <= i < media.deep_view().variants.len() && says_mp4(
                #[trigger] media.deep_view().variants[i],
            ) && out.deep_view() == Some(media.deep_view().variants[i].url)
                && media.deep_view().variants[i].bit_rate->0 >= bits,
{
    law_bit_rates_decide(media.deep_view(), at, bits);
}

/// Of the MP4s of one resolution within the height the one with the highest bit
/// rate is taken, and where no MP4 has a resolution, the one with the highest of
/// all.
pub proof fn law_bit_rates_decide_between_equals(
    variants: Seq<VariantView>,
    target: u32,
    at: int,
    bits: u64,
)
    requires
        0 <= at < variants.len(),
        says_mp4(variants[at]),
        variants[at].bit_rate == Some(bits),
        forall|i: int| 0 <= i < variants.len() ==> (#[trigger] variants[i]).bit_rate is Some,
    ensures
        selected_variant(variants, VideoQuality::Height(target)) matches Some(found) && {
            &&& resolution(variants[at].url) matches Some(edge) ==> (edge <= target && resolution(
                found.url,
            ) == Some(edge) ==> (found.bit_rate matches Some(rate) && rate >= bits))
            &&& (forall|i: int|
                0 <= i < variants.len() ==> resolution((#[trigger] variants[i]).url) is None) ==> (
            found.bit_rate matches Some(rate) && rate >= bits)
        },
{
    lemma_says_mp4(variants[at]);
    law_search_finds_the_best(variants, Preference::LargestWithin(target));
    law_search_finds_the_best(variants, Preference::Smallest);
    law_search_finds_the_best(variants, Preference::HighestRate);
    assert(eligible(Preference::HighestRate, variants[at]));
    let found = selected_variant(variants, VideoQuality::Height(target))->0;
    let i = choose|i: int| 0 <= i < variants.len() && variants[i] == found;
    assert(variants[i].bit_rate is Some);
    if resolution(variants[at].url) is Some && resolution(variants[at].url)->0 <= target {
        assert(eligible(Preference::LargestWithin(target), variants[at]));
    }
}

} // verus!
