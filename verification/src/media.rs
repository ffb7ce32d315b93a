//! Media items out of JSON documents.

use vstd::prelude::*;

use crate::double;
use crate::json;
use crate::json::Json;
use crate::json::JsonView;
use crate::model::Media;
use crate::model::MediaVariant;
use crate::model::MediaView;
use crate::model::VariantView;
use crate::text;
use crate::video;

verus! {

/// The member `second` of the member `first`.
pub open spec fn inner(value: JsonView, first: Seq<char>, second: Seq<char>) -> Option<JsonView> {
    json::member_in(json::member(value, first), second)
}

/// The member `second` of the member `first`.
pub fn get_inner<'a>(value: &'a Json, first: &str, second: &str) -> (out: Option<&'a Json>)
    ensures
        json::seen(out) == inner(value@, first@, second@),
{
    json::get_in(value.get(first), second)
}

/// `first`, and `second` where there is no first.
pub fn either_text<'a>(first: Option<&'a str>, second: Option<&'a str>) -> (out: Option<&'a str>)
    ensures
        out.deep_view() == json::or(first.deep_view(), second.deep_view()),
{
    match first {
        Some(_) => first,
        None => second,
    }
}

/// An owned text, where there is one.
pub fn owned(value: Option<&str>) -> (out: Option<String>)
    ensures
        out.deep_view() == value.deep_view(),
{
    match value {
        Some(value) => Some(value.to_owned()),
        None => None,
    }
}

// ----------------------------------------------------------------------
// Variants

/// One encoding of a video; none where it has no URL. Where a document spells
/// its content type under several names, `first` comes before `second`.
pub open spec fn variant_in(variant: JsonView, first: Seq<char>, second: Seq<char>) -> Option<
    VariantView,
> {
    match json::text_in(json::member(variant, "url"@)) {
        Some(url) => Some(
            VariantView {
                bit_rate: json::number_in(
                    json::or(json::member(variant, "bitrate"@), json::member(variant, "bit_rate"@)),
                ),
                content_type: json::string_in(
                    json::or(
                        json::or(json::member(variant, first), json::member(variant, second)),
                        json::member(variant, "container"@),
                    ),
                ),
                url,
            },
        ),
        None => None,
    }
}

/// The encodings of a video.
pub open spec fn variants_in(variants: Seq<JsonView>, first: Seq<char>, second: Seq<char>) -> Seq<
    VariantView,
>
    decreases variants.len(),
{
    if variants.len() == 0 {
        Seq::empty()
    } else {
        let before = variants_in(variants.drop_last(), first, second);
        match variant_in(variants.last(), first, second) {
            Some(variant) => before.push(variant),
            None => before,
        }
    }
}

fn read_variant(variant: &Json, first: &str, second: &str) -> (out: Option<MediaVariant>)
    ensures
        out.deep_view() == variant_in(variant@, first@, second@),
{
    match json::text_of(variant.get("url")) {
        Some(url) => Some(
            MediaVariant {
                bit_rate: json::number_of(
                    json::either(variant.get("bitrate"), variant.get("bit_rate")),
                ),
                content_type: json::string_of_value(
                    json::either(
                        json::either(variant.get(first), variant.get(second)),
                        variant.get("container"),
                    ),
                ),
                url: url.to_owned(),
            },
        ),
        None => None,
    }
}

fn read_variants(variants: &[Json], first: &str, second: &str) -> (out: Vec<MediaVariant>)
    ensures
        out.deep_view() == variants_in(json::views(variants@), first@, second@),
{
    let ghost model = json::views(variants@);
    let mut out: Vec<MediaVariant> = Vec::new();
    assert(out.deep_view() == Seq::<VariantView>::empty());
    let mut i: usize = 0;
    while i < variants.len()
        invariant
            i <= variants@.len(),
            model == json::views(variants@),
            out.deep_view() == variants_in(model.take(i as int), first@, second@),
        decreases variants.len() - i,
    {
        assert(model.take(i + 1).drop_last() == model.take(i as int));
        assert(model[i as int] == variants@[i as int]@);
        let ghost before = out.deep_view();
        if let Some(variant) = read_variant(&variants[i], first, second) {
            let ghost added = variant.deep_view();
            out.push(variant);
            assert(out.deep_view() == before.push(added));
        }
        i = i + 1;
    }
    assert(model.take(i as int) == model);
    out
}

// ----------------------------------------------------------------------
// The media of a post

/// The documents of the encodings of a media item.
pub open spec fn formats_in(item: JsonView) -> Seq<JsonView> {
    let formats = json::member(item, "formats"@);
    if json::is_array(formats) {
        json::items_in(formats)
    } else {
        json::items_in(json::member(item, "variants"@))
    }
}

/// The URL of a mosaic of several images.
pub open spec fn mosaic_in(item: JsonView) -> Option<Seq<char>> {
    json::text_in(json::or(inner(item, "formats"@, "jpeg"@), inner(item, "formats"@, "webp"@)))
}

/// How long a media item is, in milliseconds.
pub open spec fn duration_in(item: JsonView) -> Option<u64> {
    json::or(
        json::number_in(json::member(item, "duration_ms"@)),
        match json::double_in(json::member(item, "duration"@)) {
            Some(seconds) => Some(double::unsigned_millis_of(seconds)),
            None => None,
        },
    )
}

/// A media item of a post.
pub open spec fn media_item(item: JsonView) -> MediaView {
    MediaView {
        alt_text: json::string_in(
            json::or(json::member(item, "altText"@), json::member(item, "alt_text"@)),
        ),
        duration_ms: duration_in(item),
        height: json::number_in(json::member(item, "height"@)),
        preview_image_url: json::string_in(
            json::or(json::member(item, "thumbnailUrl"@), json::member(item, "thumbnail_url"@)),
        ),
        media_type: json::string_in(json::member(item, "type"@)),
        url: json::or(
            json::or(
                json::or(json::text_in(json::member(item, "url"@)), mosaic_in(item)),
                json::text_in(json::member(item, "thumbnailUrl"@)),
            ),
            json::text_in(json::member(item, "thumbnail_url"@)),
        ),
        variants: variants_in(formats_in(item), "contentType"@, "content_type"@),
        width: json::number_in(json::member(item, "width"@)),
    }
}

/// The media items of a post.
pub open spec fn media_items(media: Option<JsonView>) -> Seq<MediaView> {
    json::items_in(json::member_in(media, "all"@)).map_values(|item: JsonView| media_item(item))
}

fn read_duration(item: &Json) -> (out: Option<u64>)
    ensures
        out == duration_in(item@),
{
    match json::number_of(item.get("duration_ms")) {
        Some(duration) => Some(duration),
        None => match json::double_of(item.get("duration")) {
            Some(seconds) => Some(double::unsigned_millis(seconds)),
            None => None,
        },
    }
}

fn read_formats(item: &Json) -> (out: Vec<MediaVariant>)
    ensures
        out.deep_view() == variants_in(formats_in(item@), "contentType"@, "content_type"@),
{
    let formats = item.get("formats");
    let variants = if json::array(formats) {
        json::items_of(formats)
    } else {
        json::items_of(item.get("variants"))
    };
    read_variants(variants, "contentType", "content_type")
}

fn read_media_item(item: &Json) -> (out: Media)
    ensures
        out.deep_view() == media_item(item@),
{
    let mosaic = json::text_of(
        json::either(get_inner(item, "formats", "jpeg"), get_inner(item, "formats", "webp")),
    );
    let url = either_text(
        either_text(
            either_text(json::text_of(item.get("url")), mosaic),
            json::text_of(item.get("thumbnailUrl")),
        ),
        json::text_of(item.get("thumbnail_url")),
    );
    Media {
        alt_text: json::string_of_value(json::either(item.get("altText"), item.get("alt_text"))),
        duration_ms: read_duration(item),
        height: json::number_of(item.get("height")),
        preview_image_url: json::string_of_value(
            json::either(item.get("thumbnailUrl"), item.get("thumbnail_url")),
        ),
        media_type: json::string_of_value(item.get("type")),
        url: owned(url),
        variants: read_formats(item),
        width: json::number_of(item.get("width")),
    }
}

/// The media items of a post, in order.
pub fn normalize_community_media(value: Option<&Json>) -> (out: Vec<Media>)
    ensures
        out.deep_view() == media_items(json::seen(value)),
{
    let items = json::items_of(json::get_in(value, "all"));
    let ghost model = json::views(items@);
    let ghost wanted = media_items(json::seen(value));
    let mut out: Vec<Media> = Vec::new();
    let mut i: usize = 0;
    while i < items.len()
        invariant
            i <= items@.len(),
            model == json::views(items@),
            wanted == model.map_values(|item: JsonView| media_item(item)),
            out.deep_view() == wanted.take(i as int),
        decreases items.len() - i,
    {
        let ghost before = out.deep_view();
        assert(model[i as int] == items@[i as int]@);
        let item = read_media_item(&items[i]);
        let ghost added = item.deep_view();
        assert(added == wanted[i as int]);
        out.push(item);
        assert(out.deep_view() == before.push(added));
        i = i + 1;
    }
    assert(wanted.take(i as int) == wanted);
    out
}

// ----------------------------------------------------------------------
// The media of an article

/// The URL of the cover of an article.
pub open spec fn cover_url_in(cover: Option<JsonView>) -> Option<Seq<char>> {
    match cover {
        Some(cover) => json::or(info_url_in(cover), json::text_in(json::member(cover, "url"@))),
        None => None,
    }
}

/// The URL that the description of an image gives.
pub open spec fn info_url_in(value: JsonView) -> Option<Seq<char>> {
    json::or(
        json::or(
            json::text_in(inner(value, "media_info"@, "original_img_url"@)),
            json::text_in(inner(value, "media_info"@, "media_url_https"@)),
        ),
        json::text_in(inner(value, "media_info"@, "media_url"@)),
    )
}

/// The URL of a media item of an article.
pub open spec fn source_url_in(value: JsonView) -> Option<Seq<char>> {
    json::or(
        json::or(
            json::or(info_url_in(value), json::text_in(json::member(value, "media_url_https"@))),
            json::text_in(json::member(value, "media_url"@)),
        ),
        json::text_in(json::member(value, "url"@)),
    )
}

fn find_info_url(value: &Json) -> (out: Option<&str>)
    ensures
        out.deep_view() == info_url_in(value@),
{
    either_text(
        either_text(
            json::text_of(get_inner(value, "media_info", "original_img_url")),
            json::text_of(get_inner(value, "media_info", "media_url_https")),
        ),
        json::text_of(get_inner(value, "media_info", "media_url")),
    )
}

/// Finds the URL of the cover of an article.
pub fn article_cover_url(value: Option<&Json>) -> (out: Option<String>)
    ensures
        out.deep_view() == cover_url_in(json::seen(value)),
{
    match value {
        Some(cover) => owned(either_text(find_info_url(cover), json::text_of(cover.get("url")))),
        None => None,
    }
}

/// Finds the URL of a media item of an article.
pub fn article_media_url(value: &Json) -> (out: Option<String>)
    ensures
        out.deep_view() == source_url_in(value@),
{
    owned(
        either_text(
            either_text(
                either_text(find_info_url(value), json::text_of(value.get("media_url_https"))),
                json::text_of(value.get("media_url")),
            ),
            json::text_of(value.get("url")),
        ),
    )
}

/// The description of the video of a media item.
pub open spec fn video_info_in(value: JsonView) -> Option<JsonView> {
    json::or(json::member(value, "video_info"@), inner(value, "media_info"@, "video_info"@))
}

/// The encodings of the video of a media item.
pub open spec fn article_variants(value: JsonView) -> Seq<VariantView> {
    variants_in(
        json::items_in(json::member_in(video_info_in(value), "variants"@)),
        "content_type"@,
        "contentType"@,
    )
}

/// The type of a media item of an article; one that names none is a video
/// where it has encodings, and a photo otherwise.
pub open spec fn article_media_type(value: JsonView) -> Seq<char> {
    let raw = match json::text_in(json::member(value, "type"@)) {
        Some(raw) => raw,
        None => if article_variants(value).len() == 0 {
            "photo"@
        } else {
            "video"@
        },
    };
    if raw == "image"@ {
        "photo"@
    } else if raw == "animated_gif"@ {
        "gif"@
    } else {
        raw
    }
}

/// A size of a media item, under its own name or in the description of its image.
pub open spec fn size_in(value: JsonView, name: Seq<char>, original: Seq<char>) -> Option<u64> {
    json::number_in(
        json::or(
            json::member(value, name),
            json::or(inner(value, "media_info"@, original), inner(value, "media_info"@, name)),
        ),
    )
}

/// A media item of an article; none where there is neither a URL nor an encoding.
/// The URL of a video is its preview, unless it is an MP4 file.
pub open spec fn article_media_in(value: JsonView) -> Option<MediaView> {
    let source = source_url_in(value);
    let variants = article_variants(value);
    let media_type = article_media_type(value);
    let is_video = media_type == "video"@ || media_type == "gif"@;
    let direct = match source {
        Some(url) => video::mentions(url, ".mp4"@),
        None => false,
    };
    if source is None && variants.len() == 0 {
        None
    } else {
        Some(
            MediaView {
                alt_text: json::non_empty_string_in(
                    json::or(
                        json::or(
                            json::member(value, "alt_text"@),
                            json::member(value, "ext_alt_text"@),
                        ),
                        inner(value, "media_info"@, "alt_text"@),
                    ),
                ),
                duration_ms: json::number_in(
                    json::or(
                        json::or(
                            json::member(value, "duration_ms"@),
                            json::member(value, "duration_millis"@),
                        ),
                        json::member_in(video_info_in(value), "duration_millis"@),
                    ),
                ),
                height: size_in(value, "height"@, "original_img_height"@),
                preview_image_url: if is_video {
                    source
                } else {
                    None
                },
                media_type: Some(media_type),
                url: if is_video && !direct {
                    None
                } else {
                    source
                },
                variants,
                width: size_in(value, "width"@, "original_img_width"@),
            },
        )
    }
}

fn read_media_type(value: &Json, has_variants: bool) -> (out: String)
    requires
        has_variants == (article_variants(value@).len() > 0),
    ensures
        out@ == article_media_type(value@),
{
    let raw = match json::text_of(value.get("type")) {
        Some(raw) => raw,
        None => if has_variants {
            "video"
        } else {
            "photo"
        },
    };
    if text::same(raw, "image") {
        "photo".to_owned()
    } else if text::same(raw, "animated_gif") {
        "gif".to_owned()
    } else {
        raw.to_owned()
    }
}

fn read_size(value: &Json, name: &str, original: &str) -> (out: Option<u64>)
    ensures
        out == size_in(value@, name@, original@),
{
    json::number_of(
        json::either(
            value.get(name),
            json::either(
                get_inner(value, "media_info", original),
                get_inner(value, "media_info", name),
            ),
        ),
    )
}

/// Reads a media item of an article.
pub fn normalize_article_media(value: &Json) -> (out: Option<Media>)
    ensures
        out.deep_view() == article_media_in(value@),
{
    let source_url = article_media_url(value);
    let video_info = json::either(
        value.get("video_info"),
        get_inner(value, "media_info", "video_info"),
    );
    let variants = read_variants(
        json::items_of(json::get_in(video_info, "variants")),
        "content_type",
        "contentType",
    );
    assert(variants@.len() == variants.deep_view().len());
    let media_type = read_media_type(value, variants.len() > 0);
    if source_url.is_none() && variants.len() == 0 {
        return None;
    }
    let is_video = text::same(media_type.as_str(), "video") || text::same(
        media_type.as_str(),
        "gif",
    );
    let direct = match &source_url {
        Some(url) => video::text_mentions(url.as_str(), ".mp4"),
        None => false,
    };
    let alt_text = json::non_empty_string_of(
        json::either(
            json::either(value.get("alt_text"), value.get("ext_alt_text")),
            get_inner(value, "media_info", "alt_text"),
        ),
    );
    let duration_ms = json::number_of(
        json::either(
            json::either(value.get("duration_ms"), value.get("duration_millis")),
            json::get_in(video_info, "duration_millis"),
        ),
    );
    let preview_image_url = if is_video {
        source_url.clone()
    } else {
        None
    };
    Some(
        Media {
            alt_text,
            duration_ms,
            height: read_size(value, "height", "original_img_height"),
            preview_image_url,
            media_type: Some(media_type),
            url: if is_video && !direct {
                None
            } else {
                source_url
            },
            variants,
            width: read_size(value, "width", "original_img_width"),
        },
    )
}

// ----------------------------------------------------------------------
// The media of an article by their IDs

/// A media item of an article and the IDs that refer to it.
pub struct ArticleMediaEntry {
    pub ids: Vec<String>,
    pub media: Media,
}

/// The model of `ArticleMediaEntry`.
pub struct EntryView {
    pub ids: Seq<Seq<char>>,
    pub media: MediaView,
}

impl DeepView for ArticleMediaEntry {
    type V = EntryView;

    open spec fn deep_view(&self) -> EntryView {
        EntryView { ids: self.ids.deep_view(), media: self.media.deep_view() }
    }
}

/// The IDs of a media item.
pub open spec fn ids_in(value: JsonView) -> Seq<Seq<char>> {
    text::with_text(
        text::with_text(
            text::with_text(
                text::with_text(Seq::empty(), json::string_in(json::member(value, "id"@))),
                json::string_in(json::member(value, "id_str"@)),
            ),
            json::string_in(json::member(value, "media_id"@)),
        ),
        json::string_in(json::member(value, "media_key"@)),
    )
}

/// The media items of an article.
pub open spec fn entries_in(values: Seq<JsonView>) -> Seq<EntryView>
    decreases values.len(),
{
    if values.len() == 0 {
        Seq::empty()
    } else {
        let before = entries_in(values.drop_last());
        match article_media_in(values.last()) {
            Some(media) => before.push(EntryView { ids: ids_in(values.last()), media }),
            None => before,
        }
    }
}

/// The last media item with a given ID.
pub open spec fn media_named(entries: Seq<EntryView>, id: Seq<char>) -> Option<MediaView>
    decreases entries.len(),
{
    if entries.len() == 0 {
        None
    } else if entries.last().ids.contains(id) {
        Some(entries.last().media)
    } else {
        media_named(entries.drop_last(), id)
    }
}

fn read_ids(value: &Json) -> (out: Vec<String>)
    ensures
        out.deep_view() == ids_in(value@),
{
    let mut out: Vec<String> = Vec::new();
    assert(out.deep_view() == Seq::<Seq<char>>::empty());
    text::push_text(&mut out, json::string_of_value(value.get("id")));
    text::push_text(&mut out, json::string_of_value(value.get("id_str")));
    text::push_text(&mut out, json::string_of_value(value.get("media_id")));
    text::push_text(&mut out, json::string_of_value(value.get("media_key")));
    out
}

/// Reads the media items of an article, with their IDs.
pub fn normalize_article_media_entries(values: &[Json]) -> (out: Vec<ArticleMediaEntry>)
    ensures
        out.deep_view() == entries_in(json::views(values@)),
{
    let ghost model = json::views(values@);
    let mut out: Vec<ArticleMediaEntry> = Vec::new();
    assert(out.deep_view() == Seq::<EntryView>::empty());
    let mut i: usize = 0;
    while i < values.len()
        invariant
            i <= values@.len(),
            model == json::views(values@),
            out.deep_view() == entries_in(model.take(i as int)),
        decreases values.len() - i,
    {
        assert(model.take(i + 1).drop_last() == model.take(i as int));
        assert(model[i as int] == values@[i as int]@);
        let ghost before = out.deep_view();
        if let Some(media) = normalize_article_media(&values[i]) {
            let entry = ArticleMediaEntry { ids: read_ids(&values[i]), media };
            let ghost added = entry.deep_view();
            out.push(entry);
            assert(out.deep_view() == before.push(added));
        }
        i = i + 1;
    }
    assert(model.take(i as int) == model);
    out
}

/// Finds the last media item with a given ID.
pub fn find_media<'a>(entries: &'a Vec<ArticleMediaEntry>, id: &str) -> (out: Option<&'a Media>)
    ensures
        out.deep_view() == media_named(entries.deep_view(), id@),
{
    let ghost model = entries.deep_view();
    let mut i: usize = entries.len();
    assert(model.take(i as int) == model);
    while i > 0
        invariant
            i <= entries@.len(),
            model == entries.deep_view(),
            model.len() == entries@.len(),
            media_named(model, id@) == media_named(model.take(i as int), id@),
        decreases i,
    {
        i = i - 1;
        assert(model.take(i + 1).drop_last() == model.take(i as int));
        assert(model[i as int] == entries@[i as int].deep_view());
        if text::list_contains(&entries[i].ids, id) {
            return Some(&entries[i].media);
        }
    }
    None
}

} // verus!
