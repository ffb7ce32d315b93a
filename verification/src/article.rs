//! Articles: block documents, written as Markdown and as plain text.

use vstd::prelude::*;

use crate::bridge;
use crate::dates;
use crate::double;
use crate::spans;
use crate::spans::Entity;
use crate::spans::InlineView;
use crate::spans::RenderedInline;
use crate::json;
use crate::json::Json;
use crate::json::JsonView;
use crate::links;
use crate::media;
use crate::media::ArticleMediaEntry;
use crate::media::EntryView;
use crate::model::Article;
use crate::model::ArticleView;
use crate::model::Link;
use crate::model::LinkView;
use crate::model::Media;
use crate::model::MediaView;
use crate::model::VideoQuality;
use crate::styles;
use crate::text;
use crate::video;

verus! {

// ----------------------------------------------------------------------
// A draft

/// The paragraphs of an article so far.
pub struct Draft {
    pub markdown: Vec<String>,
    pub text: Vec<String>,
    pub links: Vec<Link>,
    pub embedded_post_ids: Vec<String>,
}

/// The model of `Draft`.
pub struct DraftView {
    pub markdown: Seq<Seq<char>>,
    pub text: Seq<Seq<char>>,
    pub links: Seq<LinkView>,
    pub embedded_post_ids: Seq<Seq<char>>,
}

impl DeepView for Draft {
    type V = DraftView;

    open spec fn deep_view(&self) -> DraftView {
        DraftView {
            markdown: self.markdown.deep_view(),
            text: self.text.deep_view(),
            links: self.links.deep_view(),
            embedded_post_ids: self.embedded_post_ids.deep_view(),
        }
    }
}

/// A draft without paragraphs.
pub open spec fn empty_draft() -> DraftView {
    DraftView {
        markdown: Seq::empty(),
        text: Seq::empty(),
        links: Seq::empty(),
        embedded_post_ids: Seq::empty(),
    }
}

/// `draft` with a paragraph more on each side where there is one.
pub open spec fn with_paragraph(
    draft: DraftView,
    markdown: Option<Seq<char>>,
    text: Option<Seq<char>>,
) -> DraftView {
    DraftView {
        markdown: text::with_text(draft.markdown, markdown),
        text: text::with_text(draft.text, text),
        ..draft
    }
}

impl Draft {
    /// A draft without paragraphs.
    pub fn new() -> (out: Self)
        ensures
            out.deep_view() == empty_draft(),
    {
        let out = Draft {
            markdown: Vec::new(),
            text: Vec::new(),
            links: Vec::new(),
            embedded_post_ids: Vec::new(),
        };
        assert(out.markdown.deep_view() == Seq::<Seq<char>>::empty());
        assert(out.text.deep_view() == Seq::<Seq<char>>::empty());
        assert(out.links.deep_view() == Seq::<LinkView>::empty());
        assert(out.embedded_post_ids.deep_view() == Seq::<Seq<char>>::empty());
        out
    }

    fn add_paragraph(&mut self, markdown: Option<String>, text: Option<String>)
        ensures
            final(self).deep_view() == with_paragraph(
                old(self).deep_view(),
                markdown.deep_view(),
                text.deep_view(),
            ),
    {
        text::push_text(&mut self.markdown, markdown);
        text::push_text(&mut self.text, text);
    }
}

// ----------------------------------------------------------------------
// Embedded posts and media

/// The Markdown of an embedded media item.
pub open spec fn media_markdown(media: MediaView) -> Option<Seq<char>> {
    if video::is_video_type(media.media_type) {
        video::selected_url(media, VideoQuality::Best)
    } else {
        match media.url {
            Some(url) => Some(
                "!["@ + (match media.alt_text {
                    Some(alt) => styles::escape_label(alt),
                    None => ""@,
                }) + "](<"@ + url + ">)"@,
            ),
            None => None,
        }
    }
}

/// The plain text of an embedded media item.
pub open spec fn media_text(media: MediaView) -> Option<Seq<char>> {
    if video::is_video_type(media.media_type) {
        video::selected_url(media, VideoQuality::Best)
    } else {
        media.url
    }
}

/// Writes an embedded media item as Markdown.
pub fn article_media_markdown(media: &Media) -> (out: Option<String>)
    ensures
        out.deep_view() == media_markdown(media.deep_view()),
{
    if video::video_type(&media.media_type) {
        return media::owned(media.video_url());
    }
    match &media.url {
        Some(url) => {
            let alt = match &media.alt_text {
                Some(alt) => styles::escape_markdown_label(alt.as_str()),
                None => "".to_owned(),
            };
            Some(text::cat5("![", alt.as_str(), "](<", url.as_str(), ">)"))
        },
        None => None,
    }
}

/// Writes an embedded media item as plain text.
pub fn article_media_text(media: &Media) -> (out: Option<String>)
    ensures
        out.deep_view() == media_text(media.deep_view()),
{
    if video::video_type(&media.media_type) {
        media::owned(media.video_url())
    } else {
        media.url.clone()
    }
}

/// `draft` with an embedded post, unless it is embedded already.
pub open spec fn embed_post(draft: DraftView, id: Seq<char>) -> DraftView {
    if draft.embedded_post_ids.contains(id) {
        draft
    } else {
        let url = "https://x.com/i/status/"@ + id;
        DraftView {
            embedded_post_ids: draft.embedded_post_ids.push(id),
            ..with_paragraph(draft, Some("<"@ + url + ">"@), Some(url))
        }
    }
}

/// `draft` with an embedded media item, where it is known.
pub open spec fn embed_media(draft: DraftView, media: Option<MediaView>) -> DraftView {
    match media {
        Some(media) => with_paragraph(draft, media_markdown(media), media_text(media)),
        None => draft,
    }
}

/// `draft` with the embedded media items of the given IDs.
pub open spec fn embed_all_media(
    draft: DraftView,
    ids: Seq<Seq<char>>,
    entries: Seq<EntryView>,
) -> DraftView
    decreases ids.len(),
{
    if ids.len() == 0 {
        draft
    } else {
        embed_media(
            embed_all_media(draft, ids.drop_last(), entries),
            media::media_named(entries, ids.last()),
        )
    }
}

/// The media ID that a document carries.
pub open spec fn media_id_in(value: JsonView) -> Option<Seq<char>> {
    json::string_in(
        json::or(json::member(value, "mediaId"@), json::member(value, "localMediaId"@)),
    )
}

/// The media IDs of a list of items.
pub open spec fn item_ids(items: Seq<JsonView>) -> Seq<Seq<char>>
    decreases items.len(),
{
    if items.len() == 0 {
        Seq::empty()
    } else {
        text::with_text(item_ids(items.drop_last()), media_id_in(items.last()))
    }
}

/// The media IDs that the data of an entity names: those of its items, and its
/// own unless it is among them.
pub open spec fn media_ids_in(data: JsonView) -> Seq<Seq<char>> {
    video::add_url(
        item_ids(json::items_in(json::member(data, "mediaItems"@))),
        media_id_in(data),
    )
}

/// `draft` with what an entity embeds.
pub open spec fn embed(
    draft: DraftView,
    entity: Option<JsonView>,
    entries: Seq<EntryView>,
) -> DraftView {
    let kind = json::text_in(json::member_in(entity, "type"@));
    let data = match json::member_in(entity, "data"@) {
        Some(data) => data,
        None => JsonView::Null,
    };
    if kind == Some("TWEET"@) {
        match json::string_in(json::member(data, "tweetId"@)) {
            Some(id) => embed_post(draft, id),
            None => draft,
        }
    } else if kind == Some("MEDIA"@) {
        embed_all_media(draft, media_ids_in(data), entries)
    } else {
        draft
    }
}

/// `draft` with what the entities of the ranges embed.
pub open spec fn embed_ranges(
    draft: DraftView,
    ranges: Seq<JsonView>,
    entities: Seq<(Seq<char>, JsonView)>,
    entries: Seq<EntryView>,
) -> DraftView
    decreases ranges.len(),
{
    if ranges.len() == 0 {
        draft
    } else {
        embed(
            embed_ranges(draft, ranges.drop_last(), entities, entries),
            spans::entity_of_range(ranges.last(), entities),
            entries,
        )
    }
}

fn read_media_id(value: &Json) -> (out: Option<String>)
    ensures
        out.deep_view() == media_id_in(value@),
{
    json::string_of_value(json::either(value.get("mediaId"), value.get("localMediaId")))
}

fn read_media_ids(data: &Json) -> (out: Vec<String>)
    ensures
        out.deep_view() == media_ids_in(data@),
{
    let items = json::items_of(data.get("mediaItems"));
    let ghost model = json::views(items@);
    let mut out: Vec<String> = Vec::new();
    assert(out.deep_view() == Seq::<Seq<char>>::empty());
    let mut i: usize = 0;
    while i < items.len()
        invariant
            i <= items@.len(),
            model == json::views(items@),
            out.deep_view() == item_ids(model.take(i as int)),
        decreases items.len() - i,
    {
        assert(model.take(i + 1).drop_last() == model.take(i as int));
        assert(model[i as int] == items@[i as int]@);
        text::push_text(&mut out, read_media_id(&items[i]));
        i = i + 1;
    }
    assert(model.take(i as int) == model);
    if let Some(id) = read_media_id(data) {
        if !text::list_contains(&out, id.as_str()) {
            let ghost before = out.deep_view();
            let ghost added = id@;
            out.push(id);
            assert(out.deep_view() == before.push(added));
        }
    }
    out
}

impl Draft {
    fn embed_post(&mut self, id: String)
        ensures
            final(self).deep_view() == embed_post(old(self).deep_view(), id@),
    {
        if !text::list_contains(&self.embedded_post_ids, id.as_str()) {
            let url = text::cat2("https://x.com/i/status/", id.as_str());
            let markdown = text::cat3("<", url.as_str(), ">");
            self.add_paragraph(Some(markdown), Some(url));
            let ghost before = self.embedded_post_ids.deep_view();
            let ghost added = id@;
            self.embedded_post_ids.push(id);
            assert(self.embedded_post_ids.deep_view() == before.push(added));
        }
    }

    fn embed_all_media(&mut self, ids: &Vec<String>, entries: &Vec<ArticleMediaEntry>)
        ensures
            final(self).deep_view() == embed_all_media(
                old(self).deep_view(),
                ids.deep_view(),
                entries.deep_view(),
            ),
    {
        let ghost start = self.deep_view();
        let ghost model = ids.deep_view();
        let mut i: usize = 0;
        while i < ids.len()
            invariant
                i <= ids@.len(),
                model == ids.deep_view(),
                model.len() == ids@.len(),
                self.deep_view() == embed_all_media(
                    start,
                    model.take(i as int),
                    entries.deep_view(),
                ),
            decreases ids.len() - i,
        {
            assert(model.take(i + 1).drop_last() == model.take(i as int));
            assert(model[i as int] == ids@[i as int]@);
            if let Some(media) = media::find_media(entries, ids[i].as_str()) {
                let markdown = article_media_markdown(media);
                let text = article_media_text(media);
                self.add_paragraph(markdown, text);
            }
            i = i + 1;
        }
        assert(model.take(i as int) == model);
    }

    /// Adds what an entity embeds.
    pub fn embed(&mut self, entity: Option<&Json>, entries: &Vec<ArticleMediaEntry>)
        ensures
            final(self).deep_view() == embed(
                old(self).deep_view(),
                json::seen(entity),
                entries.deep_view(),
            ),
    {
        let kind = json::get_in(entity, "type");
        let nothing = Json::Null;
        let data = match json::get_in(entity, "data") {
            Some(data) => data,
            None => &nothing,
        };
        if spans::is_text(kind, "TWEET") {
            if let Some(id) = json::string_of_value(data.get("tweetId")) {
                self.embed_post(id);
            }
        } else if spans::is_text(kind, "MEDIA") {
            let ids = read_media_ids(data);
            self.embed_all_media(&ids, entries);
        }
    }

    fn embed_ranges(
        &mut self,
        ranges: &[Json],
        entities: &Vec<Entity>,
        entries: &Vec<ArticleMediaEntry>,
    )
        ensures
            final(self).deep_view() == embed_ranges(
                old(self).deep_view(),
                json::views(ranges@),
                spans::entity_views(entities@),
                entries.deep_view(),
            ),
    {
        let ghost start = self.deep_view();
        let ghost model = json::views(ranges@);
        let ghost known = spans::entity_views(entities@);
        let mut i: usize = 0;
        while i < ranges.len()
            invariant
                i <= ranges@.len(),
                model == json::views(ranges@),
                known == spans::entity_views(entities@),
                self.deep_view() == embed_ranges(
                    start,
                    model.take(i as int),
                    known,
                    entries.deep_view(),
                ),
            decreases ranges.len() - i,
        {
            assert(model.take(i + 1).drop_last() == model.take(i as int));
            assert(model[i as int] == ranges@[i as int]@);
            self.embed(spans::entity_for_range(&ranges[i], entities), entries);
            i = i + 1;
        }
        assert(model.take(i as int) == model);
    }
}

// ----------------------------------------------------------------------
// Blocks

/// What a block is.
pub open spec fn block_kind(block: JsonView) -> Seq<char> {
    match json::text_in(json::member(block, "type"@)) {
        Some(kind) => kind,
        None => "unstyled"@,
    }
}

/// The Markdown of a block of a kind, at a depth of a list, with a body.
pub open spec fn block_markdown(kind: Seq<char>, depth: usize, body: Seq<char>) -> Seq<char> {
    let indent = text::repeat("  "@, depth as nat);
    if kind == "header-one"@ {
        "# "@ + body
    } else if kind == "header-two"@ {
        "## "@ + body
    } else if kind == "header-three"@ {
        "### "@ + body
    } else if kind == "unordered-list-item"@ {
        indent + "- "@ + body
    } else if kind == "ordered-list-item"@ {
        indent + "1. "@ + body
    } else if kind == "blockquote"@ {
        "> "@ + body
    } else if kind == "code-block"@ {
        "    "@ + body
    } else {
        body
    }
}

/// `draft` with a block of text whose inline content is given. A styled block
/// without text is left out.
pub open spec fn add_text(draft: DraftView, block: JsonView, content: InlineView) -> DraftView {
    let kind = block_kind(block);
    let raw = spans::block_text(block);
    if raw.len() == 0 && kind != "unstyled"@ {
        draft
    } else {
        let depth = spans::offset_in(json::member(block, "depth"@));
        DraftView {
            links: links::add_links(draft.links, content.links),
            ..with_paragraph(
                draft,
                Some(block_markdown(kind, depth, content.markdown)),
                Some(raw),
            )
        }
    }
}

/// `draft` with a block.
pub open spec fn add_block(
    draft: DraftView,
    block: JsonView,
    entities: Seq<(Seq<char>, JsonView)>,
    entries: Seq<EntryView>,
) -> DraftView {
    if block_kind(block) == "atomic"@ {
        embed_ranges(
            draft,
            json::items_in(json::member(block, "entityRanges"@)),
            entities,
            entries,
        )
    } else {
        add_text(draft, block, spans::inline_content(block, entities))
    }
}

/// The draft that the blocks make.
pub open spec fn draft_of(
    blocks: Seq<JsonView>,
    entities: Seq<(Seq<char>, JsonView)>,
    entries: Seq<EntryView>,
) -> DraftView
    decreases blocks.len(),
{
    if blocks.len() == 0 {
        empty_draft()
    } else {
        add_block(
            draft_of(blocks.drop_last(), entities, entries),
            blocks.last(),
            entities,
            entries,
        )
    }
}

fn kind_of_block(block: &Json) -> (out: &str)
    ensures
        out@ == block_kind(block@),
{
    match json::text_of(block.get("type")) {
        Some(kind) => kind,
        None => "unstyled",
    }
}

/// Writes a block of a kind, at a depth of a list, with a body.
pub fn write_block(kind: &str, depth: usize, body: &str) -> (out: String)
    ensures
        out@ == block_markdown(kind@, depth, body@),
{
    if text::same(kind, "header-one") {
        text::cat2("# ", body)
    } else if text::same(kind, "header-two") {
        text::cat2("## ", body)
    } else if text::same(kind, "header-three") {
        text::cat2("### ", body)
    } else if text::same(kind, "unordered-list-item") {
        text::cat3(text::repeated("  ", depth).as_str(), "- ", body)
    } else if text::same(kind, "ordered-list-item") {
        text::cat3(text::repeated("  ", depth).as_str(), "1. ", body)
    } else if text::same(kind, "blockquote") {
        text::cat2("> ", body)
    } else if text::same(kind, "code-block") {
        text::cat2("    ", body)
    } else {
        body.to_owned()
    }
}

impl Draft {
    /// Adds a block of text whose inline content is given.
    pub fn add_text(&mut self, block: &Json, content: &RenderedInline)
        ensures
            final(self).deep_view() == add_text(
                old(self).deep_view(),
                block@,
                content.deep_view(),
            ),
    {
        let kind = kind_of_block(block);
        let raw = spans::text_of_block(block);
        if raw.is_empty() && !text::same(kind, "unstyled") {
            return;
        }
        let depth: usize = spans::offset_of(block.get("depth"));
        let markdown = write_block(kind, depth, content.markdown.as_str());
        links::push_links(&mut self.links, &content.links);
        self.add_paragraph(Some(markdown), Some(raw.to_owned()));
    }

    fn add_block(
        &mut self,
        block: &Json,
        entities: &Vec<Entity>,
        entries: &Vec<ArticleMediaEntry>,
    )
        ensures
            final(self).deep_view() == add_block(
                old(self).deep_view(),
                block@,
                spans::entity_views(entities@),
                entries.deep_view(),
            ),
    {
        if text::same(kind_of_block(block), "atomic") {
            self.embed_ranges(json::items_of(block.get("entityRanges")), entities, entries);
        } else {
            let content = spans::render_article_inline(block, entities);
            self.add_text(block, &content);
        }
    }
}

/// The body of an article.
pub struct RenderedArticle {
    pub embedded_post_ids: Vec<String>,
    pub links: Vec<Link>,
    pub markdown: String,
    pub text: String,
}

/// The model of `RenderedArticle`.
pub struct RenderedView {
    pub embedded_post_ids: Seq<Seq<char>>,
    pub links: Seq<LinkView>,
    pub markdown: Seq<char>,
    pub text: Seq<char>,
}

impl DeepView for RenderedArticle {
    type V = RenderedView;

    open spec fn deep_view(&self) -> RenderedView {
        RenderedView {
            embedded_post_ids: self.embedded_post_ids.deep_view(),
            links: self.links.deep_view(),
            markdown: self.markdown@,
            text: self.text@,
        }
    }
}

/// The body that a draft makes: its paragraphs with one blank line between them.
pub open spec fn finished(draft: DraftView) -> RenderedView {
    RenderedView {
        embedded_post_ids: draft.embedded_post_ids,
        links: draft.links,
        markdown: text::collapse(text::join(draft.markdown, "\n\n"@)),
        text: text::collapse(text::join(draft.text, "\n\n"@)),
    }
}

impl Draft {
    /// Finishes the body.
    pub fn finish(self) -> (out: RenderedArticle)
        ensures
            out.deep_view() == finished(self.deep_view()),
    {
        let markdown = text::join_strings(self.markdown.as_slice(), "\n\n");
        let text = text::join_strings(self.text.as_slice(), "\n\n");
        RenderedArticle {
            embedded_post_ids: self.embedded_post_ids,
            links: self.links,
            markdown: text::collapse_blank_lines(markdown.as_str()),
            text: text::collapse_blank_lines(text.as_str()),
        }
    }
}

/// Writes the blocks of an article.
pub fn render_article_blocks(
    blocks: &[Json],
    entities: &Vec<Entity>,
    entries: &Vec<ArticleMediaEntry>,
) -> (out: RenderedArticle)
    ensures
        out.deep_view() == finished(
            draft_of(
                json::views(blocks@),
                spans::entity_views(entities@),
                entries.deep_view(),
            ),
        ),
{
    let ghost model = json::views(blocks@);
    let ghost known = spans::entity_views(entities@);
    let mut draft = Draft::new();
    let mut i: usize = 0;
    while i < blocks.len()
        invariant
            i <= blocks@.len(),
            model == json::views(blocks@),
            known == spans::entity_views(entities@),
            draft.deep_view() == draft_of(model.take(i as int), known, entries.deep_view()),
        decreases blocks.len() - i,
    {
        assert(model.take(i + 1).drop_last() == model.take(i as int));
        assert(model[i as int] == blocks@[i as int]@);
        draft.add_block(&blocks[i], entities, entries);
        i = i + 1;
    }
    assert(model.take(i as int) == model);
    draft.finish()
}

// ----------------------------------------------------------------------
// Links of the entities

/// The documents of the URLs among the entities.
pub open spec fn url_entities(entities: Option<JsonView>) -> Seq<JsonView> {
    json::items_in(json::member_in(entities, "urls"@))
}

/// The link of a URL entity, where it has one.
pub open spec fn entity_link(item: JsonView) -> Option<LinkView> {
    let href = json::text_in(
        json::or(
            json::or(json::member(item, "expanded_url"@), json::member(item, "unwound_url"@)),
            json::member(item, "url"@),
        ),
    );
    match href {
        Some(href) => Some(
            LinkView {
                href,
                text: match json::text_in(json::member(item, "display_url"@)) {
                    Some(text) => text,
                    None => href,
                },
            },
        ),
        None => None,
    }
}

/// The links of the URL entities.
pub open spec fn entity_links(items: Seq<JsonView>) -> Seq<LinkView>
    decreases items.len(),
{
    if items.len() == 0 {
        Seq::empty()
    } else {
        let before = entity_links(items.drop_last());
        match entity_link(items.last()) {
            Some(link) => before.push(link),
            None => before,
        }
    }
}

/// `value` with the short URL of every entity replaced by the long one, one
/// entity after the other.
pub open spec fn expand_entities(value: Seq<char>, items: Seq<JsonView>) -> Seq<char>
    decreases items.len(),
{
    if items.len() == 0 {
        value
    } else {
        let before = expand_entities(value, items.drop_last());
        let item = items.last();
        let source = json::text_in(json::member(item, "url"@));
        let replacement = json::text_in(
            json::or(json::member(item, "expanded_url"@), json::member(item, "unwound_url"@)),
        );
        match (source, replacement) {
            (Some(source), Some(replacement)) => text::replace(before, source, replacement),
            _ => before,
        }
    }
}

fn read_entity_link(item: &Json) -> (out: Option<Link>)
    ensures
        out.deep_view() == entity_link(item@),
{
    let href = json::text_of(
        json::either(
            json::either(item.get("expanded_url"), item.get("unwound_url")),
            item.get("url"),
        ),
    );
    match href {
        Some(href) => {
            let text = match json::text_of(item.get("display_url")) {
                Some(text) => text,
                None => href,
            };
            Some(Link { href: href.to_owned(), text: text.to_owned() })
        },
        None => None,
    }
}

/// The links of the URL entities.
pub fn normalize_entity_links(value: Option<&Json>) -> (out: Vec<Link>)
    ensures
        out.deep_view() == entity_links(url_entities(json::seen(value))),
{
    let items = json::items_of(json::get_in(value, "urls"));
    let ghost model = json::views(items@);
    let mut out: Vec<Link> = Vec::new();
    assert(out.deep_view() == Seq::<LinkView>::empty());
    let mut i: usize = 0;
    while i < items.len()
        invariant
            i <= items@.len(),
            model == json::views(items@),
            out.deep_view() == entity_links(model.take(i as int)),
        decreases items.len() - i,
    {
        assert(model.take(i + 1).drop_last() == model.take(i as int));
        assert(model[i as int] == items@[i as int]@);
        let ghost before = out.deep_view();
        if let Some(link) = read_entity_link(&items[i]) {
            let ghost added = link.deep_view();
            out.push(link);
            assert(out.deep_view() == before.push(added));
        }
        i = i + 1;
    }
    assert(model.take(i as int) == model);
    out
}

/// Replaces the short URL of every entity by the long one.
pub fn expand_text_with_entity_links(value: &str, entities: Option<&Json>) -> (out: String)
    ensures
        out@ == expand_entities(value@, url_entities(json::seen(entities))),
{
    let items = json::items_of(json::get_in(entities, "urls"));
    let ghost model = json::views(items@);
    let mut out = value.to_owned();
    let mut i: usize = 0;
    while i < items.len()
        invariant
            i <= items@.len(),
            model == json::views(items@),
            out@ == expand_entities(value@, model.take(i as int)),
        decreases items.len() - i,
    {
        assert(model.take(i + 1).drop_last() == model.take(i as int));
        assert(model[i as int] == items@[i as int]@);
        let item = &items[i];
        let source = json::text_of(item.get("url"));
        let replacement = json::text_of(
            json::either(item.get("expanded_url"), item.get("unwound_url")),
        );
        if let (Some(source), Some(replacement)) = (source, replacement) {
            out = text::replace_text(out.as_str(), source, replacement);
        }
        i = i + 1;
    }
    assert(model.take(i as int) == model);
    out
}

// ----------------------------------------------------------------------
// An article

/// The moment that a document names by a date, else by a number of seconds.
pub open spec fn moment_in(date: Option<JsonView>, seconds: Option<JsonView>) -> Option<Seq<char>> {
    json::or(
        match json::text_in(date) {
            Some(date) => dates::date_in(date),
            None => None,
        },
        match json::double_in(seconds) {
            Some(seconds) => bridge::iso_of_millis(double::millis_of(seconds)),
            None => None,
        },
    )
}

/// The text of an article whose body is empty.
pub open spec fn fallback_text(article: JsonView) -> Seq<char> {
    let fallback = json::or(
        json::or(
            json::non_empty_string_in(json::member(article, "plain_text"@)),
            json::non_empty_string_in(json::member(article, "text"@)),
        ),
        json::non_empty_string_in(json::member(article, "preview_text"@)),
    );
    match fallback {
        Some(fallback) => fallback,
        None => ""@,
    }
}

/// The media items of the entries.
pub open spec fn entry_media(entries: Seq<EntryView>) -> Seq<MediaView> {
    entries.map_values(|entry: EntryView| entry.media)
}

/// An article with the given body, media items and dates; none where it has no
/// title, no text and no ID.
pub open spec fn article_with(
    article: JsonView,
    rendered: RenderedView,
    entries: Seq<EntryView>,
    created_at: Option<Seq<char>>,
    modified_at: Option<Seq<char>>,
) -> Option<ArticleView> {
    let title = json::non_empty_string_in(json::member(article, "title"@));
    let id = json::string_in(
        json::or(json::member(article, "id"@), json::member(article, "rest_id"@)),
    );
    let items = url_entities(json::member(article, "entities"@));
    let text = if rendered.text.len() == 0 {
        expand_entities(fallback_text(article), items)
    } else {
        rendered.text
    };
    if title is None && text.len() == 0 && id is None {
        None
    } else {
        Some(
            ArticleView {
                cover_media_url: media::cover_url_in(json::member(article, "cover_media"@)),
                created_at,
                embedded_post_ids: rendered.embedded_post_ids,
                id,
                links: links::add_links(links::unique(rendered.links), entity_links(items)),
                markdown: if rendered.markdown.len() == 0 {
                    text
                } else {
                    rendered.markdown
                },
                media: entry_media(entries),
                modified_at,
                preview_text: json::non_empty_string_in(json::member(article, "preview_text"@)),
                text,
                title,
            },
        )
    }
}

/// An article.
pub open spec fn article_in(value: Option<JsonView>) -> Option<ArticleView> {
    match value {
        Some(article) => if json::is_object(value) {
            let content = json::or(
                json::member(article, "content"@),
                json::member(article, "content_state"@),
            );
            let entries = media::entries_in(
                json::items_in(json::member(article, "media_entities"@)),
            );
            article_with(
                article,
                finished(
                    draft_of(
                        json::items_in(json::member_in(content, "blocks"@)),
                        spans::entities_in(json::member_in(content, "entityMap"@)),
                        entries,
                    ),
                ),
                entries,
                moment_in(
                    json::member(article, "created_at"@),
                    media::inner(article, "metadata"@, "first_published_at_secs"@),
                ),
                moment_in(
                    json::member(article, "modified_at"@),
                    media::inner(article, "lifecycle_state"@, "modified_at_secs"@),
                ),
            )
        } else {
            None
        },
        None => None,
    }
}

/// Reads a moment from a date, else from a number of seconds.
pub fn read_moment(date: Option<&Json>, seconds: Option<&Json>) -> (out: Option<String>)
    ensures
        out.deep_view() == moment_in(json::seen(date), json::seen(seconds)),
{
    let named = match json::text_of(date) {
        Some(date) => dates::parse_date(date),
        None => None,
    };
    match named {
        Some(named) => Some(named),
        None => match json::double_of(seconds) {
            Some(seconds) => dates::timestamp_to_iso(double::millis(seconds)),
            None => None,
        },
    }
}

fn read_fallback(article: &Json) -> (out: String)
    ensures
        out@ == fallback_text(article@),
{
    match json::non_empty_string_of(article.get("plain_text")) {
        Some(fallback) => fallback,
        None => match json::non_empty_string_of(article.get("text")) {
            Some(fallback) => fallback,
            None => match json::non_empty_string_of(article.get("preview_text")) {
                Some(fallback) => fallback,
                None => "".to_owned(),
            },
        },
    }
}

fn copy_media(entries: &Vec<ArticleMediaEntry>) -> (out: Vec<Media>)
    ensures
        out.deep_view() == entry_media(entries.deep_view()),
{
    let ghost wanted = entry_media(entries.deep_view());
    let mut out: Vec<Media> = Vec::new();
    let mut i: usize = 0;
    while i < entries.len()
        invariant
            i <= entries@.len(),
            wanted == entry_media(entries.deep_view()),
            out.deep_view() == wanted.take(i as int),
        decreases entries.len() - i,
    {
        let ghost before = out.deep_view();
        assert(entries.deep_view()[i as int] == entries@[i as int].deep_view());
        out.push(entries[i].media.clone());
        assert(out.deep_view() == before.push(wanted[i as int]));
        i = i + 1;
    }
    assert(wanted.take(i as int) == wanted);
    out
}

/// Puts an article together from its document, its body, its media items and
/// its dates.
pub fn assemble_article(
    article: &Json,
    rendered: RenderedArticle,
    entries: &Vec<ArticleMediaEntry>,
    created_at: Option<String>,
    modified_at: Option<String>,
) -> (out: Option<Article>)
    ensures
        out.deep_view() == article_with(
            article@,
            rendered.deep_view(),
            entries.deep_view(),
            created_at.deep_view(),
            modified_at.deep_view(),
        ),
{
    let title = json::non_empty_string_of(article.get("title"));
    let id = json::string_of_value(json::either(article.get("id"), article.get("rest_id")));
    let body = if rendered.text.as_str().is_empty() {
        let fallback = read_fallback(article);
        expand_text_with_entity_links(fallback.as_str(), article.get("entities"))
    } else {
        rendered.text
    };
    if title.is_none() && body.as_str().is_empty() && id.is_none() {
        return None;
    }
    let more = normalize_entity_links(article.get("entities"));
    let mut all = links::unique_links(&rendered.links);
    links::push_links(&mut all, &more);
    let markdown = if rendered.markdown.as_str().is_empty() {
        body.clone()
    } else {
        rendered.markdown
    };
    Some(
        Article {
            cover_media_url: media::article_cover_url(article.get("cover_media")),
            created_at,
            embedded_post_ids: rendered.embedded_post_ids,
            id,
            links: all,
            markdown,
            media: copy_media(entries),
            modified_at,
            preview_text: json::non_empty_string_of(article.get("preview_text")),
            text: body,
            title,
        },
    )
}

/// Reads an article.
pub fn normalize_article(value: Option<&Json>) -> (out: Option<Article>)
    ensures
        out.deep_view() == article_in(json::seen(value)),
{
    if !json::object(value) {
        return None;
    }
    let article = match value {
        Some(article) => article,
        None => {
            return None;
        },
    };
    let content = json::either(article.get("content"), article.get("content_state"));
    let blocks = json::items_of(json::get_in(content, "blocks"));
    let entities = spans::normalize_entity_map(json::get_in(content, "entityMap"));
    let entries = media::normalize_article_media_entries(
        json::items_of(article.get("media_entities")),
    );
    let rendered = render_article_blocks(blocks, &entities, &entries);
    let created_at = read_moment(
        article.get("created_at"),
        media::get_inner(article, "metadata", "first_published_at_secs"),
    );
    let modified_at = read_moment(
        article.get("modified_at"),
        media::get_inner(article, "lifecycle_state", "modified_at_secs"),
    );
    assemble_article(article, rendered, &entries, created_at, modified_at)
}

// ----------------------------------------------------------------------
// Laws

/// No two links of an article go to the same place.
pub proof fn law_article_links_are_unique(value: Option<JsonView>)
    ensures
        article_in(value) matches Some(article) ==> links::are_unique(article.links),
{
    if let Some(article) = article_in(value) {
        let document = value->0;
        let content = json::or(
            json::member(document, "content"@),
            json::member(document, "content_state"@),
        );
        let entries = media::entries_in(json::items_in(json::member(document, "media_entities"@)));
        let rendered = finished(
            draft_of(
                json::items_in(json::member_in(content, "blocks"@)),
                spans::entities_in(json::member_in(content, "entityMap"@)),
                entries,
            ),
        );
        links::law_added_links_are_unique(Seq::empty(), rendered.links);
        links::law_added_links_are_unique(
            links::unique(rendered.links),
            entity_links(url_entities(json::member(document, "entities"@))),
        );
    }
}

proof fn lemma_media_embeds_no_post(
    draft: DraftView,
    ids: Seq<Seq<char>>,
    entries: Seq<EntryView>,
)
    ensures
        embed_all_media(draft, ids, entries).embedded_post_ids == draft.embedded_post_ids,
    decreases ids.len(),
{
    if ids.len() > 0 {
        lemma_media_embeds_no_post(draft, ids.drop_last(), entries);
    }
}

proof fn lemma_embedded_once(
    draft: DraftView,
    ranges: Seq<JsonView>,
    entities: Seq<(Seq<char>, JsonView)>,
    entries: Seq<EntryView>,
)
    requires
        draft.embedded_post_ids.no_duplicates(),
    ensures
        embed_ranges(draft, ranges, entities, entries).embedded_post_ids.no_duplicates(),
    decreases ranges.len(),
{
    if ranges.len() > 0 {
        lemma_embedded_once(draft, ranges.drop_last(), entities, entries);
        let before = embed_ranges(draft, ranges.drop_last(), entities, entries);
        let entity = spans::entity_of_range(ranges.last(), entities);
        let data = match json::member_in(entity, "data"@) {
            Some(data) => data,
            None => JsonView::Null,
        };
        lemma_media_embeds_no_post(before, media_ids_in(data), entries);
    }
}

/// A post is embedded in an article at most once.
pub proof fn law_posts_are_embedded_once(
    blocks: Seq<JsonView>,
    entities: Seq<(Seq<char>, JsonView)>,
    entries: Seq<EntryView>,
)
    ensures
        draft_of(blocks, entities, entries).embedded_post_ids.no_duplicates(),
    decreases blocks.len(),
{
    if blocks.len() > 0 {
        law_posts_are_embedded_once(blocks.drop_last(), entities, entries);
        lemma_embedded_once(
            draft_of(blocks.drop_last(), entities, entries),
            json::items_in(json::member(blocks.last(), "entityRanges"@)),
            entities,
            entries,
        );
    }
}

} // verus!
