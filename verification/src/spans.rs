//! The inline content of an article block: its links, placed by UTF-16 ranges,
//! and the Markdown of its text.

use vstd::prelude::*;
use vstd::string::StringExecFns;

use crate::bridge;
use crate::json;
use crate::json::Json;
use crate::json::JsonView;
use crate::links;
use crate::model::Link;
use crate::model::LinkView;
use crate::styles;
use crate::styles::InlineStyleRange;
use crate::text;
use crate::utf16;

verus! {

// ----------------------------------------------------------------------
// Entities

/// An entity of an article, under its key.
pub struct Entity<'a> {
    pub key: String,
    pub value: &'a Json,
}

/// The model of a list of entities.
pub open spec fn entity_views(entities: Seq<Entity>) -> Seq<(Seq<char>, JsonView)> {
    Seq::new(entities.len(), |i: int| (entities[i].key@, entities[i].value@))
}

/// The entities of a list of entries, each with a key and a value.
pub open spec fn entity_entries(entries: Seq<JsonView>) -> Seq<(Seq<char>, JsonView)>
    decreases entries.len(),
{
    if entries.len() == 0 {
        Seq::empty()
    } else {
        let before = entity_entries(entries.drop_last());
        let entry = entries.last();
        match (json::string_in(json::member(entry, "key"@)), json::member(entry, "value"@)) {
            (Some(key), Some(value)) => before.push((key, value)),
            _ => before,
        }
    }
}

/// The entities of an article: a list of entries, or an object by its members.
pub open spec fn entities_in(value: Option<JsonView>) -> Seq<(Seq<char>, JsonView)> {
    match value {
        Some(JsonView::Array(entries)) => entity_entries(entries),
        Some(JsonView::Object(members)) => members,
        _ => Seq::empty(),
    }
}

/// The last entity under a key.
pub open spec fn entity_named(entities: Seq<(Seq<char>, JsonView)>, key: Seq<char>) -> Option<
    JsonView,
>
    decreases entities.len(),
{
    if entities.len() == 0 {
        None
    } else if entities.last().0 == key {
        Some(entities.last().1)
    } else {
        entity_named(entities.drop_last(), key)
    }
}

/// The entity that a range names.
pub open spec fn entity_of_range(range: JsonView, entities: Seq<(Seq<char>, JsonView)>) -> Option<
    JsonView,
> {
    match json::string_in(json::member(range, "key"@)) {
        Some(key) => entity_named(entities, key),
        None => None,
    }
}

fn entity_list<'a>(entries: &'a [Json]) -> (out: Vec<Entity<'a>>)
    ensures
        entity_views(out@) == entity_entries(json::views(entries@)),
{
    let ghost model = json::views(entries@);
    let mut out: Vec<Entity<'a>> = Vec::new();
    assert(entity_views(out@) == Seq::<(Seq<char>, JsonView)>::empty());
    let mut i: usize = 0;
    while i < entries.len()
        invariant
            i <= entries@.len(),
            model == json::views(entries@),
            entity_views(out@) == entity_entries(model.take(i as int)),
        decreases entries.len() - i,
    {
        assert(model.take(i + 1).drop_last() == model.take(i as int));
        assert(model[i as int] == entries@[i as int]@);
        let ghost before = entity_views(out@);
        let entry = &entries[i];
        if let (Some(key), Some(value)) = (
            json::string_of_value(entry.get("key")),
            entry.get("value"),
        ) {
            let ghost added = (key@, value@);
            out.push(Entity { key, value });
            assert(entity_views(out@) == before.push(added));
        }
        i = i + 1;
    }
    assert(model.take(i as int) == model);
    out
}

/// The entities of an article.
pub fn normalize_entity_map<'a>(value: Option<&'a Json>) -> (out: Vec<Entity<'a>>)
    ensures
        entity_views(out@) == entities_in(json::seen(value)),
{
    match value {
        Some(Json::Array(entries)) => {
            assert(json::views(entries@) == json::seen(value)->0->Array_0);
            entity_list(entries.as_slice())
        },
        Some(Json::Object(members)) => {
            let ghost model = json::seen(value)->0->Object_0;
            let mut out: Vec<Entity<'a>> = Vec::new();
            let mut i: usize = 0;
            while i < members.len()
                invariant
                    i <= members@.len(),
                    model.len() == members@.len(),
                    forall|j: int|
                        0 <= j < members@.len() ==> #[trigger] model[j] == (
                            members@[j].name@,
                            members@[j].value@,
                        ),
                    entity_views(out@) == model.take(i as int),
                decreases members.len() - i,
            {
                let ghost before = entity_views(out@);
                out.push(Entity { key: members[i].name.clone(), value: &members[i].value });
                assert(entity_views(out@) == before.push(model[i as int]));
                i = i + 1;
            }
            out
        },
        _ => {
            let out: Vec<Entity<'a>> = Vec::new();
            assert(entity_views(out@) == Seq::<(Seq<char>, JsonView)>::empty());
            out
        },
    }
}

/// Finds the entity that a range names.
pub fn entity_for_range<'a>(range: &Json, entities: &Vec<Entity<'a>>) -> (out: Option<&'a Json>)
    ensures
        json::seen(out) == entity_of_range(range@, entity_views(entities@)),
{
    let key = match json::string_of_value(range.get("key")) {
        Some(key) => key,
        None => {
            return None;
        },
    };
    let ghost model = entity_views(entities@);
    let mut i: usize = entities.len();
    assert(model.take(i as int) == model);
    while i > 0
        invariant
            i <= entities@.len(),
            model == entity_views(entities@),
            json::string_in(json::member(range@, "key"@)) == Some(key@),
            entity_named(model, key@) == entity_named(model.take(i as int), key@),
        decreases i,
    {
        i = i - 1;
        assert(model.take(i + 1).drop_last() == model.take(i as int));
        assert(model[i as int] == (entities@[i as int].key@, entities@[i as int].value@));
        if text::same(entities[i].key.as_str(), key.as_str()) {
            return Some(entities[i].value);
        }
    }
    None
}

// ----------------------------------------------------------------------
// URLs

/// The pattern of a URL inside a text.
pub const URL_IN_TEXT: &'static str = "(?i)https?://[^\\s)>\\]]+";

/// The URLs inside a text.
pub open spec fn urls_in(value: Seq<char>) -> Seq<Seq<char>> {
    bridge::regex_matches(URL_IN_TEXT@, value)
}

/// Finds the URLs inside a text.
pub fn extract_urls(value: &str) -> (out: Vec<String>)
    ensures
        out.deep_view() == urls_in(value@),
{
    bridge::regex_find_all(URL_IN_TEXT, value)
}

/// The first of the texts.
pub open spec fn first_of(found: Seq<Seq<char>>) -> Option<Seq<char>> {
    if found.len() > 0 {
        Some(found[0])
    } else {
        None
    }
}

/// The first URL inside a document that is a text.
pub open spec fn url_in(value: Option<JsonView>) -> Option<Seq<char>> {
    match json::text_in(value) {
        Some(value) => first_of(urls_in(value)),
        None => None,
    }
}

/// Where the data of an entity leads to.
pub open spec fn href_in(data: JsonView) -> Option<Seq<char>> {
    json::or(
        json::or(
            json::or(url_in(json::member(data, "url"@)), url_in(json::member(data, "href"@))),
            url_in(json::member(data, "markdown"@)),
        ),
        url_in(json::member(data, "destinationUrl"@)),
    )
}

/// Where an entity leads to.
pub open spec fn href_of_entity(entity: Option<JsonView>) -> Option<Seq<char>> {
    match json::member_in(entity, "data"@) {
        Some(data) => href_in(data),
        None => None,
    }
}

fn find_url(value: Option<&Json>) -> (out: Option<String>)
    ensures
        out.deep_view() == url_in(json::seen(value)),
{
    match json::text_of(value) {
        Some(value) => {
            let found = extract_urls(value);
            assert(found@.len() == found.deep_view().len());
            if found.len() > 0 {
                assert(found.deep_view()[0] == found@[0]@);
                Some(found[0].clone())
            } else {
                None
            }
        },
        None => None,
    }
}

fn find_href(entity: Option<&Json>) -> (out: Option<String>)
    ensures
        out.deep_view() == href_of_entity(json::seen(entity)),
{
    let data = match json::get_in(entity, "data") {
        Some(data) => data,
        None => {
            return None;
        },
    };
    match find_url(data.get("url")) {
        Some(href) => Some(href),
        None => match find_url(data.get("href")) {
            Some(href) => Some(href),
            None => match find_url(data.get("markdown")) {
                Some(href) => Some(href),
                None => find_url(data.get("destinationUrl")),
            },
        },
    }
}

// ----------------------------------------------------------------------
// Links by their ranges

/// A link on the code units `start..end` of a text.
pub struct InlineLink {
    pub end: usize,
    pub href: String,
    pub start: usize,
    pub label: String,
}

/// The model of `InlineLink`.
pub struct InlineLinkView {
    pub end: usize,
    pub href: Seq<char>,
    pub start: usize,
    pub label: Seq<char>,
}

impl DeepView for InlineLink {
    type V = InlineLinkView;

    open spec fn deep_view(&self) -> InlineLinkView {
        InlineLinkView {
            end: self.end,
            href: self.href@,
            start: self.start,
            label: self.label@,
        }
    }
}

/// The number of a member; zero where there is none.
pub open spec fn offset_in(value: Option<JsonView>) -> usize {
    match json::unsigned_in(value) {
        Some(value) => value as usize,
        None => 0,
    }
}

/// Whether an entity is a link: it carries data, and embeds no post and no media.
pub open spec fn is_link(entity: Option<JsonView>) -> bool {
    let kind = json::text_in(json::member_in(entity, "type"@));
    &&& kind != Some("TWEET"@)
    &&& kind != Some("MEDIA"@)
    &&& json::member_in(entity, "data"@) is Some
}

/// The link that an entity puts on a range of `text`, where it leads to `href`.
pub open spec fn link_on(
    range: JsonView,
    entity: Option<JsonView>,
    text: Seq<char>,
    href: Option<Seq<char>>,
) -> Option<InlineLinkView> {
    let start = offset_in(json::member(range, "offset"@));
    let length = offset_in(json::member(range, "length"@));
    match (href, utf16::slice(text, start as int, length as int)) {
        (Some(href), Some(label)) => if is_link(entity) {
            Some(InlineLinkView { end: (start + length) as usize, href, start, label })
        } else {
            None
        },
        _ => None,
    }
}

pub fn offset_of(value: Option<&Json>) -> (out: usize)
    ensures
        out == offset_in(json::seen(value)),
{
    match json::unsigned_of(value) {
        Some(value) => value as usize,
        None => 0,
    }
}

/// Whether the document is there and is the given text.
pub fn is_text(value: Option<&Json>, wanted: &str) -> (out: bool)
    ensures
        out == (json::text_in(json::seen(value)) == Some(wanted@)),
{
    match json::text_of(value) {
        Some(value) => text::same(value, wanted),
        None => false,
    }
}

/// The link that an entity puts on a range of a text, where it leads to `href`.
pub fn link_of_entity(
    range: &Json,
    entity: Option<&Json>,
    text: &str,
    href: Option<String>,
) -> (out: Option<InlineLink>)
    ensures
        out.deep_view() == link_on(range@, json::seen(entity), text@, href.deep_view()),
{
    let kind = json::get_in(entity, "type");
    if is_text(kind, "TWEET") || is_text(kind, "MEDIA") || json::get_in(entity, "data").is_none() {
        return None;
    }
    let start: usize = offset_of(range.get("offset"));
    let length: usize = offset_of(range.get("length"));
    match (href, utf16::utf16_slice(text, start, length)) {
        (Some(href), Some(label)) => Some(InlineLink { end: start + length, href, start, label }),
        _ => None,
    }
}

/// The links that the ranges put on `text`.
pub open spec fn links_on(
    ranges: Seq<JsonView>,
    entities: Seq<(Seq<char>, JsonView)>,
    text: Seq<char>,
) -> Seq<InlineLinkView>
    decreases ranges.len(),
{
    if ranges.len() == 0 {
        Seq::empty()
    } else {
        let before = links_on(ranges.drop_last(), entities, text);
        let entity = entity_of_range(ranges.last(), entities);
        match link_on(ranges.last(), entity, text, href_of_entity(entity)) {
            Some(link) => before.push(link),
            None => before,
        }
    }
}

fn find_links(ranges: &[Json], entities: &Vec<Entity>, text: &str) -> (out: Vec<InlineLink>)
    ensures
        out.deep_view() == links_on(json::views(ranges@), entity_views(entities@), text@),
{
    let ghost model = json::views(ranges@);
    let ghost known = entity_views(entities@);
    let mut out: Vec<InlineLink> = Vec::new();
    assert(out.deep_view() == Seq::<InlineLinkView>::empty());
    let mut i: usize = 0;
    while i < ranges.len()
        invariant
            i <= ranges@.len(),
            model == json::views(ranges@),
            known == entity_views(entities@),
            out.deep_view() == links_on(model.take(i as int), known, text@),
        decreases ranges.len() - i,
    {
        assert(model.take(i + 1).drop_last() == model.take(i as int));
        assert(model[i as int] == ranges@[i as int]@);
        let ghost before = out.deep_view();
        let entity = entity_for_range(&ranges[i], entities);
        let href = find_href(entity);
        if let Some(link) = link_of_entity(&ranges[i], entity, text, href) {
            let ghost added = link.deep_view();
            out.push(link);
            assert(out.deep_view() == before.push(added));
        }
        i = i + 1;
    }
    assert(model.take(i as int) == model);
    out
}

/// `sorted` with one link more, behind those that start no later.
pub open spec fn insert_by_start(sorted: Seq<InlineLinkView>, link: InlineLinkView) -> Seq<
    InlineLinkView,
>
    decreases sorted.len(),
{
    if sorted.len() == 0 || sorted.last().start <= link.start {
        sorted.push(link)
    } else {
        insert_by_start(sorted.drop_last(), link).push(sorted.last())
    }
}

/// The links by their starts; those with one start stay in order.
pub open spec fn by_start(found: Seq<InlineLinkView>) -> Seq<InlineLinkView>
    decreases found.len(),
{
    if found.len() == 0 {
        Seq::empty()
    } else {
        insert_by_start(by_start(found.drop_last()), found.last())
    }
}

fn place_link(sorted: &mut Vec<InlineLink>, link: InlineLink)
    ensures
        final(sorted).deep_view() == insert_by_start(old(sorted).deep_view(), link.deep_view()),
{
    let ghost model = sorted.deep_view();
    let ghost added = link.deep_view();
    let mut at: usize = sorted.len();
    assert(model.take(at as int) == model);
    assert(model.skip(at as int) == Seq::<InlineLinkView>::empty());
    assert(insert_by_start(model, added) == insert_by_start(model.take(at as int), added)
        + model.skip(at as int));
    while at > 0 && sorted[at - 1].start > link.start
        invariant
            at <= sorted@.len(),
            model == sorted.deep_view(),
            added == link.deep_view(),
            insert_by_start(model, added) == insert_by_start(model.take(at as int), added)
                + model.skip(at as int),
        decreases at,
    {
        assert(model[at - 1] == sorted@[at - 1].deep_view());
        assert(model.take(at as int).drop_last() == model.take(at - 1));
        assert(insert_by_start(model.take(at as int), added) == insert_by_start(
            model.take(at - 1),
            added,
        ).push(model[at - 1]));
        assert(insert_by_start(model.take(at - 1), added).push(model[at - 1]) + model.skip(
            at as int,
        ) == insert_by_start(model.take(at - 1), added) + model.skip(at - 1));
        at = at - 1;
    }
    proof {
        if at > 0 {
            assert(model[at - 1] == sorted@[at - 1].deep_view());
            assert(model.take(at as int).last() == model[at - 1]);
        }
        assert(insert_by_start(model.take(at as int), added) == model.take(at as int).push(added));
    }
    sorted.insert(at, link);
    assert(sorted.deep_view() == model.take(at as int).push(added) + model.skip(at as int));
}

fn sort_links(found: Vec<InlineLink>) -> (out: Vec<InlineLink>)
    ensures
        out.deep_view() == by_start(found.deep_view()),
{
    let ghost model = found.deep_view();
    let mut out: Vec<InlineLink> = Vec::new();
    assert(out.deep_view() == Seq::<InlineLinkView>::empty());
    let mut i: usize = 0;
    while i < found.len()
        invariant
            i <= found@.len(),
            model == found.deep_view(),
            model.len() == found@.len(),
            out.deep_view() == by_start(model.take(i as int)),
        decreases found.len() - i,
    {
        assert(model.take(i + 1).drop_last() == model.take(i as int));
        assert(model[i as int] == found@[i as int].deep_view());
        let link = InlineLink {
            end: found[i].end,
            href: found[i].href.clone(),
            start: found[i].start,
            label: found[i].label.clone(),
        };
        assert(link.deep_view() == model[i as int]);
        place_link(&mut out, link);
        i = i + 1;
    }
    assert(model.take(i as int) == model);
    out
}

// ----------------------------------------------------------------------
// The inline content

/// The links and the Markdown of a block.
pub struct RenderedInline {
    pub links: Vec<Link>,
    pub markdown: String,
}

/// The model of `RenderedInline`.
pub struct InlineView {
    pub links: Seq<LinkView>,
    pub markdown: Seq<char>,
}

impl DeepView for RenderedInline {
    type V = InlineView;

    open spec fn deep_view(&self) -> InlineView {
        InlineView { links: self.links.deep_view(), markdown: self.markdown@ }
    }
}

/// The links of bare URLs.
pub open spec fn bare_links(urls: Seq<Seq<char>>) -> Seq<LinkView> {
    urls.map_values(|url: Seq<char>| LinkView { href: url, text: url })
}

/// The links that the ranges make.
pub open spec fn labelled_links(found: Seq<InlineLinkView>) -> Seq<LinkView> {
    found.map_values(|link: InlineLinkView| LinkView { href: link.href, text: link.label })
}

/// The Markdown of the text up to the end of the last of the links, and that
/// end. A link that begins before the end of the one before it stays plain
/// text.
pub open spec fn markdown_of_links(
    units: Seq<u16>,
    ranges: Seq<InlineStyleRange>,
    sorted: Seq<InlineLinkView>,
) -> (Seq<char>, int)
    decreases sorted.len(),
{
    if sorted.len() == 0 {
        (Seq::empty(), 0)
    } else {
        let (before, cursor) = markdown_of_links(units, ranges, sorted.drop_last());
        let link = sorted.last();
        if link.start < cursor {
            (before, cursor)
        } else {
            (
                before + styles::styled_text(units, ranges, cursor, link.start as int, false)
                    + "["@ + styles::styled_text(
                    units,
                    ranges,
                    link.start as int,
                    link.end as int,
                    true,
                ) + "](<"@ + link.href + ">)"@,
                link.end as int,
            )
        }
    }
}

/// The inline content of a block with the given text and styles, where `urls`
/// stand in the text and `found` are the links that the ranges make.
pub open spec fn inline_of(
    text: Seq<char>,
    ranges: Seq<InlineStyleRange>,
    urls: Seq<Seq<char>>,
    found: Seq<InlineLinkView>,
) -> InlineView {
    let units = utf16::encode(text);
    let (markdown, cursor) = markdown_of_links(units, ranges, by_start(found));
    InlineView {
        links: links::add_links(bare_links(urls), labelled_links(found)),
        markdown: markdown + styles::styled_text(units, ranges, cursor, units.len() as int, false),
    }
}

fn write_links(
    units: &[u16],
    ranges: &[InlineStyleRange],
    sorted: &Vec<InlineLink>,
) -> (out: (String, usize))
    ensures
        (out.0@, out.1 as int) == markdown_of_links(units@, ranges@, sorted.deep_view()),
{
    let ghost model = sorted.deep_view();
    let mut markdown = String::new();
    let mut cursor: usize = 0;
    let mut i: usize = 0;
    while i < sorted.len()
        invariant
            i <= sorted@.len(),
            model == sorted.deep_view(),
            model.len() == sorted@.len(),
            (markdown@, cursor as int) == markdown_of_links(units@, ranges@, model.take(i as int)),
        decreases sorted.len() - i,
    {
        assert(model.take(i + 1).drop_last() == model.take(i as int));
        assert(model[i as int] == sorted@[i as int].deep_view());
        let link = &sorted[i];
        if link.start >= cursor {
            let plain = styles::render_styled_utf16_range(units, cursor, link.start, ranges, false);
            let label = styles::render_styled_utf16_range(
                units,
                link.start,
                link.end,
                ranges,
                true,
            );
            markdown.append(plain.as_str());
            markdown.append("[");
            markdown.append(label.as_str());
            markdown.append("](<");
            markdown.append(link.href.as_str());
            markdown.append(">)");
            cursor = link.end;
        }
        i = i + 1;
    }
    assert(model.take(i as int) == model);
    (markdown, cursor)
}

fn list_links(urls: &Vec<String>, found: &Vec<InlineLink>) -> (out: Vec<Link>)
    ensures
        out.deep_view() == links::add_links(
            bare_links(urls.deep_view()),
            labelled_links(found.deep_view()),
        ),
{
    let mut out: Vec<Link> = Vec::new();
    let ghost bare = bare_links(urls.deep_view());
    let mut i: usize = 0;
    while i < urls.len()
        invariant
            i <= urls@.len(),
            bare == bare_links(urls.deep_view()),
            out.deep_view() == bare.take(i as int),
        decreases urls.len() - i,
    {
        let ghost before = out.deep_view();
        assert(urls.deep_view()[i as int] == urls@[i as int]@);
        let link = Link { href: urls[i].clone(), text: urls[i].clone() };
        let ghost added = link.deep_view();
        assert(added == bare[i as int]);
        out.push(link);
        assert(out.deep_view() == before.push(added));
        i = i + 1;
    }
    assert(bare.take(i as int) == bare);
    let ghost labelled = labelled_links(found.deep_view());
    let mut k: usize = 0;
    while k < found.len()
        invariant
            k <= found@.len(),
            labelled == labelled_links(found.deep_view()),
            out.deep_view() == links::add_links(bare, labelled.take(k as int)),
        decreases found.len() - k,
    {
        assert(labelled.take(k + 1).drop_last() == labelled.take(k as int));
        assert(found.deep_view()[k as int] == found@[k as int].deep_view());
        let link = Link { href: found[k].href.clone(), text: found[k].label.clone() };
        assert(link.deep_view() == labelled[k as int]);
        links::push_link(&mut out, link);
        k = k + 1;
    }
    assert(labelled.take(k as int) == labelled);
    out
}

/// Puts the links on a text and writes it as Markdown.
///
/// Overlapping links are invalid. Keeping the plain text is safer than nested
/// Markdown links.
pub fn render_inline(
    text: &str,
    ranges: &[InlineStyleRange],
    urls: &Vec<String>,
    found: Vec<InlineLink>,
) -> (out: RenderedInline)
    ensures
        out.deep_view() == inline_of(text@, ranges@, urls.deep_view(), found.deep_view()),
{
    let units = utf16::encode_text(text);
    let total: usize = units.len();
    let links = list_links(urls, &found);
    let sorted = sort_links(found);
    let (mut markdown, cursor) = write_links(units.as_slice(), ranges, &sorted);
    let rest = styles::render_styled_utf16_range(units.as_slice(), cursor, total, ranges, false);
    markdown.append(rest.as_str());
    RenderedInline { links, markdown }
}

/// The visible text of a block.
pub open spec fn block_text(block: JsonView) -> Seq<char> {
    match json::text_in(json::member(block, "text"@)) {
        Some(value) => text::trim_end(value),
        None => text::trim_end(""@),
    }
}

/// The visible text of a block.
pub fn text_of_block(block: &Json) -> (out: &str)
    ensures
        out@ == block_text(block@),
{
    match json::text_of(block.get("text")) {
        Some(value) => text::trim_end_text(value),
        None => text::trim_end_text(""),
    }
}

/// The inline content of a block of an article with the given entities.
pub open spec fn inline_content(block: JsonView, entities: Seq<(Seq<char>, JsonView)>) -> InlineView {
    let text = block_text(block);
    inline_of(
        text,
        styles::style_ranges_in(
            json::items_in(json::member(block, "inlineStyleRanges"@)),
            utf16::encode(text).len() as usize,
        ),
        urls_in(text),
        links_on(json::items_in(json::member(block, "entityRanges"@)), entities, text),
    )
}

/// Render the entity ranges of a block in place. Offsets are UTF-16 code units,
/// so the output is built from UTF-16 slices.
pub fn render_article_inline(block: &Json, entities: &Vec<Entity>) -> (out: RenderedInline)
    ensures
        out.deep_view() == inline_content(block@, entity_views(entities@)),
{
    let text = text_of_block(block);
    let length: usize = utf16::encode_text(text).len();
    let urls = extract_urls(text);
    let ranges = styles::article_inline_style_ranges(block, length);
    let found = find_links(json::items_of(block.get("entityRanges")), entities, text);
    render_inline(text, ranges.as_slice(), &urls, found)
}

// ----------------------------------------------------------------------
// Laws

proof fn lemma_insert_by_start(sorted: Seq<InlineLinkView>, link: InlineLinkView)
    requires
        forall|i: int, j: int|
            0 <= i < j < sorted.len() ==> (#[trigger] sorted[i]).start <= (
            #[trigger] sorted[j]).start,
    ensures
        ({
            let out = insert_by_start(sorted, link);
            &&& out.len() == sorted.len() + 1
            &&& out.to_multiset() == sorted.to_multiset().insert(link)
            &&& forall|i: int, j: int|
                0 <= i < j < out.len() ==> (#[trigger] out[i]).start <= (#[trigger] out[j]).start
            &&& forall|i: int|
                0 <= i < out.len() ==> (#[trigger] out[i]).start <= link.start || (sorted.len() > 0
                    && out[i].start <= sorted.last().start)
        }),
    decreases sorted.len(),
{
    broadcast use vstd::seq_lib::group_to_multiset_ensures;

    if sorted.len() > 0 && sorted.last().start > link.start {
        let rest = sorted.drop_last();
        lemma_insert_by_start(rest, link);
        assert(sorted == rest.push(sorted.last()));
        assert(insert_by_start(rest, link).push(sorted.last()).to_multiset()
            == insert_by_start(rest, link).to_multiset().insert(sorted.last()));
        assert(sorted.to_multiset().insert(link) == rest.to_multiset().insert(link).insert(
            sorted.last(),
        ));
        if rest.len() > 0 {
            assert(rest.last() == sorted[rest.len() - 1]);
        }
    }
}

/// The links are written in the order of their starts, and none is lost,
/// added or repeated by that.
pub proof fn law_links_are_in_order(found: Seq<InlineLinkView>)
    ensures
        by_start(found).to_multiset() == found.to_multiset(),
        forall|i: int, j: int|
            0 <= i < j < by_start(found).len() ==> (#[trigger] by_start(found)[i]).start <= (
            #[trigger] by_start(found)[j]).start,
    decreases found.len(),
{
    broadcast use vstd::seq_lib::group_to_multiset_ensures;

    if found.len() > 0 {
        law_links_are_in_order(found.drop_last());
        lemma_insert_by_start(by_start(found.drop_last()), found.last());
        assert(found == found.drop_last().push(found.last()));
    }
}

/// An entity leads to the first URL of its `url`, else of its `href`, else of its
/// Markdown, else of its destination.
pub proof fn law_entities_lead_to_their_urls(
    entity: JsonView,
    data: JsonView,
    written: Seq<char>,
    href: Seq<char>,
)
    requires
        json::member(entity, "data"@) == Some(data),
        urls_in(written).len() > 0,
        urls_in(written)[0] == href,
    ensures
        json::member(data, "url"@) == Some(JsonView::Text(written)) ==> href_of_entity(Some(entity))
            == Some(href),
        json::member(data, "url"@) is None && json::member(data, "href"@) == Some(
            JsonView::Text(written),
        ) ==> href_of_entity(Some(entity)) == Some(href),
        json::member(data, "url"@) is None && json::member(data, "href"@) is None && json::member(
            data,
            "markdown"@,
        ) == Some(JsonView::Text(written)) ==> href_of_entity(Some(entity)) == Some(href),
        json::member(data, "url"@) is None && json::member(data, "href"@) is None && json::member(
            data,
            "markdown"@,
        ) is None && json::member(data, "destinationUrl"@) == Some(JsonView::Text(written))
            ==> href_of_entity(Some(entity)) == Some(href),
{
}

/// Entities that embed a post or media are no links; others with data are.
pub proof fn law_embedded_things_are_no_links(entity: JsonView, kind: Seq<char>)
    requires
        json::member(entity, "type"@) == Some(JsonView::Text(kind)),
    ensures
        kind == "TWEET"@ || kind == "MEDIA"@ ==> !is_link(Some(entity)),
        kind == "LINK"@ ==> (is_link(Some(entity)) <==> json::member(entity, "data"@) is Some),
{
    reveal_strlit("LINK");
    reveal_strlit("TWEET");
    reveal_strlit("MEDIA");
    assert("LINK"@.len() == 4 && "TWEET"@.len() == 5 && "MEDIA"@.len() == 5);
}

/// A range finds its entity by its key, a text or a number, in a list of entries
/// as in an object; of two under one key the last counts.
pub proof fn law_ranges_find_their_entities(
    range: JsonView,
    entities: Seq<(Seq<char>, JsonView)>,
    key: Seq<char>,
    number: u64,
    at: int,
)
    requires
        0 <= at < entities.len(),
        entities[at].0 == key,
        forall|i: int| at < i < entities.len() ==> (#[trigger] entities[i]).0 != key,
    ensures
        json::member(range, "key"@) == Some(JsonView::Text(key)) ==> entity_of_range(range, entities)
            == Some(entities[at].1),
        key == text::decimal(number as nat) && (json::member(range, "key"@) matches Some(
            JsonView::Number(found),
        ) && found.unsigned == Some(number)) ==> entity_of_range(range, entities) == Some(
            entities[at].1,
        ),
        entities_in(Some(JsonView::Object(entities))) == entities,
    decreases entities.len(),
{
    if at < entities.len() - 1 {
        let rest = entities.drop_last();
        assert(entities.last() == entities[entities.len() - 1]);
        assert(entities.last().0 != key);
        assert(rest[at] == entities[at]);
        law_ranges_find_their_entities(range, rest, key, number, at);
    }
}

/// A link that begins before the end of the one in front of it stays plain text:
/// the Markdown is that of the links without it.
pub proof fn law_overlapping_links_stay_plain(
    units: Seq<u16>,
    ranges: Seq<InlineStyleRange>,
    sorted: Seq<InlineLinkView>,
    link: InlineLinkView,
)
    requires
        sorted.len() == 1,
        link.start < sorted[0].end,
    ensures
        markdown_of_links(units, ranges, sorted.push(link)) == markdown_of_links(
            units,
            ranges,
            sorted,
        ),
{
    assert(sorted.push(link).drop_last() == sorted);
    assert(sorted.drop_last() == Seq::<InlineLinkView>::empty());
    reveal_with_fuel(markdown_of_links, 3);
}

} // verus!
