//! Inline styles of an article, as Markdown markers around UTF-16 ranges.

use vstd::prelude::*;
use vstd::string::StringExecFns;

use crate::json;
use crate::json::Json;
use crate::json::JsonView;
use crate::text;
use crate::utf16;

verus! {

/// A style that Markdown can show.
#[derive(Clone, Copy, Debug, PartialEq, Eq, Structural)]
pub enum ArticleInlineStyle {
    Bold,
    Italic,
    Strikethrough,
    Code,
}

/// A style and the UTF-16 range that has it.
#[derive(Clone, Copy, Debug)]
pub struct InlineStyleRange {
    pub end: usize,
    pub start: usize,
    pub style: ArticleInlineStyle,
}

/// The marker of a style. Underscores avoid ambiguous runs such as `*****`
/// where bold and italic ranges start or end at the same offset.
pub open spec fn marker(style: ArticleInlineStyle) -> Seq<char> {
    match style {
        ArticleInlineStyle::Bold => "**"@,
        ArticleInlineStyle::Italic => "_"@,
        ArticleInlineStyle::Strikethrough => "~~"@,
        ArticleInlineStyle::Code => "`"@,
    }
}

impl ArticleInlineStyle {
    /// The marker before and the marker behind a text of this style.
    pub fn markers(self) -> (out: (&'static str, &'static str))
        ensures
            out.0@ == marker(self),
            out.1@ == marker(self),
    {
        match self {
            ArticleInlineStyle::Bold => ("**", "**"),
            ArticleInlineStyle::Italic => ("_", "_"),
            ArticleInlineStyle::Strikethrough => ("~~", "~~"),
            ArticleInlineStyle::Code => ("`", "`"),
        }
    }
}

/// `value` with backslashes and square brackets escaped for a Markdown label.
pub open spec fn escape_label(value: Seq<char>) -> Seq<char> {
    text::replace(
        text::replace(text::replace(value, "\\"@, "\\\\"@), "["@, "\\["@),
        "]"@,
        "\\]"@,
    )
}

/// Escapes a Markdown label.
pub fn escape_markdown_label(value: &str) -> (out: String)
    ensures
        out@ == escape_label(value@),
{
    let slashes = text::replace_text(value, "\\", "\\\\");
    let opened = text::replace_text(slashes.as_str(), "[", "\\[");
    text::replace_text(opened.as_str(), "]", "\\]")
}

// ----------------------------------------------------------------------
// Reading the ranges

/// The style that a DraftJS name stands for. Presentation-only styles such as
/// colour or size have no portable Markdown and stand for none.
pub open spec fn style_named(name: Seq<char>) -> Option<ArticleInlineStyle> {
    if name == "BOLD"@ {
        Some(ArticleInlineStyle::Bold)
    } else if name == "ITALIC"@ {
        Some(ArticleInlineStyle::Italic)
    } else if name == "STRIKETHROUGH"@ {
        Some(ArticleInlineStyle::Strikethrough)
    } else if name == "CODE"@ || name == "MONOSPACE"@ {
        Some(ArticleInlineStyle::Code)
    } else {
        None
    }
}

fn style_of(name: &str) -> (out: Option<ArticleInlineStyle>)
    ensures
        out == style_named(name@),
{
    if text::same(name, "BOLD") {
        Some(ArticleInlineStyle::Bold)
    } else if text::same(name, "ITALIC") {
        Some(ArticleInlineStyle::Italic)
    } else if text::same(name, "STRIKETHROUGH") {
        Some(ArticleInlineStyle::Strikethrough)
    } else if text::same(name, "CODE") || text::same(name, "MONOSPACE") {
        Some(ArticleInlineStyle::Code)
    } else {
        None
    }
}

/// The style range that a document describes: a known style on a range that is
/// not empty and lies within a text of `length` code units.
pub open spec fn style_range_in(range: JsonView, length: usize) -> Option<InlineStyleRange> {
    let name = json::text_in(json::member(range, "style"@));
    let offset = json::unsigned_in(json::member(range, "offset"@));
    let count = json::unsigned_in(json::member(range, "length"@));
    match (name, offset, count) {
        (Some(name), Some(offset), Some(count)) => {
            let start = offset as usize;
            let end = start + count as usize;
            match style_named(name) {
                Some(style) => if start < end <= length {
                    Some(InlineStyleRange { end: end as usize, start, style })
                } else {
                    None
                },
                None => None,
            }
        },
        _ => None,
    }
}

/// The style ranges that the documents describe, in order.
pub open spec fn style_ranges_in(ranges: Seq<JsonView>, length: usize) -> Seq<InlineStyleRange>
    decreases ranges.len(),
{
    if ranges.len() == 0 {
        Seq::empty()
    } else {
        let before = style_ranges_in(ranges.drop_last(), length);
        match style_range_in(ranges.last(), length) {
            Some(range) => before.push(range),
            None => before,
        }
    }
}

fn style_range(range: &Json, length: usize) -> (out: Option<InlineStyleRange>)
    ensures
        out == style_range_in(range@, length),
{
    let style = match json::text_of(range.get("style")) {
        Some(name) => style_of(name),
        None => None,
    };
    let offset = json::unsigned_of(range.get("offset"));
    let count = json::unsigned_of(range.get("length"));
    match (style, offset, count) {
        (Some(style), Some(offset), Some(count)) => {
            let start: usize = offset as usize;
            match start.checked_add(count as usize) {
                Some(end) => {
                    if start < end && end <= length {
                        Some(InlineStyleRange { end, start, style })
                    } else {
                        None
                    }
                },
                None => None,
            }
        },
        _ => None,
    }
}

/// The style ranges of a block whose text has `length` code units.
pub fn article_inline_style_ranges(block: &Json, length: usize) -> (out: Vec<InlineStyleRange>)
    ensures
        out@ == style_ranges_in(
            json::items_in(json::member(block@, "inlineStyleRanges"@)),
            length,
        ),
{
    let items = json::items_of(block.get("inlineStyleRanges"));
    let ghost model = json::views(items@);
    let mut out: Vec<InlineStyleRange> = Vec::new();
    let mut i: usize = 0;
    while i < items.len()
        invariant
            i <= items@.len(),
            model == json::views(items@),
            out@ == style_ranges_in(model.take(i as int), length),
        decreases items.len() - i,
    {
        assert(model.take(i + 1).drop_last() == model.take(i as int));
        assert(model[i as int] == items@[i as int]@);
        if let Some(range) = style_range(&items[i], length) {
            out.push(range);
        }
        i = i + 1;
    }
    assert(model.take(i as int) == model);
    out
}

// ----------------------------------------------------------------------
// Cutting a range at the style boundaries

/// Whether a style range and `start..end` have a code unit in common.
pub open spec fn overlaps(range: InlineStyleRange, start: int, end: int) -> bool {
    range.start < end && range.end > start
}

/// Whether `start..end` is cut at `at`: at its two ends, and where an
/// overlapping style begins or ends inside it.
pub open spec fn is_cut(ranges: Seq<InlineStyleRange>, start: int, end: int, at: int) -> bool {
    ||| at == start
    ||| at == end
    ||| start < at < end && exists|i: int|
        0 <= i < ranges.len() && overlaps(#[trigger] ranges[i], start, end) && (ranges[i].start
            == at || ranges[i].end == at)
}

/// The cuts of `start..end` up to `last`, ascending.
pub open spec fn cuts_up_to(
    ranges: Seq<InlineStyleRange>,
    start: int,
    end: int,
    last: int,
) -> Seq<int>
    decreases last + 1 - start,
{
    if last < start {
        Seq::empty()
    } else {
        let before = cuts_up_to(ranges, start, end, last - 1);
        if is_cut(ranges, start, end, last) {
            before.push(last)
        } else {
            before
        }
    }
}

/// The cuts of `start..end`, ascending.
pub open spec fn cuts(ranges: Seq<InlineStyleRange>, start: int, end: int) -> Seq<int> {
    cuts_up_to(ranges, start, end, end)
}

/// The cuts ascend from `start` to `last`, and every cut is among them.
proof fn lemma_cuts_up_to(ranges: Seq<InlineStyleRange>, start: int, end: int, last: int)
    requires
        start <= last <= end,
    ensures
        ({
            let all = cuts_up_to(ranges, start, end, last);
            &&& all.len() > 0
            &&& all[0] == start
            &&& forall|i: int| 0 <= i < all.len() ==> start <= #[trigger] all[i] <= last
            &&& forall|i: int, j: int| 0 <= i < j < all.len() ==> #[trigger] all[i]
                < #[trigger] all[j]
            &&& is_cut(ranges, start, end, last) ==> all.last() == last
        }),
    decreases last - start,
{
    let before = cuts_up_to(ranges, start, end, last - 1);
    if start < last {
        lemma_cuts_up_to(ranges, start, end, last - 1);
    } else {
        assert(before == Seq::<int>::empty());
    }
}

fn cut_at(ranges: &[InlineStyleRange], start: usize, end: usize, at: usize) -> (out: bool)
    requires
        start <= at <= end,
    ensures
        out == is_cut(ranges@, start as int, end as int, at as int),
{
    if at == start || at == end {
        return true;
    }
    let mut i: usize = 0;
    while i < ranges.len()
        invariant
            i <= ranges@.len(),
            start < at < end,
            forall|j: int|
                0 <= j < i ==> !(overlaps(#[trigger] ranges@[j], start as int, end as int) && (
                ranges@[j].start == at || ranges@[j].end == at)),
        decreases ranges.len() - i,
    {
        let range = ranges[i];
        if range.start < end && range.end > start && (range.start == at || range.end == at) {
            assert(overlaps(ranges@[i as int], start as int, end as int));
            return true;
        }
        i = i + 1;
    }
    false
}

/// The model of a list of offsets.
pub open spec fn offsets(list: Seq<usize>) -> Seq<int> {
    Seq::new(list.len(), |i: int| list[i] as int)
}

fn cut_points(ranges: &[InlineStyleRange], start: usize, end: usize) -> (out: Vec<usize>)
    requires
        start < end,
    ensures
        offsets(out@) == cuts(ranges@, start as int, end as int),
{
    let mut out: Vec<usize> = Vec::new();
    let mut at: usize = start;
    assert(offsets(out@) == cuts_up_to(ranges@, start as int, end as int, start - 1));
    loop
        invariant
            start <= at <= end,
            offsets(out@) == cuts_up_to(ranges@, start as int, end as int, at - 1),
        decreases end - at,
    {
        let ghost before = offsets(out@);
        if cut_at(ranges, start, end, at) {
            out.push(at);
            assert(offsets(out@) == before.push(at as int));
        }
        if at == end {
            return out;
        }
        at = at + 1;
    }
}

// ----------------------------------------------------------------------
// The pieces of a styled text

/// A piece of a styled text.
pub enum Piece {
    Open(ArticleInlineStyle),
    Close(ArticleInlineStyle),
    Text(Seq<char>),
}

/// What a piece is written as.
pub open spec fn piece_text(piece: Piece) -> Seq<char> {
    match piece {
        Piece::Open(style) => marker(style),
        Piece::Close(style) => marker(style),
        Piece::Text(value) => value,
    }
}

/// What the pieces are written as, one after the other.
pub open spec fn spell(pieces: Seq<Piece>) -> Seq<char>
    decreases pieces.len(),
{
    if pieces.len() == 0 {
        Seq::empty()
    } else {
        spell(pieces.drop_last()) + piece_text(pieces.last())
    }
}

/// Whether the whole of `from..to` has a style.
pub open spec fn covered(
    ranges: Seq<InlineStyleRange>,
    style: ArticleInlineStyle,
    from: int,
    to: int,
) -> bool {
    exists|i: int|
        0 <= i < ranges.len() && (#[trigger] ranges[i]).style == style && ranges[i].start <= from
            && ranges[i].end >= to
}

/// `styles` with one more, where `present`.
pub open spec fn with_style(
    styles: Seq<ArticleInlineStyle>,
    style: ArticleInlineStyle,
    present: bool,
) -> Seq<ArticleInlineStyle> {
    if present {
        styles.push(style)
    } else {
        styles
    }
}

/// The styles of `from..to`, in a fixed order. Markdown inside an inline-code
/// span is literal, so code excludes the others.
pub open spec fn target_styles(ranges: Seq<InlineStyleRange>, from: int, to: int) -> Seq<
    ArticleInlineStyle,
> {
    if covered(ranges, ArticleInlineStyle::Code, from, to) {
        seq![ArticleInlineStyle::Code]
    } else {
        with_style(
            with_style(
                with_style(
                    Seq::empty(),
                    ArticleInlineStyle::Bold,
                    covered(ranges, ArticleInlineStyle::Bold, from, to),
                ),
                ArticleInlineStyle::Italic,
                covered(ranges, ArticleInlineStyle::Italic, from, to),
            ),
            ArticleInlineStyle::Strikethrough,
            covered(ranges, ArticleInlineStyle::Strikethrough, from, to),
        )
    }
}

/// How many styles two lists have in common at their front, from `from` on.
pub open spec fn common_from(
    left: Seq<ArticleInlineStyle>,
    right: Seq<ArticleInlineStyle>,
    from: int,
) -> int
    decreases left.len() - from,
{
    if 0 <= from < left.len() && from < right.len() && left[from] == right[from] {
        common_from(left, right, from + 1)
    } else {
        from
    }
}

/// How many styles two lists have in common at their front.
pub open spec fn common(left: Seq<ArticleInlineStyle>, right: Seq<ArticleInlineStyle>) -> int {
    common_from(left, right, 0)
}

/// The open styles closed from the top down to position `from`.
pub open spec fn closing(active: Seq<ArticleInlineStyle>, from: int) -> Seq<Piece>
    decreases active.len() - from,
{
    if from < 0 || from >= active.len() {
        Seq::empty()
    } else {
        closing(active, from + 1).push(Piece::Close(active[from]))
    }
}

/// The styles opened from position `from` up to position `to`.
pub open spec fn opening(target: Seq<ArticleInlineStyle>, from: int, to: int) -> Seq<Piece>
    decreases to - from,
{
    if to <= from {
        Seq::empty()
    } else {
        opening(target, from, to - 1).push(Piece::Open(target[to - 1]))
    }
}

/// The text of the code units `from..to`: empty where they cut a surrogate
/// pair, and escaped where it is a link label.
pub open spec fn segment_text(units: Seq<u16>, from: int, to: int, label: bool) -> Seq<char> {
    match utf16::decode(units.subrange(from, to)) {
        Some(value) => if label {
            escape_label(value)
        } else {
            value
        },
        None => Seq::empty(),
    }
}

/// The styles that are open behind the first `count` segments.
pub open spec fn active_after(
    ranges: Seq<InlineStyleRange>,
    points: Seq<int>,
    count: int,
) -> Seq<ArticleInlineStyle> {
    if count <= 0 {
        Seq::empty()
    } else {
        target_styles(ranges, points[count - 1], points[count])
    }
}

/// The markers between two segments: what the next segment does not keep is
/// closed, and what it adds is opened.
pub open spec fn transition(
    active: Seq<ArticleInlineStyle>,
    target: Seq<ArticleInlineStyle>,
) -> Seq<Piece> {
    closing(active, common(active, target)) + opening(
        target,
        common(active, target),
        target.len() as int,
    )
}

/// The pieces of the first `count` segments.
pub open spec fn pieces_of(
    units: Seq<u16>,
    ranges: Seq<InlineStyleRange>,
    points: Seq<int>,
    label: bool,
    count: int,
) -> Seq<Piece>
    decreases count,
{
    if count <= 0 {
        Seq::empty()
    } else {
        (pieces_of(units, ranges, points, label, count - 1) + transition(
            active_after(ranges, points, count - 1),
            active_after(ranges, points, count),
        )).push(Piece::Text(segment_text(units, points[count - 1], points[count], label)))
    }
}

/// The pieces of `start..end`: its segments with the markers between them, and
/// at the end the open styles closed.
pub open spec fn styled_pieces(
    units: Seq<u16>,
    ranges: Seq<InlineStyleRange>,
    start: int,
    end: int,
    label: bool,
) -> Seq<Piece> {
    if 0 <= start < end <= units.len() {
        let points = cuts(ranges, start, end);
        let count = points.len() - 1;
        pieces_of(units, ranges, points, label, count) + closing(
            active_after(ranges, points, count),
            0,
        )
    } else {
        Seq::empty()
    }
}

/// The Markdown of the code units `start..end`.
pub open spec fn styled_text(
    units: Seq<u16>,
    ranges: Seq<InlineStyleRange>,
    start: int,
    end: int,
    label: bool,
) -> Seq<char> {
    spell(styled_pieces(units, ranges, start, end, label))
}

fn is_covered(
    ranges: &[InlineStyleRange],
    style: ArticleInlineStyle,
    from: usize,
    to: usize,
) -> (out: bool)
    ensures
        out == covered(ranges@, style, from as int, to as int),
{
    let mut i: usize = 0;
    while i < ranges.len()
        invariant
            i <= ranges@.len(),
            forall|j: int|
                0 <= j < i ==> !((#[trigger] ranges@[j]).style == style && ranges@[j].start <= from
                    && ranges@[j].end >= to),
        decreases ranges.len() - i,
    {
        let range = ranges[i];
        if range.style == style && range.start <= from && range.end >= to {
            assert(ranges@[i as int].style == style);
            return true;
        }
        i = i + 1;
    }
    false
}

fn find_target(ranges: &[InlineStyleRange], from: usize, to: usize) -> (out: Vec<
    ArticleInlineStyle,
>)
    ensures
        out@ == target_styles(ranges@, from as int, to as int),
{
    let mut out: Vec<ArticleInlineStyle> = Vec::new();
    if is_covered(ranges, ArticleInlineStyle::Code, from, to) {
        out.push(ArticleInlineStyle::Code);
        assert(out@ == seq![ArticleInlineStyle::Code]);
        return out;
    }
    if is_covered(ranges, ArticleInlineStyle::Bold, from, to) {
        out.push(ArticleInlineStyle::Bold);
    }
    if is_covered(ranges, ArticleInlineStyle::Italic, from, to) {
        out.push(ArticleInlineStyle::Italic);
    }
    if is_covered(ranges, ArticleInlineStyle::Strikethrough, from, to) {
        out.push(ArticleInlineStyle::Strikethrough);
    }
    out
}

fn find_common(left: &Vec<ArticleInlineStyle>, right: &Vec<ArticleInlineStyle>) -> (out: usize)
    ensures
        out == common(left@, right@),
        out <= left@.len(),
        out <= right@.len(),
{
    let mut at: usize = 0;
    while at < left.len() && at < right.len() && left[at] == right[at]
        invariant
            at <= left@.len(),
            at <= right@.len(),
            common(left@, right@) == common_from(left@, right@, at as int),
        decreases left.len() - at,
    {
        at = at + 1;
    }
    at
}

/// Writes the closing markers from the top down to `from` behind `out`.
fn write_closing(
    out: &mut String,
    active: &Vec<ArticleInlineStyle>,
    from: usize,
    Ghost(base): Ghost<Seq<Piece>>,
)
    requires
        from <= active@.len(),
        old(out)@ == spell(base),
    ensures
        final(out)@ == spell(base + closing(active@, from as int)),
{
    let mut at: usize = active.len();
    assert(base + closing(active@, at as int) == base);
    while at > from
        invariant
            from <= at <= active@.len(),
            out@ == spell(base + closing(active@, at as int)),
        decreases at,
    {
        at = at - 1;
        out.append(active[at].markers().1);
        proof {
            let before = base + closing(active@, at + 1);
            let after = base + closing(active@, at as int);
            assert(after == before.push(Piece::Close(active@[at as int])));
            assert(after.drop_last() == before);
        }
    }
}

/// Writes the opening markers from `from` on behind `out`.
fn write_opening(
    out: &mut String,
    target: &Vec<ArticleInlineStyle>,
    from: usize,
    Ghost(base): Ghost<Seq<Piece>>,
)
    requires
        from <= target@.len(),
        old(out)@ == spell(base),
    ensures
        final(out)@ == spell(base + opening(target@, from as int, target@.len() as int)),
{
    let mut at: usize = from;
    assert(base + opening(target@, from as int, at as int) == base);
    while at < target.len()
        invariant
            from <= at <= target@.len(),
            out@ == spell(base + opening(target@, from as int, at as int)),
        decreases target.len() - at,
    {
        out.append(target[at].markers().0);
        proof {
            let before = base + opening(target@, from as int, at as int);
            let after = base + opening(target@, from as int, at + 1);
            assert(after == before.push(Piece::Open(target@[at as int])));
            assert(after.drop_last() == before);
        }
        at = at + 1;
    }
}

/// Rebuild the common inline styles while respecting UTF-16 offsets.
///
/// Ranges can overlap. The text is split only at their boundaries, and the
/// markers are closed and reopened in a stable order.
pub fn render_styled_utf16_range(
    units: &[u16],
    start: usize,
    end: usize,
    ranges: &[InlineStyleRange],
    escape_as_link_label: bool,
) -> (out: String)
    ensures
        out@ == styled_text(units@, ranges@, start as int, end as int, escape_as_link_label),
{
    if start >= end || end > units.len() {
        return String::new();
    }
    let points = cut_points(ranges, start, end);
    let ghost model = offsets(points@);
    proof {
        lemma_cuts_up_to(ranges@, start as int, end as int, end as int);
        assert(model.len() == points@.len());
    }
    let label = escape_as_link_label;
    let mut out = String::new();
    let mut active: Vec<ArticleInlineStyle> = Vec::new();
    let mut k: usize = 0;
    while k < points.len() - 1
        invariant
            k <= points@.len() - 1,
            points@.len() > 0,
            start < end <= units@.len(),
            model == offsets(points@),
            model == cuts(ranges@, start as int, end as int),
            forall|i: int| 0 <= i < model.len() ==> start <= #[trigger] model[i] <= end,
            forall|i: int, j: int|
                0 <= i < j < model.len() ==> #[trigger] model[i] < #[trigger] model[j],
            out@ == spell(pieces_of(units@, ranges@, model, label, k as int)),
            active@ == active_after(ranges@, model, k as int),
        decreases points.len() - k,
    {
        let from: usize = points[k];
        let to: usize = points[k + 1];
        assert(model[k as int] == from && model[k + 1] == to);
        let target = find_target(ranges, from, to);
        let kept: usize = find_common(&active, &target);
        let ghost base = pieces_of(units@, ranges@, model, label, k as int);
        write_closing(&mut out, &active, kept, Ghost(base));
        let ghost closed = base + closing(active@, kept as int);
        write_opening(&mut out, &target, kept, Ghost(closed));
        let ghost opened = closed + opening(target@, kept as int, target@.len() as int);
        assert(opened == base + transition(active@, target@));
        active = target;
        let mut piece = String::new();
        if let Some(value) = utf16::decode_units(units, from, to) {
            piece = if label {
                escape_markdown_label(value.as_str())
            } else {
                value
            };
        }
        assert(piece@ == segment_text(units@, from as int, to as int, label));
        out.append(piece.as_str());
        proof {
            let after = pieces_of(units@, ranges@, model, label, k + 1);
            assert(after == opened.push(Piece::Text(piece@)));
            assert(after.drop_last() == opened);
        }
        k = k + 1;
    }
    let ghost base = pieces_of(units@, ranges@, model, label, k as int);
    write_closing(&mut out, &active, 0, Ghost(base));
    out
}

// ----------------------------------------------------------------------
// Laws

/// The styles that are open behind the pieces; none where a piece closes a
/// style that is not the innermost open one.
pub open spec fn open_styles(pieces: Seq<Piece>) -> Option<Seq<ArticleInlineStyle>>
    decreases pieces.len(),
{
    if pieces.len() == 0 {
        Some(Seq::empty())
    } else {
        match open_styles(pieces.drop_last()) {
            Some(stack) => match pieces.last() {
                Piece::Open(style) => Some(stack.push(style)),
                Piece::Close(style) => if stack.len() > 0 && stack.last() == style {
                    Some(stack.drop_last())
                } else {
                    None
                },
                Piece::Text(_) => Some(stack),
            },
            None => None,
        }
    }
}

proof fn lemma_common(left: Seq<ArticleInlineStyle>, right: Seq<ArticleInlineStyle>, from: int)
    requires
        0 <= from <= left.len(),
        from <= right.len(),
        left.take(from) == right.take(from),
    ensures
        from <= common_from(left, right, from) <= left.len(),
        common_from(left, right, from) <= right.len(),
        left.take(common_from(left, right, from)) == right.take(common_from(left, right, from)),
    decreases left.len() - from,
{
    if from < left.len() && from < right.len() && left[from] == right[from] {
        assert(left.take(from + 1) == left.take(from).push(left[from]));
        assert(right.take(from + 1) == right.take(from).push(right[from]));
        lemma_common(left, right, from + 1);
    }
}

/// Closing from the top leaves the styles below open.
proof fn lemma_closing(base: Seq<Piece>, active: Seq<ArticleInlineStyle>, from: int)
    requires
        open_styles(base) == Some(active),
        0 <= from <= active.len(),
    ensures
        open_styles(base + closing(active, from)) == Some(active.take(from)),
    decreases active.len() - from,
{
    if from == active.len() {
        assert(base + closing(active, from) == base);
        assert(active.take(from) == active);
    } else {
        lemma_closing(base, active, from + 1);
        let before = base + closing(active, from + 1);
        let after = base + closing(active, from);
        assert(after == before.push(Piece::Close(active[from])));
        assert(after.drop_last() == before);
        assert(active.take(from + 1).drop_last() == active.take(from));
    }
}

/// Opening adds the styles in order.
proof fn lemma_opening(base: Seq<Piece>, target: Seq<ArticleInlineStyle>, from: int, to: int)
    requires
        0 <= from <= to <= target.len(),
        open_styles(base) == Some(target.take(from)),
    ensures
        open_styles(base + opening(target, from, to)) == Some(target.take(to)),
    decreases to - from,
{
    if from == to {
        assert(base + opening(target, from, to) == base);
    } else {
        lemma_opening(base, target, from, to - 1);
        let before = base + opening(target, from, to - 1);
        let after = base + opening(target, from, to);
        assert(after == before.push(Piece::Open(target[to - 1])));
        assert(after.drop_last() == before);
        assert(target.take(to) == target.take(to - 1).push(target[to - 1]));
    }
}

proof fn lemma_pieces_nest(
    units: Seq<u16>,
    ranges: Seq<InlineStyleRange>,
    points: Seq<int>,
    label: bool,
    count: int,
)
    requires
        0 <= count,
    ensures
        open_styles(pieces_of(units, ranges, points, label, count)) == Some(
            active_after(ranges, points, count),
        ),
    decreases count,
{
    if count > 0 {
        lemma_pieces_nest(units, ranges, points, label, count - 1);
        let base = pieces_of(units, ranges, points, label, count - 1);
        let active = active_after(ranges, points, count - 1);
        let target = active_after(ranges, points, count);
        assert(active.take(0) == target.take(0));
        lemma_common(active, target, 0);
        let kept = common(active, target);
        lemma_closing(base, active, kept);
        let closed = base + closing(active, kept);
        lemma_opening(closed, target, kept, target.len() as int);
        assert(target.take(target.len() as int) == target);
        let opened = base + transition(active, target);
        assert(opened == closed + opening(target, kept, target.len() as int));
        let after = pieces_of(units, ranges, points, label, count);
        assert(after.drop_last() == opened);
    }
}

/// The markers of a styled text are properly nested, whatever ranges overlap or
/// cross: every marker that closes a style closes the innermost open one, and
/// at the end none is open.
pub proof fn law_markers_are_nested(
    units: Seq<u16>,
    ranges: Seq<InlineStyleRange>,
    start: int,
    end: int,
    label: bool,
)
    ensures
        open_styles(styled_pieces(units, ranges, start, end, label)) == Some(
            Seq::<ArticleInlineStyle>::empty(),
        ),
{
    if 0 <= start < end <= units.len() {
        let points = cuts(ranges, start, end);
        let count = points.len() - 1;
        lemma_cuts_up_to(ranges, start, end, end);
        lemma_pieces_nest(units, ranges, points, label, count);
        let active = active_after(ranges, points, count);
        lemma_closing(pieces_of(units, ranges, points, label, count), active, 0);
        assert(active.take(0) == Seq::<ArticleInlineStyle>::empty());
    }
}

/// The text of the pieces without their markers.
pub open spec fn visible(pieces: Seq<Piece>) -> Seq<char>
    decreases pieces.len(),
{
    if pieces.len() == 0 {
        Seq::empty()
    } else {
        match pieces.last() {
            Piece::Text(value) => visible(pieces.drop_last()) + value,
            _ => visible(pieces.drop_last()),
        }
    }
}

proof fn lemma_markers_are_invisible(base: Seq<Piece>, active: Seq<ArticleInlineStyle>, from: int)
    requires
        0 <= from,
    ensures
        visible(base + closing(active, from)) == visible(base),
    decreases active.len() - from,
{
    if from >= active.len() {
        assert(base + closing(active, from) == base);
    } else {
        lemma_markers_are_invisible(base, active, from + 1);
        let after = base + closing(active, from);
        assert(after == (base + closing(active, from + 1)).push(Piece::Close(active[from])));
        assert(after.drop_last() == base + closing(active, from + 1));
    }
}

proof fn lemma_openings_are_invisible(
    base: Seq<Piece>,
    target: Seq<ArticleInlineStyle>,
    from: int,
    to: int,
)
    ensures
        visible(base + opening(target, from, to)) == visible(base),
    decreases to - from,
{
    if to <= from {
        assert(base + opening(target, from, to) == base);
    } else {
        lemma_openings_are_invisible(base, target, from, to - 1);
        let after = base + opening(target, from, to);
        assert(after == (base + opening(target, from, to - 1)).push(Piece::Open(target[to - 1])));
        assert(after.drop_last() == base + opening(target, from, to - 1));
    }
}

/// Decoding two adjacent ranges is decoding them together.
proof fn lemma_decode_join(left: Seq<u16>, right: Seq<u16>)
    requires
        utf16::decode(left) is Some,
    ensures
        utf16::decode(left + right) == (match utf16::decode(right) {
            Some(tail) => Some(utf16::decode(left)->0 + tail),
            None => None,
        }),
    decreases left.len(),
{
    let whole = left + right;
    if left.len() == 0 {
        assert(whole == right);
        if utf16::decode(right) is Some {
            assert(Seq::<char>::empty() + utf16::decode(right)->0 == utf16::decode(right)->0);
        }
    } else if !utf16::is_high(left[0]) && !utf16::is_low(left[0]) {
        lemma_decode_join(left.skip(1), right);
        assert(whole.skip(1) == left.skip(1) + right);
        if utf16::decode(right) is Some {
            let head = seq![left[0] as char];
            let middle = utf16::decode(left.skip(1))->0;
            let tail = utf16::decode(right)->0;
            assert(head + (middle + tail) == (head + middle) + tail);
        }
    } else {
        lemma_decode_join(left.skip(2), right);
        assert(whole.skip(2) == left.skip(2) + right);
        if utf16::decode(right) is Some {
            let head = seq![utf16::pair_char(left[0], left[1])];
            let middle = utf16::decode(left.skip(2))->0;
            let tail = utf16::decode(right)->0;
            assert(head + (middle + tail) == (head + middle) + tail);
        }
    }
}

proof fn lemma_visible_prefix(
    units: Seq<u16>,
    ranges: Seq<InlineStyleRange>,
    points: Seq<int>,
    count: int,
)
    requires
        0 <= count < points.len(),
        forall|i: int| 0 <= i < points.len() ==> 0 <= #[trigger] points[i] <= units.len(),
        forall|i: int, j: int| 0 <= i < j < points.len() ==> #[trigger] points[i] < #[trigger] points[j],
        forall|i: int|
            0 <= i < points.len() - 1 ==> utf16::decode(
                units.subrange(#[trigger] points[i], points[i + 1]),
            ) is Some,
    ensures
        utf16::decode(units.subrange(points[0], points[count])) == Some(
            visible(pieces_of(units, ranges, points, false, count)),
        ),
    decreases count,
{
    if count == 0 {
        assert(units.subrange(points[0], points[0]) == Seq::<u16>::empty());
    } else {
        lemma_visible_prefix(units, ranges, points, count - 1);
        let left = units.subrange(points[0], points[count - 1]);
        let right = units.subrange(points[count - 1], points[count]);
        assert(points[0] <= points[count - 1]);
        assert(units.subrange(points[0], points[count]) == left + right);
        lemma_decode_join(left, right);
        let base = pieces_of(units, ranges, points, false, count - 1);
        let active = active_after(ranges, points, count - 1);
        let target = active_after(ranges, points, count);
        assert(active.take(0) == target.take(0));
        lemma_common(active, target, 0);
        let kept = common(active, target);
        lemma_markers_are_invisible(base, active, kept);
        lemma_openings_are_invisible(
            base + closing(active, kept),
            target,
            kept,
            target.len() as int,
        );
        let opened = base + transition(active, target);
        assert(opened == base + closing(active, kept) + opening(
            target,
            kept,
            target.len() as int,
        ));
        assert(pieces_of(units, ranges, points, false, count).drop_last() == opened);
    }
}

/// Styles add markers and change nothing else: without its markers a styled
/// text is the text of its code units, provided that no style begins or ends
/// inside a surrogate pair.
pub proof fn law_styles_keep_the_text(
    units: Seq<u16>,
    ranges: Seq<InlineStyleRange>,
    start: int,
    end: int,
)
    requires
        0 <= start < end <= units.len(),
        forall|i: int|
            0 <= i < cuts(ranges, start, end).len() - 1 ==> utf16::decode(
                units.subrange(
                    #[trigger] cuts(ranges, start, end)[i],
                    cuts(ranges, start, end)[i + 1],
                ),
            ) is Some,
    ensures
        utf16::decode(units.subrange(start, end)) == Some(
            visible(styled_pieces(units, ranges, start, end, false)),
        ),
{
    let points = cuts(ranges, start, end);
    let count = points.len() - 1;
    lemma_cuts_up_to(ranges, start, end, end);
    lemma_visible_prefix(units, ranges, points, count);
    lemma_markers_are_invisible(
        pieces_of(units, ranges, points, false, count),
        active_after(ranges, points, count),
        0,
    );
}

/// Bold stands outside italic, and italic outside what is struck through; code
/// stands alone, and a style that does not reach over the whole is not there.
pub proof fn law_styles_in_their_order(ranges: Seq<InlineStyleRange>, from: int, to: int)
    ensures
        ({
            let bold = exists|i: int|
                0 <= i < ranges.len() && (#[trigger] ranges[i]).style == ArticleInlineStyle::Bold
                    && ranges[i].start <= from && to <= ranges[i].end;
            let italic = exists|i: int|
                0 <= i < ranges.len() && (#[trigger] ranges[i]).style == ArticleInlineStyle::Italic
                    && ranges[i].start <= from && to <= ranges[i].end;
            let struck = exists|i: int|
                0 <= i < ranges.len() && (#[trigger] ranges[i]).style
                    == ArticleInlineStyle::Strikethrough && ranges[i].start <= from && to
                    <= ranges[i].end;
            let code = exists|i: int|
                0 <= i < ranges.len() && (#[trigger] ranges[i]).style == ArticleInlineStyle::Code
                    && ranges[i].start <= from && to <= ranges[i].end;
            let found = target_styles(ranges, from, to);
            &&& code ==> found == seq![ArticleInlineStyle::Code]
            &&& !code && bold && italic && struck ==> found == seq![
                ArticleInlineStyle::Bold,
                ArticleInlineStyle::Italic,
                ArticleInlineStyle::Strikethrough,
            ]
            &&& !code && bold && italic && !struck ==> found == seq![
                ArticleInlineStyle::Bold,
                ArticleInlineStyle::Italic,
            ]
            &&& !code && !bold && italic && struck ==> found == seq![
                ArticleInlineStyle::Italic,
                ArticleInlineStyle::Strikethrough,
            ]
            &&& !code && bold && !italic && !struck ==> found == seq![ArticleInlineStyle::Bold]
            &&& !code && !bold && !italic && !struck ==> found.len() == 0
        }),
{
}

} // verus!
