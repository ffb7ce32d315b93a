//! What the bodies of articles promise.

use vstd::prelude::*;

use crate::article;
use crate::article::DraftView;
use crate::documents::has_count;
use crate::documents::has_text;
use crate::json;
use crate::json::JsonView;
use crate::links;
use crate::media::EntryView;
use crate::model::LinkView;
use crate::spans;
use crate::styles;
use crate::styles::ArticleInlineStyle;
use crate::styles::InlineStyleRange;
use crate::styles::Piece;
use crate::text;
use crate::utf16;

verus! {

// ----------------------------------------------------------------------
// One line of a text

/// Whether a text is one line with ink at both of its ends.
pub open spec fn is_line(s: Seq<char>) -> bool {
    &&& s.len() > 0
    &&& !text::is_whitespace(s[0])
    &&& !text::is_whitespace(s.last())
    &&& forall|i: int| 0 <= i < s.len() ==> #[trigger] s[i] != '\n'
}

proof fn lemma_last_piece(front: Seq<char>, line: Seq<char>)
    requires
        front.len() == 0 || front.last() == '\n',
        forall|i: int| 0 <= i < line.len() ==> #[trigger] line[i] != '\n',
    ensures
        text::split(front + line, '\n').len() > 0,
        text::split(front + line, '\n').last() == line,
    decreases line.len(),
{
    let whole = front + line;
    text::law_split_join(whole, '\n');
    if line.len() == 0 {
        assert(whole == front);
    } else {
        lemma_last_piece(front, line.drop_last());
        assert(whole.drop_last() == front + line.drop_last());
        assert(whole.last() == line[line.len() - 1]);
        assert(line.drop_last().push(line.last()) == line);
    }
}

proof fn lemma_piece(front: Seq<char>, line: Seq<char>, back: Seq<char>)
    requires
        front.len() == 0 || front.last() == '\n',
        back.len() == 0 || back[0] == '\n',
        forall|i: int| 0 <= i < line.len() ==> #[trigger] line[i] != '\n',
    ensures
        ({
            let at = text::split(front + line, '\n').len() - 1;
            let pieces = text::split(front + line + back, '\n');
            &&& 0 <= at < pieces.len()
            &&& pieces[at] == line
            &&& back.len() > 0 ==> at + 1 < pieces.len()
        }),
    decreases back.len(),
{
    lemma_last_piece(front, line);
    let whole = front + line + back;
    if back.len() == 0 {
        assert(whole == front + line);
    } else {
        let rest = back.drop_last();
        if rest.len() > 0 {
            assert(rest[0] == back[0]);
        }
        lemma_piece(front, line, rest);
        assert(whole.drop_last() == front + line + rest);
        assert(whole.last() == back.last());
        if rest.len() == 0 {
            assert(back.last() == back[0]);
        }
    }
}

/// A line of a text is among its lines.
pub proof fn lemma_line(front: Seq<char>, line: Seq<char>, back: Seq<char>) -> (at: int)
    requires
        front.len() == 0 || front.last() == '\n',
        back.len() == 0 || back[0] == '\n',
        forall|i: int| 0 <= i < line.len() ==> #[trigger] line[i] != '\n',
        line.len() > 0,
        !text::is_whitespace(line.last()),
    ensures
        0 <= at < text::lines(front + line + back).len(),
        text::lines(front + line + back)[at] == line,
{
    lemma_piece(front, line, back);
    let at = text::split(front + line, '\n').len() - 1;
    let pieces = text::split(front + line + back, '\n');
    assert(line.last() != '\r');
    if at < pieces.len() - 1 {
        assert(text::strip_returns(pieces.drop_last())[at] == line);
    }
    at
}

proof fn lemma_step_keeps(state: (Seq<char>, bool), line: Seq<char>, inside: Seq<char>)
    requires
        inside.len() > 0,
        text::contains(state.0, inside),
    ensures
        text::contains(text::collapse_step(state, line).0, inside),
{
    let place = choose|place: int| text::occurs_at(state.0, inside, place);
    let whole = state.0 + "\n"@ + line;
    assert(whole.subrange(place, place + inside.len()) == state.0.subrange(
        place,
        place + inside.len(),
    ));
    assert(text::occurs_at(whole, inside, place));
}

proof fn lemma_step_adds(state: (Seq<char>, bool), line: Seq<char>)
    requires
        !text::is_blank(line),
    ensures
        text::contains(text::collapse_step(state, line).0, line),
{
    text::lemma_contains_middle(state.0 + "\n"@, line, Seq::empty());
    assert(line.subrange(0, line.len() as int) == line);
    assert(text::occurs_at(line, line, 0));
}

/// A line stays where runs of blank lines are reduced.
proof fn lemma_collapsed(lines: Seq<Seq<char>>, at: int, wanted: Seq<char>)
    requires
        0 <= at < lines.len(),
        lines[at] == wanted,
        wanted.len() > 0,
        !text::is_blank(wanted),
    ensures
        text::contains(text::collapsed_lines(lines).0, wanted),
    decreases lines.len(),
{
    let rest = lines.drop_last();
    let last = lines[lines.len() - 1];
    let before = text::collapsed_lines(rest);
    let after = text::collapsed_lines(lines);
    assert(after == text::collapse_step(before, last));
    if at < rest.len() {
        assert(rest[at] == wanted);
        lemma_collapsed(rest, at, wanted);
        assert(text::contains(before.0, wanted));
        lemma_step_keeps(before, last, wanted);
    } else {
        assert(last == wanted);
        lemma_step_adds(before, last);
    }
}

proof fn lemma_trim_start_keeps(s: Seq<char>, line: Seq<char>, at: int)
    requires
        line.len() > 0,
        !text::is_whitespace(line[0]),
        text::occurs_at(s, line, at),
    ensures
        text::contains(text::trim_start_by(s, text::white()), line),
    decreases s.len(),
{
    if s.len() > 0 && text::is_whitespace(s[0]) {
        assert(s.subrange(at, at + line.len())[0] == s[at]);
        assert(s.drop_first().subrange(at - 1, at - 1 + line.len()) == s.subrange(
            at,
            at + line.len(),
        ));
        lemma_trim_start_keeps(s.drop_first(), line, at - 1);
    }
}

proof fn lemma_trim_end_keeps(s: Seq<char>, line: Seq<char>, at: int)
    requires
        line.len() > 0,
        !text::is_whitespace(line.last()),
        text::occurs_at(s, line, at),
    ensures
        text::contains(text::trim_end_by(s, text::white()), line),
    decreases s.len(),
{
    if s.len() > 0 && text::is_whitespace(s.last()) {
        assert(s.subrange(at, at + line.len())[line.len() - 1] == s[at + line.len() - 1]);
        assert(s.drop_last().subrange(at, at + line.len()) == s.subrange(at, at + line.len()));
        lemma_trim_end_keeps(s.drop_last(), line, at);
    }
}

/// What stands in a line of a text stays where runs of blank lines are reduced
/// and the text is trimmed.
proof fn lemma_collapse_keeps(
    front: Seq<char>,
    line: Seq<char>,
    back: Seq<char>,
    inside: Seq<char>,
)
    requires
        front.len() == 0 || front.last() == '\n',
        back.len() == 0 || back[0] == '\n',
        forall|i: int| 0 <= i < line.len() ==> #[trigger] line[i] != '\n',
        line.len() > 0,
        !text::is_whitespace(line.last()),
        is_line(inside),
        text::contains(line, inside),
    ensures
        text::contains(text::collapse(front + line + back), inside),
{
    let whole = front + line + back;
    let at = lemma_line(front, line, back);
    text::lemma_ink(line, line.len() - 1);
    lemma_collapsed(text::lines(whole), at, line);
    let out = text::collapsed_lines(text::lines(whole)).0;
    text::lemma_contains_through(out, line, inside);
    let place = choose|place: int| text::occurs_at(out, inside, place);
    lemma_trim_start_keeps(out, inside, place);
    let started = text::trim_start_by(out, text::white());
    let next = choose|next: int| text::occurs_at(started, inside, next);
    lemma_trim_end_keeps(started, inside, next);
}

/// What stands before a part of a joined text and behind it.
pub proof fn lemma_joined(parts: Seq<Seq<char>>, at: int) -> (sides: (Seq<char>, Seq<char>))
    requires
        0 <= at < parts.len(),
    ensures
        text::join(parts, "\n\n"@) == sides.0 + parts[at] + sides.1,
        sides.0.len() == 0 || sides.0.last() == '\n',
        sides.1.len() == 0 || sides.1[0] == '\n',
    decreases parts.len(),
{
    reveal_strlit("\n\n");
    let none = Seq::<char>::empty();
    if parts.len() == 1 {
        assert(none + parts[0] + none == parts[0]);
        (none, none)
    } else {
        let rest = parts.drop_last();
        let last = parts[parts.len() - 1];
        if at == parts.len() - 1 {
            let front = text::join(rest, "\n\n"@) + "\n\n"@;
            assert(front + last + none == front + last);
            assert(front.last() == "\n\n"@[1]);
            (front, none)
        } else {
            let (front, back) = lemma_joined(rest, at);
            let behind = back + "\n\n"@ + last;
            assert(front + parts[at] + behind == front + parts[at] + back + "\n\n"@ + last);
            if back.len() == 0 {
                assert(behind[0] == "\n\n"@[0]);
            } else {
                assert(behind[0] == back[0]);
            }
            (front, behind)
        }
    }
}

/// What stands in a paragraph of one line stands in the finished body.
proof fn lemma_finished(parts: Seq<Seq<char>>, at: int, inside: Seq<char>)
    requires
        0 <= at < parts.len(),
        forall|i: int| 0 <= i < parts[at].len() ==> #[trigger] parts[at][i] != '\n',
        parts[at].len() > 0,
        !text::is_whitespace(parts[at].last()),
        is_line(inside),
        text::contains(parts[at], inside),
    ensures
        text::contains(text::collapse(text::join(parts, "\n\n"@)), inside),
        text::collapse(text::join(parts, "\n\n"@)).len() > 0,
{
    let (front, back) = lemma_joined(parts, at);
    lemma_collapse_keeps(front, parts[at], back, inside);
}

// ----------------------------------------------------------------------
// Blocks of text

/// Whether a block is one of text: it embeds nothing.
pub open spec fn is_text_block(block: JsonView) -> bool {
    !has_text(block, "type"@, "atomic"@)
}

/// A block of text with ink at its end becomes one paragraph of the text, which
/// is that text, and one of the Markdown, which ends with the inline Markdown of
/// the block; the paragraphs before stay as they are. That is so whatever kind
/// of block it is.
pub proof fn law_blocks_become_paragraphs(
    blocks: Seq<JsonView>,
    entities: Seq<(Seq<char>, JsonView)>,
    entries: Seq<EntryView>,
    at: int,
    value: Seq<char>,
)
    requires
        0 <= at < blocks.len(),
        is_text_block(blocks[at]),
        has_text(blocks[at], "text"@, value),
        value.len() > 0,
        !text::is_whitespace(value.last()),
    ensures
        ({
            let before = article::draft_of(blocks.take(at), entities, entries);
            let after = article::draft_of(blocks.take(at + 1), entities, entries);
            let content = spans::inline_content(blocks[at], entities);
            &&& after.text == before.text.push(value)
            &&& after.markdown.len() == before.markdown.len() + 1
            &&& after.markdown.drop_last() == before.markdown
            &&& text::ends_with(after.markdown.last(), content.markdown)
            &&& after.embedded_post_ids == before.embedded_post_ids
        }),
{
    let block = blocks[at];
    assert(blocks.take(at + 1).drop_last() == blocks.take(at));
    assert(blocks.take(at + 1).last() == block);
    let before = article::draft_of(blocks.take(at), entities, entries);
    let after = article::draft_of(blocks.take(at + 1), entities, entries);
    let content = spans::inline_content(block, entities);
    let kind = article::block_kind(block);
    assert(kind != "atomic"@) by {
        reveal_strlit("atomic");
        reveal_strlit("unstyled");
        assert("atomic"@.len() == 6 && "unstyled"@.len() == 8);
    }
    assert(spans::block_text(block) == value);
    let depth = spans::offset_in(json::member(block, "depth"@));
    let written = article::block_markdown(kind, depth, content.markdown);
    lemma_ends_with_body(kind, depth, content.markdown);
    assert(after.markdown == before.markdown.push(written));
    assert(after.markdown.drop_last() == before.markdown);
}

proof fn lemma_ends_with_body(kind: Seq<char>, depth: usize, body: Seq<char>)
    ensures
        text::ends_with(article::block_markdown(kind, depth, body), body),
{
    let written = article::block_markdown(kind, depth, body);
    assert(written.subrange(written.len() - body.len(), written.len() as int) == body);
}

/// The paragraphs that blocks made stay, at their places, whatever blocks
/// follow.
pub proof fn law_paragraphs_stay(
    blocks: Seq<JsonView>,
    entities: Seq<(Seq<char>, JsonView)>,
    entries: Seq<EntryView>,
    count: int,
)
    requires
        0 <= count <= blocks.len(),
    ensures
        ({
            let some = article::draft_of(blocks.take(count), entities, entries);
            let all = article::draft_of(blocks, entities, entries);
            &&& some.text.is_prefix_of(all.text)
            &&& some.markdown.is_prefix_of(all.markdown)
        }),
    decreases blocks.len(),
{
    if count == blocks.len() {
        assert(blocks.take(count) == blocks);
    } else {
        let rest = blocks.drop_last();
        assert(rest.take(count) == blocks.take(count));
        law_paragraphs_stay(rest, entities, entries, count);
        let before = article::draft_of(rest, entities, entries);
        lemma_block_adds(before, blocks.last(), entities, entries);
        let some = article::draft_of(blocks.take(count), entities, entries);
        let all = article::draft_of(blocks, entities, entries);
        assert forall|i: int| 0 <= i < some.text.len() implies some.text[i] == all.text[i] by {
            assert(some.text[i] == before.text[i]);
        }
        assert forall|i: int| 0 <= i < some.markdown.len() implies some.markdown[i]
            == all.markdown[i] by {
            assert(some.markdown[i] == before.markdown[i]);
        }
    }
}

proof fn lemma_media_add(draft: DraftView, ids: Seq<Seq<char>>, entries: Seq<EntryView>)
    ensures
        draft.text.is_prefix_of(article::embed_all_media(draft, ids, entries).text),
        draft.markdown.is_prefix_of(article::embed_all_media(draft, ids, entries).markdown),
    decreases ids.len(),
{
    if ids.len() > 0 {
        lemma_media_add(draft, ids.drop_last(), entries);
    }
}

proof fn lemma_ranges_add(
    draft: DraftView,
    ranges: Seq<JsonView>,
    entities: Seq<(Seq<char>, JsonView)>,
    entries: Seq<EntryView>,
)
    ensures
        draft.text.is_prefix_of(
            article::embed_ranges(draft, ranges, entities, entries).text,
        ),
        draft.markdown.is_prefix_of(
            article::embed_ranges(draft, ranges, entities, entries).markdown,
        ),
    decreases ranges.len(),
{
    if ranges.len() > 0 {
        lemma_ranges_add(draft, ranges.drop_last(), entities, entries);
        let before = article::embed_ranges(draft, ranges.drop_last(), entities, entries);
        let entity = spans::entity_of_range(ranges.last(), entities);
        let data = match json::member_in(entity, "data"@) {
            Some(data) => data,
            None => JsonView::Null,
        };
        lemma_media_add(before, article::media_ids_in(data), entries);
    }
}

proof fn lemma_block_adds(
    draft: DraftView,
    block: JsonView,
    entities: Seq<(Seq<char>, JsonView)>,
    entries: Seq<EntryView>,
)
    ensures
        draft.text.is_prefix_of(article::add_block(draft, block, entities, entries).text),
        draft.markdown.is_prefix_of(article::add_block(draft, block, entities, entries).markdown),
{
    lemma_ranges_add(
        draft,
        json::items_in(json::member(block, "entityRanges"@)),
        entities,
        entries,
    );
}

/// The finished text of an article holds the text of every block that is a
/// line, whatever kind of block it is.
pub proof fn law_bodies_hold_every_block(
    blocks: Seq<JsonView>,
    entities: Seq<(Seq<char>, JsonView)>,
    entries: Seq<EntryView>,
    at: int,
    value: Seq<char>,
)
    requires
        0 <= at < blocks.len(),
        is_text_block(blocks[at]),
        has_text(blocks[at], "text"@, value),
        is_line(value),
    ensures
        text::contains(
            article::finished(article::draft_of(blocks, entities, entries)).text,
            value,
        ),
{
    law_blocks_become_paragraphs(blocks, entities, entries, at, value);
    law_paragraphs_stay(blocks, entities, entries, at + 1);
    let before = article::draft_of(blocks.take(at), entities, entries);
    let after = article::draft_of(blocks.take(at + 1), entities, entries);
    let all = article::draft_of(blocks, entities, entries);
    let place = before.text.len() as int;
    assert(after.text[place] == value);
    assert(all.text[place] == value);
    assert(value.subrange(0, value.len() as int) == value);
    assert(text::occurs_at(value, value, 0));
    lemma_finished(all.text, place, value);
}

// ----------------------------------------------------------------------
// Inline content

proof fn lemma_no_cuts(start: int, end: int, last: int)
    requires
        start <= last < end,
    ensures
        styles::cuts_up_to(Seq::empty(), start, end, last) == seq![start],
    decreases last - start,
{
    let none = Seq::<InlineStyleRange>::empty();
    if last > start {
        lemma_no_cuts(start, end, last - 1);
        assert(!styles::is_cut(none, start, end, last));
    } else {
        assert(styles::cuts_up_to(none, start, end, start - 1) == Seq::<int>::empty());
        assert(styles::is_cut(none, start, end, start));
        assert(Seq::<int>::empty().push(start) == seq![start]);
    }
}

/// A text without styles is written as it is.
proof fn lemma_unstyled(units: Seq<u16>, start: int, end: int, value: Seq<char>)
    requires
        0 <= start < end <= units.len(),
        utf16::decode(units.subrange(start, end)) == Some(value),
    ensures
        styles::styled_text(units, Seq::empty(), start, end, false) == value,
        styles::styled_text(units, Seq::empty(), start, end, true) == styles::escape_label(value),
{
    let none = Seq::<InlineStyleRange>::empty();
    lemma_no_cuts(start, end, end - 1);
    assert(styles::is_cut(none, start, end, end));
    let points = styles::cuts(none, start, end);
    assert(points == seq![start, end]);
    let nothing = Seq::<ArticleInlineStyle>::empty();
    assert(styles::target_styles(none, start, end) == nothing);
    assert(styles::transition(nothing, nothing) == Seq::<Piece>::empty());
    assert(styles::active_after(none, points, 1) == nothing);
    assert(styles::closing(nothing, 0) == Seq::<Piece>::empty());
    assert forall|label: bool| styles::styled_text(units, none, start, end, label)
        == #[trigger] styles::segment_text(units, start, end, label) by {
        let piece = Piece::Text(styles::segment_text(units, start, end, label));
        assert(styles::pieces_of(units, none, points, label, 0) == Seq::<Piece>::empty());
        assert(styles::pieces_of(units, none, points, label, 1) == seq![piece]);
        assert(styles::styled_pieces(units, none, start, end, label) == seq![piece]);
        assert(seq![piece].drop_last() == Seq::<Piece>::empty());
        assert(styles::spell(Seq::empty()) == Seq::<char>::empty());
        assert(styles::spell(seq![piece]) == Seq::<char>::empty() + styles::segment_text(
            units,
            start,
            end,
            label,
        ));
        assert(Seq::<char>::empty() + styles::segment_text(units, start, end, label)
            == styles::segment_text(units, start, end, label));
    }
    assert(styles::segment_text(units, start, end, false) == value);
    assert(styles::segment_text(units, start, end, true) == styles::escape_label(value));
}

/// A block without styles and entities is its own inline Markdown.
pub proof fn law_plain_blocks_are_their_own_markdown(
    block: JsonView,
    entities: Seq<(Seq<char>, JsonView)>,
    value: Seq<char>,
)
    requires
        has_text(block, "text"@, value),
        value.len() > 0,
        !text::is_whitespace(value.last()),
        json::member(block, "inlineStyleRanges"@) is None,
        json::member(block, "entityRanges"@) is None,
    ensures
        spans::inline_content(block, entities).markdown == value,
{
    let units = utf16::encode(value);
    let none = Seq::<InlineStyleRange>::empty();
    assert(spans::block_text(block) == value);
    assert(styles::style_ranges_in(Seq::empty(), units.len() as usize) == none);
    assert(spans::links_on(Seq::empty(), entities, value) == Seq::<spans::InlineLinkView>::empty());
    assert(spans::by_start(Seq::empty()) == Seq::<spans::InlineLinkView>::empty());
    utf16::law_utf16_round_trip(value);
    assert(units.subrange(0, units.len() as int) == units);
    assert(units.len() > 0) by {
        assert(value == value.drop_last().push(value.last()));
    }
    lemma_unstyled(units, 0, units.len() as int, value);
    assert(Seq::<char>::empty() + value == value);
}

// ----------------------------------------------------------------------
// Kinds of blocks

/// Whether a block is plain: a text with ink at its end, and neither styles nor
/// entities.
pub open spec fn is_plain_block(block: JsonView, value: Seq<char>) -> bool {
    &&& has_text(block, "text"@, value)
    &&& value.len() > 0
    &&& !text::is_whitespace(value.last())
    &&& json::member(block, "inlineStyleRanges"@) is None
    &&& json::member(block, "entityRanges"@) is None
}

/// Every kind of block has its own form in Markdown: headings of three levels,
/// items of lists, indented by their depth, quotes, code, and plain paragraphs.
pub proof fn law_kinds_of_blocks_have_their_forms(
    draft: DraftView,
    block: JsonView,
    entities: Seq<(Seq<char>, JsonView)>,
    entries: Seq<EntryView>,
    value: Seq<char>,
)
    requires
        is_plain_block(block, value),
    ensures
        ({
            let written = article::add_block(draft, block, entities, entries).markdown;
            let top = json::member(block, "depth"@) is None || has_count(block, "depth"@, 0);
            let once = has_count(block, "depth"@, 1);
            &&& has_text(block, "type"@, "header-one"@) ==> written == draft.markdown.push(
                "# "@ + value,
            )
            &&& has_text(block, "type"@, "header-two"@) ==> written == draft.markdown.push(
                "## "@ + value,
            )
            &&& has_text(block, "type"@, "header-three"@) ==> written == draft.markdown.push(
                "### "@ + value,
            )
            &&& has_text(block, "type"@, "unordered-list-item"@) && top ==> written
                == draft.markdown.push("- "@ + value)
            &&& has_text(block, "type"@, "unordered-list-item"@) && once ==> written
                == draft.markdown.push("  - "@ + value)
            &&& has_text(block, "type"@, "ordered-list-item"@) && top ==> written
                == draft.markdown.push("1. "@ + value)
            &&& has_text(block, "type"@, "ordered-list-item"@) && once ==> written
                == draft.markdown.push("  1. "@ + value)
            &&& has_text(block, "type"@, "blockquote"@) ==> written == draft.markdown.push(
                "> "@ + value,
            )
            &&& has_text(block, "type"@, "code-block"@) ==> written == draft.markdown.push(
                "    "@ + value,
            )
            &&& has_text(block, "type"@, "unstyled"@) || json::member(block, "type"@) is None
                ==> written == draft.markdown.push(value)
        }),
{
    law_plain_blocks_are_their_own_markdown(block, entities, value);
    assert(spans::block_text(block) == value);
    lemma_kinds_are_different();
    reveal_strlit("  ");
    reveal_strlit("- ");
    reveal_strlit("  - ");
    reveal_strlit("1. ");
    reveal_strlit("  1. ");
    assert(text::repeat("  "@, 0) == Seq::<char>::empty());
    reveal_with_fuel(text::repeat, 2);
    assert(text::repeat("  "@, 1) == "  "@);
    assert(Seq::<char>::empty() + "- "@ + value == "- "@ + value);
    assert(Seq::<char>::empty() + "1. "@ + value == "1. "@ + value);
    assert("  "@ + "- "@ == "  - "@);
    assert("  "@ + "1. "@ == "  1. "@);
}

proof fn lemma_kinds_are_different()
    ensures
        "header-one"@ != "header-two"@ && "header-one"@ != "header-three"@ && "header-one"@
            != "unordered-list-item"@ && "header-one"@ != "ordered-list-item"@ && "header-one"@
            != "blockquote"@ && "header-one"@ != "code-block"@ && "header-one"@ != "unstyled"@
            && "header-one"@ != "atomic"@,
        "header-two"@ != "header-three"@ && "header-two"@ != "unordered-list-item"@ && "header-two"@
            != "ordered-list-item"@ && "header-two"@ != "blockquote"@ && "header-two"@
            != "code-block"@ && "header-two"@ != "unstyled"@ && "header-two"@ != "atomic"@,
        "header-three"@ != "unordered-list-item"@ && "header-three"@ != "ordered-list-item"@
            && "header-three"@ != "blockquote"@ && "header-three"@ != "code-block"@
            && "header-three"@ != "unstyled"@ && "header-three"@ != "atomic"@,
        "unordered-list-item"@ != "ordered-list-item"@ && "unordered-list-item"@ != "blockquote"@
            && "unordered-list-item"@ != "code-block"@ && "unordered-list-item"@ != "unstyled"@
            && "unordered-list-item"@ != "atomic"@,
        "ordered-list-item"@ != "blockquote"@ && "ordered-list-item"@ != "code-block"@
            && "ordered-list-item"@ != "unstyled"@ && "ordered-list-item"@ != "atomic"@,
        "blockquote"@ != "code-block"@ && "blockquote"@ != "unstyled"@ && "blockquote"@ != "atomic"@,
        "code-block"@ != "unstyled"@ && "code-block"@ != "atomic"@ && "unstyled"@ != "atomic"@,
{
    reveal_strlit("header-one");
    reveal_strlit("header-two");
    reveal_strlit("header-three");
    reveal_strlit("unordered-list-item");
    reveal_strlit("ordered-list-item");
    reveal_strlit("blockquote");
    reveal_strlit("code-block");
    reveal_strlit("unstyled");
    reveal_strlit("atomic");
    assert("header-one"@.len() == 10 && "header-two"@.len() == 10 && "header-three"@.len() == 12);
    assert("unordered-list-item"@.len() == 19 && "ordered-list-item"@.len() == 17);
    assert("blockquote"@.len() == 10 && "code-block"@.len() == 10 && "unstyled"@.len() == 8
        && "atomic"@.len() == 6);
    assert("header-one"@[0] == 'h' && "header-two"@[0] == 'h' && "blockquote"@[0] == 'b'
        && "code-block"@[0] == 'c');
    assert("header-one"@[7] == 'o' && "header-two"@[7] == 't');
}

/// A block without text is left out, unless it is a plain paragraph.
pub proof fn law_empty_blocks(
    draft: DraftView,
    block: JsonView,
    entities: Seq<(Seq<char>, JsonView)>,
    entries: Seq<EntryView>,
    kind: Seq<char>,
)
    requires
        has_text(block, "type"@, kind),
        kind != "atomic"@,
        kind != "unstyled"@,
        json::member(block, "text"@) is None || has_text(block, "text"@, Seq::empty()),
    ensures
        article::add_block(draft, block, entities, entries) == draft,
{
    reveal_strlit("");
    assert(""@ == Seq::<char>::empty());
    assert(text::trim_end(Seq::empty()) == Seq::<char>::empty());
}

// ----------------------------------------------------------------------
// What is embedded

/// An embedded post becomes one paragraph, its address, and its ID is kept,
/// unless it is embedded already.
pub proof fn law_embedded_posts_become_paragraphs(
    draft: DraftView,
    entity: JsonView,
    data: JsonView,
    entries: Seq<EntryView>,
    id: Seq<char>,
)
    requires
        has_text(entity, "type"@, "TWEET"@),
        json::member(entity, "data"@) == Some(data),
        has_text(data, "tweetId"@, id),
    ensures
        ({
            let after = article::embed(draft, Some(entity), entries);
            if draft.embedded_post_ids.contains(id) {
                after == draft
            } else {
                &&& after.embedded_post_ids == draft.embedded_post_ids.push(id)
                &&& after.text == draft.text.push("https://x.com/i/status/"@ + id)
                &&& after.markdown == draft.markdown.push("<"@ + ("https://x.com/i/status/"@ + id)
                    + ">"@)
                &&& after.links == draft.links
            }
        }),
{
}

/// An embedded photo becomes an image with its description, and an embedded
/// video the address of its best MP4.
pub proof fn law_embedded_media_become_paragraphs(
    draft: DraftView,
    entity: JsonView,
    data: JsonView,
    entry: EntryView,
    id: Seq<char>,
    url: Seq<char>,
)
    requires
        has_text(entity, "type"@, "MEDIA"@),
        json::member(entity, "data"@) == Some(data),
        json::member(data, "mediaItems"@) is None,
        has_text(data, "mediaId"@, id),
        entry.ids.contains(id),
        entry.media.url == Some(url),
    ensures
        ({
            let after = article::embed(draft, Some(entity), seq![entry]);
            &&& entry.media.media_type == Some("photo"@) ==> {
                &&& after.text == draft.text.push(url)
                &&& entry.media.alt_text is None ==> after.markdown == draft.markdown.push(
                    "![](<"@ + url + ">)"@,
                )
                &&& entry.media.alt_text matches Some(alt) ==> after.markdown
                    == draft.markdown.push("!["@ + styles::escape_label(alt) + "](<"@ + url + ">)"@)
            }
            &&& entry.media.media_type == Some("video"@) && entry.media.variants.len() == 0
                && text::contains(text::lower_case(url), ".mp4"@) ==> {
                &&& after.text == draft.text.push(url)
                &&& after.markdown == draft.markdown.push(url)
            }
            &&& after.embedded_post_ids == draft.embedded_post_ids
        }),
{
    reveal_strlit("TWEET");
    reveal_strlit("MEDIA");
    assert("TWEET"@[0] == 'T' && "MEDIA"@[0] == 'M');
    assert(article::item_ids(Seq::empty()) == Seq::<Seq<char>>::empty());
    assert(article::media_ids_in(data) == seq![id]);
    let entries = seq![entry];
    assert(entries.last() == entry);
    assert(crate::media::media_named(entries, id) == Some(entry.media));
    let ids = seq![id];
    assert(ids.drop_last() == Seq::<Seq<char>>::empty());
    assert(article::embed_all_media(draft, ids.drop_last(), entries) == draft);
    reveal_strlit("photo");
    reveal_strlit("video");
    reveal_strlit("gif");
    assert("photo"@.len() == 5 && "gif"@.len() == 3 && "photo"@[0] == 'p' && "video"@[0] == 'v');
    reveal_strlit("![");
    reveal_strlit("](<");
    reveal_strlit("![](<");
    reveal_strlit("");
    assert("!["@ + ""@ + "](<"@ == "![](<"@);
}

// ----------------------------------------------------------------------
// Articles

proof fn lemma_indent_has_no_line_end(depth: nat)
    ensures
        forall|i: int|
            0 <= i < text::repeat("  "@, depth).len() ==> #[trigger] text::repeat("  "@, depth)[i]
                == ' ',
    decreases depth,
{
    reveal_strlit("  ");
    assert("  "@.len() == 2 && "  "@[0] == ' ' && "  "@[1] == ' ');
    if depth > 0 {
        lemma_indent_has_no_line_end((depth - 1) as nat);
        let before = text::repeat("  "@, (depth - 1) as nat);
        let all = text::repeat("  "@, depth);
        assert forall|i: int| 0 <= i < all.len() implies #[trigger] all[i] == ' ' by {
            if i < before.len() {
                assert(all == before + "  "@ || all == "  "@ + before);
            }
        }
    }
}

proof fn lemma_form_is_one_line(kind: Seq<char>, depth: usize, body: Seq<char>)
    requires
        forall|i: int| 0 <= i < body.len() ==> #[trigger] body[i] != '\n',
    ensures
        forall|i: int|
            0 <= i < article::block_markdown(kind, depth, body).len()
                ==> #[trigger] article::block_markdown(kind, depth, body)[i] != '\n',
{
    lemma_indent_has_no_line_end(depth as nat);
    reveal_strlit("# ");
    reveal_strlit("## ");
    reveal_strlit("### ");
    reveal_strlit("- ");
    reveal_strlit("1. ");
    reveal_strlit("> ");
    reveal_strlit("    ");
    assert("# "@.len() == 2 && "## "@.len() == 3 && "### "@.len() == 4 && "- "@.len() == 2
        && "1. "@.len() == 3 && "> "@.len() == 2 && "    "@.len() == 4);
}

/// An article holds every plain block of its content, in its text and in its
/// Markdown, whatever kind of block it is.
pub proof fn law_articles_hold_every_block(
    value: JsonView,
    content: JsonView,
    blocks: Seq<JsonView>,
    at: int,
    line: Seq<char>,
)
    requires
        value is Object,
        json::member(value, "content"@) == Some(content),
        json::member(content, "blocks"@) == Some(JsonView::Array(blocks)),
        0 <= at < blocks.len(),
        is_text_block(blocks[at]),
        is_plain_block(blocks[at], line),
        is_line(line),
    ensures
        article::article_in(Some(value)) matches Some(found) && {
            &&& text::contains(found.text, line)
            &&& text::contains(found.markdown, line)
        },
{
    let entities = spans::entities_in(json::member(content, "entityMap"@));
    let entries = crate::media::entries_in(
        json::items_in(json::member(value, "media_entities"@)),
    );
    law_bodies_hold_every_block(blocks, entities, entries, at, line);
    law_blocks_become_paragraphs(blocks, entities, entries, at, line);
    law_paragraphs_stay(blocks, entities, entries, at + 1);
    law_plain_blocks_are_their_own_markdown(blocks[at], entities, line);
    let before = article::draft_of(blocks.take(at), entities, entries);
    let after = article::draft_of(blocks.take(at + 1), entities, entries);
    let all = article::draft_of(blocks, entities, entries);
    let place = before.markdown.len() as int;
    let written = after.markdown[place];
    assert(blocks.take(at + 1).drop_last() == blocks.take(at));
    assert(blocks.take(at + 1).last() == blocks[at]);
    assert(spans::block_text(blocks[at]) == line);
    let kind = article::block_kind(blocks[at]);
    let depth = spans::offset_in(json::member(blocks[at], "depth"@));
    lemma_kinds_are_different();
    assert(written == article::block_markdown(kind, depth, line));
    lemma_form_is_one_line(kind, depth, line);
    lemma_ends_with_body(kind, depth, line);
    assert(text::occurs_at(written, line, written.len() - line.len()));
    assert(written.subrange(written.len() - line.len(), written.len() as int)[line.len() - 1]
        == written[written.len() - 1]);
    assert(all.markdown[place] == written);
    lemma_finished(all.markdown, place, line);
    let text_place = before.text.len() as int;
    assert(all.text[text_place] == after.text[text_place]);
    assert(line.subrange(0, line.len() as int) == line);
    assert(text::occurs_at(line, line, 0));
    lemma_finished(all.text, text_place, line);
}

/// The title, the ID, the preview and the cover of an article are those of its
/// document.
pub proof fn law_articles_come_from_their_members(
    value: JsonView,
    title: Seq<char>,
    id: Seq<char>,
    preview: Seq<char>,
    cover: JsonView,
    info: JsonView,
    url: Seq<char>,
)
    requires
        value is Object,
        has_text(value, "title"@, title),
        !text::is_blank(title),
    ensures
        article::article_in(Some(value)) matches Some(found) && {
            &&& found.title == Some(title)
            &&& has_text(value, "id"@, id) ==> found.id == Some(id)
            &&& json::member(value, "id"@) is None && has_text(value, "rest_id"@, id) ==> found.id
                == Some(id)
            &&& has_text(value, "preview_text"@, preview) && !text::is_blank(preview)
                ==> found.preview_text == Some(preview)
            &&& json::member(value, "preview_text"@) is None ==> found.preview_text is None
            &&& json::member(value, "cover_media"@) == Some(cover) && json::member(
                cover,
                "media_info"@,
            ) == Some(info) && has_text(info, "original_img_url"@, url) ==> found.cover_media_url
                == Some(url)
            &&& json::member(value, "cover_media"@) is None ==> found.cover_media_url is None
        },
        article::article_in(None) is None,
        !(value is Object) ==> article::article_in(Some(value)) is None,
{
}

/// An article without blocks shows its plain text, else its text, else its
/// preview.
pub proof fn law_articles_without_blocks(value: JsonView, shown: Seq<char>)
    requires
        value is Object,
        json::member(value, "content"@) is None,
        json::member(value, "content_state"@) is None,
        json::member(value, "entities"@) is None,
        !text::is_blank(shown),
        has_text(value, "plain_text"@, shown) || (json::member(value, "plain_text"@) is None
            && has_text(value, "text"@, shown)) || (json::member(value, "plain_text"@) is None
            && json::member(value, "text"@) is None && has_text(value, "preview_text"@, shown)),
    ensures
        article::article_in(Some(value)) matches Some(found) && found.text == shown
            && found.markdown == shown,
{
    let none = Seq::<Seq<char>>::empty();
    let entries = crate::media::entries_in(
        json::items_in(json::member(value, "media_entities"@)),
    );
    let draft = article::draft_of(Seq::empty(), spans::entities_in(None), entries);
    assert(draft == article::empty_draft());
    assert(text::join(none, "\n\n"@) == Seq::<char>::empty());
    assert(text::split(Seq::empty(), '\n') == seq![Seq::<char>::empty()]);
    assert(text::lines(Seq::empty()) == Seq::<Seq<char>>::empty());
    assert(text::collapse(Seq::empty()) == Seq::<char>::empty());
    assert(article::expand_entities(shown, Seq::empty()) == shown);
    assert(shown.len() > 0) by {
        if shown.len() == 0 {
            assert(text::trim(shown).len() == 0);
        }
    }
}

// ----------------------------------------------------------------------
// Styles and links of whole blocks

proof fn lemma_one_segment(ranges: Seq<InlineStyleRange>, end: int, last: int)
    requires
        0 <= last < end,
        forall|at: int| 0 < at < end ==> !(#[trigger] styles::is_cut(ranges, 0, end, at)),
    ensures
        styles::cuts_up_to(ranges, 0, end, last) == seq![0int],
    decreases last,
{
    if last > 0 {
        lemma_one_segment(ranges, end, last - 1);
        assert(!styles::is_cut(ranges, 0, end, last));
    } else {
        assert(styles::cuts_up_to(ranges, 0, end, -1) == Seq::<int>::empty());
        assert(styles::is_cut(ranges, 0, end, 0));
        assert(Seq::<int>::empty().push(0) == seq![0int]);
    }
}

/// A style on the whole of a text puts its marker on both sides.
proof fn lemma_one_style(units: Seq<u16>, value: Seq<char>, style: ArticleInlineStyle)
    requires
        units.len() > 0,
        units.len() <= usize::MAX,
        utf16::decode(units) == Some(value),
    ensures
        styles::styled_text(
            units,
            seq![InlineStyleRange { end: units.len() as usize, start: 0, style }],
            0,
            units.len() as int,
            false,
        ) == styles::marker(style) + value + styles::marker(style),
{
    let end = units.len() as int;
    let range = InlineStyleRange { end: units.len() as usize, start: 0, style };
    let ranges = seq![range];
    assert forall|at: int| 0 < at < end implies !(#[trigger] styles::is_cut(ranges, 0, end, at)) by {}
    lemma_one_segment(ranges, end, end - 1);
    assert(styles::is_cut(ranges, 0, end, end));
    let points = styles::cuts(ranges, 0, end);
    assert(points == seq![0int, end]);
    let nothing = Seq::<ArticleInlineStyle>::empty();
    let one = seq![style];
    assert(ranges[0].style == style);
    assert(styles::covered(ranges, style, 0, end));
    assert forall|other: ArticleInlineStyle| other != style implies !(#[trigger] styles::covered(
        ranges,
        other,
        0,
        end,
    )) by {}
    assert(styles::target_styles(ranges, 0, end) == one) by {
        match style {
            ArticleInlineStyle::Bold => {
                assert(!styles::covered(ranges, ArticleInlineStyle::Code, 0, end));
                assert(!styles::covered(ranges, ArticleInlineStyle::Italic, 0, end));
                assert(!styles::covered(ranges, ArticleInlineStyle::Strikethrough, 0, end));
                assert(nothing.push(style) == one);
            },
            ArticleInlineStyle::Italic => {
                assert(!styles::covered(ranges, ArticleInlineStyle::Code, 0, end));
                assert(!styles::covered(ranges, ArticleInlineStyle::Bold, 0, end));
                assert(!styles::covered(ranges, ArticleInlineStyle::Strikethrough, 0, end));
                assert(nothing.push(style) == one);
            },
            ArticleInlineStyle::Strikethrough => {
                assert(!styles::covered(ranges, ArticleInlineStyle::Code, 0, end));
                assert(!styles::covered(ranges, ArticleInlineStyle::Bold, 0, end));
                assert(!styles::covered(ranges, ArticleInlineStyle::Italic, 0, end));
                assert(nothing.push(style) == one);
            },
            ArticleInlineStyle::Code => {},
        }
    }
    assert(styles::active_after(ranges, points, 1) == one);
    assert(styles::common(nothing, one) == 0);
    assert(styles::closing(nothing, 0) == Seq::<Piece>::empty());
    assert(styles::opening(one, 0, 0) == Seq::<Piece>::empty());
    assert(styles::opening(one, 0, 1) == seq![Piece::Open(style)]);
    assert(styles::transition(nothing, one) == seq![Piece::Open(style)]);
    assert(units.subrange(0, end) == units);
    let piece = Piece::Text(value);
    assert(styles::pieces_of(units, ranges, points, false, 0) == Seq::<Piece>::empty());
    assert(styles::pieces_of(units, ranges, points, false, 1) == seq![Piece::Open(style), piece]);
    assert(styles::closing(one, 1) == Seq::<Piece>::empty());
    assert(styles::closing(one, 0) == seq![Piece::Close(style)]);
    let all = seq![Piece::Open(style), piece, Piece::Close(style)];
    assert(styles::styled_pieces(units, ranges, 0, end, false) == all);
    let two = all.drop_last();
    let first = two.drop_last();
    assert(first.drop_last() == Seq::<Piece>::empty());
    assert(styles::spell(Seq::empty()) == Seq::<char>::empty());
    assert(styles::spell(first) == Seq::<char>::empty() + styles::marker(style));
    assert(styles::spell(two) == styles::spell(first) + value);
    assert(styles::spell(all) == styles::spell(two) + styles::marker(style));
    assert(Seq::<char>::empty() + styles::marker(style) == styles::marker(style));
}

/// Every style has its own markers: a text that is bold as a whole stands
/// between two asterisks on each side, one in italics between underscores, one
/// struck through between two tildes, and code between backticks; a style that
/// is none of these leaves the text as it is.
pub proof fn law_styles_have_their_markers(
    block: JsonView,
    entities: Seq<(Seq<char>, JsonView)>,
    value: Seq<char>,
    range: JsonView,
    name: Seq<char>,
    length: u64,
)
    requires
        has_text(block, "text"@, value),
        value.len() > 0,
        !text::is_whitespace(value.last()),
        json::member(block, "entityRanges"@) is None,
        json::member(block, "inlineStyleRanges"@) == Some(JsonView::Array(seq![range])),
        has_text(range, "style"@, name),
        has_count(range, "offset"@, 0),
        has_count(range, "length"@, length),
        length == utf16::encode(value).len(),
        length <= usize::MAX,
    ensures
        ({
            let written = spans::inline_content(block, entities).markdown;
            &&& name == "BOLD"@ ==> written == "**"@ + value + "**"@
            &&& name == "ITALIC"@ ==> written == "_"@ + value + "_"@
            &&& name == "STRIKETHROUGH"@ ==> written == "~~"@ + value + "~~"@
            &&& name == "CODE"@ || name == "MONOSPACE"@ ==> written == "`"@ + value + "`"@
            &&& name == "UNDERLINE"@ || name == "COLOR"@ ==> written == value
        }),
{
    let units = utf16::encode(value);
    assert(spans::block_text(block) == value);
    utf16::law_utf16_round_trip(value);
    assert(units.len() > 0) by {
        assert(value == value.drop_last().push(value.last()));
    }
    assert(spans::links_on(Seq::empty(), entities, value) == Seq::<spans::InlineLinkView>::empty());
    assert(spans::by_start(Seq::empty()) == Seq::<spans::InlineLinkView>::empty());
    let given = seq![range];
    assert(given.drop_last() == Seq::<JsonView>::empty());
    assert(styles::style_ranges_in(given.drop_last(), length as usize) == Seq::<
        InlineStyleRange,
    >::empty());
    lemma_style_names();
    let none = Seq::<char>::empty();
    assert(none + value == value);
    if let Some(style) = styles::style_named(name) {
        let found = InlineStyleRange { end: length as usize, start: 0, style };
        assert(styles::style_range_in(range, length as usize) == Some(found));
        assert(styles::style_ranges_in(given, length as usize) == seq![found]);
        lemma_one_style(units, value, style);
        let written = styles::marker(style) + value + styles::marker(style);
        assert(none + written == written);
    } else {
        assert(styles::style_ranges_in(given, length as usize) == Seq::<InlineStyleRange>::empty());
        assert(units.subrange(0, units.len() as int) == units);
        lemma_unstyled(units, 0, units.len() as int, value);
    }
}

proof fn lemma_style_names()
    ensures
        "BOLD"@ != "ITALIC"@ && "BOLD"@ != "STRIKETHROUGH"@ && "BOLD"@ != "CODE"@ && "BOLD"@
            != "MONOSPACE"@ && "BOLD"@ != "UNDERLINE"@ && "BOLD"@ != "COLOR"@,
        "ITALIC"@ != "STRIKETHROUGH"@ && "ITALIC"@ != "CODE"@ && "ITALIC"@ != "MONOSPACE"@
            && "ITALIC"@ != "UNDERLINE"@ && "ITALIC"@ != "COLOR"@,
        "STRIKETHROUGH"@ != "CODE"@ && "STRIKETHROUGH"@ != "MONOSPACE"@ && "STRIKETHROUGH"@
            != "UNDERLINE"@ && "STRIKETHROUGH"@ != "COLOR"@,
        "CODE"@ != "UNDERLINE"@ && "CODE"@ != "COLOR"@ && "MONOSPACE"@ != "UNDERLINE"@
            && "MONOSPACE"@ != "COLOR"@,
{
    reveal_strlit("BOLD");
    reveal_strlit("ITALIC");
    reveal_strlit("STRIKETHROUGH");
    reveal_strlit("CODE");
    reveal_strlit("MONOSPACE");
    reveal_strlit("UNDERLINE");
    reveal_strlit("COLOR");
    assert("BOLD"@.len() == 4 && "ITALIC"@.len() == 6 && "STRIKETHROUGH"@.len() == 13 && "CODE"@.len()
        == 4 && "MONOSPACE"@.len() == 9 && "UNDERLINE"@.len() == 9 && "COLOR"@.len() == 5);
    assert("BOLD"@[0] == 'B' && "CODE"@[0] == 'C' && "MONOSPACE"@[0] == 'M' && "UNDERLINE"@[0]
        == 'U');
}

/// A link on the whole of a block becomes a Markdown link with the text as its
/// label, and is among the links of the block.
pub proof fn law_links_on_blocks(
    block: JsonView,
    value: Seq<char>,
    range: JsonView,
    key: Seq<char>,
    entity: JsonView,
    data: JsonView,
    written: Seq<char>,
    href: Seq<char>,
    length: u64,
)
    requires
        has_text(block, "text"@, value),
        value.len() > 0,
        !text::is_whitespace(value.last()),
        json::member(block, "inlineStyleRanges"@) is None,
        json::member(block, "entityRanges"@) == Some(JsonView::Array(seq![range])),
        has_text(range, "key"@, key),
        has_count(range, "offset"@, 0),
        has_count(range, "length"@, length),
        length == utf16::encode(value).len(),
        length <= usize::MAX,
        has_text(entity, "type"@, "LINK"@),
        json::member(entity, "data"@) == Some(data),
        has_text(data, "url"@, written),
        spans::urls_in(written).len() > 0,
        spans::urls_in(written)[0] == href,
    ensures
        ({
            let content = spans::inline_content(block, seq![(key, entity)]);
            &&& content.markdown == "["@ + styles::escape_label(value) + "](<"@ + href + ">)"@
            &&& links::has_href(content.links, href)
        }),
{
    let units = utf16::encode(value);
    let entities = seq![(key, entity)];
    assert(spans::block_text(block) == value);
    utf16::law_utf16_round_trip(value);
    assert(units.len() > 0) by {
        assert(value == value.drop_last().push(value.last()));
    }
    assert(units.subrange(0, units.len() as int) == units);
    assert(entities.last() == (key, entity));
    assert(spans::entity_named(entities, key) == Some(entity));
    reveal_strlit("LINK");
    reveal_strlit("TWEET");
    reveal_strlit("MEDIA");
    assert("LINK"@.len() == 4 && "TWEET"@.len() == 5 && "MEDIA"@.len() == 5);
    let link = spans::InlineLinkView { end: length as usize, href, start: 0, label: value };
    let ranges = seq![range];
    assert(ranges.drop_last() == Seq::<JsonView>::empty());
    let none = Seq::<spans::InlineLinkView>::empty();
    assert(spans::links_on(ranges.drop_last(), entities, value) == none);
    assert(spans::link_on(range, Some(entity), value, Some(href)) == Some(link));
    assert(spans::links_on(ranges, entities, value) == seq![link]);
    let found = seq![link];
    assert(found.drop_last() == none);
    assert(spans::by_start(found.drop_last()) == none);
    assert(spans::insert_by_start(none, link) == none.push(link));
    assert(spans::by_start(found) == found);
    let plain = Seq::<InlineStyleRange>::empty();
    assert(styles::style_ranges_in(Seq::empty(), length as usize) == plain);
    lemma_unstyled(units, 0, units.len() as int, value);
    let nothing = Seq::<char>::empty();
    assert(styles::styled_text(units, plain, 0, 0, false) == nothing) by {
        assert(styles::styled_pieces(units, plain, 0, 0, false) == Seq::<Piece>::empty());
        assert(styles::spell(Seq::empty()) == nothing);
    }
    assert(styles::styled_text(units, plain, units.len() as int, units.len() as int, false)
        == nothing) by {
        assert(styles::styled_pieces(units, plain, units.len() as int, units.len() as int, false)
            == Seq::<Piece>::empty());
        assert(styles::spell(Seq::empty()) == nothing);
    }
    assert(spans::markdown_of_links(units, plain, found.drop_last()) == (nothing, 0int));
    let whole = "["@ + styles::escape_label(value) + "](<"@ + href + ">)"@;
    let (markdown, cursor) = spans::markdown_of_links(units, plain, found);
    assert(cursor == units.len());
    assert(markdown == nothing + nothing + "["@ + styles::escape_label(value) + "](<"@ + href
        + ">)"@);
    assert(markdown == whole);
    assert(whole + nothing == whole);
    let bare = spans::bare_links(spans::urls_in(value));
    let labelled = spans::labelled_links(found);
    assert(labelled == seq![LinkView { href, text: value }]);
    assert(labelled.drop_last() == Seq::<LinkView>::empty());
    assert(links::add_links(bare, labelled.drop_last()) == bare);
    let all = links::add_links(bare, labelled);
    assert(all == links::add_link(bare, LinkView { href, text: value }));
    if !links::has_href(bare, href) {
        assert(all[bare.len() as int].href == href);
    }
}

} // verus!
