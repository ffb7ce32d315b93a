//! Lists of links, and the addresses in them.

use vstd::prelude::*;

use crate::model::Link;
use crate::model::LinkView;
use crate::text;

verus! {

/// An address of the service under its present name.
pub open spec fn x_url(value: Seq<char>) -> Seq<char> {
    match text::strip_prefix(value, "https://twitter.com"@) {
        Some(rest) => "https://x.com"@ + rest,
        None => value,
    }
}

/// Brings an address of the service under its present name.
pub fn normalize_x_url(value: &str) -> (out: String)
    ensures
        out@ == x_url(value@),
{
    match text::text_strip_prefix(value, "https://twitter.com") {
        Some(rest) => text::cat2("https://x.com", rest),
        None => value.to_owned(),
    }
}

/// Whether one of the links goes to `href`.
pub open spec fn has_href(links: Seq<LinkView>, href: Seq<char>) -> bool {
    exists|i: int| 0 <= i < links.len() && (#[trigger] links[i]).href == href
}

/// `links` with one more, unless there is one to the same place.
pub open spec fn add_link(links: Seq<LinkView>, link: LinkView) -> Seq<LinkView> {
    if has_href(links, link.href) {
        links
    } else {
        links.push(link)
    }
}

/// `links` with more, one after the other.
pub open spec fn add_links(links: Seq<LinkView>, more: Seq<LinkView>) -> Seq<LinkView>
    decreases more.len(),
{
    if more.len() == 0 {
        links
    } else {
        add_link(add_links(links, more.drop_last()), more.last())
    }
}

/// The first link to every place, in order.
pub open spec fn unique(links: Seq<LinkView>) -> Seq<LinkView> {
    add_links(Seq::empty(), links)
}

/// Decides `has_href`.
pub fn knows_href(links: &Vec<Link>, href: &str) -> (out: bool)
    ensures
        out == has_href(links.deep_view(), href@),
{
    let ghost model = links.deep_view();
    let mut i: usize = 0;
    while i < links.len()
        invariant
            i <= links@.len(),
            model == links.deep_view(),
            forall|j: int| 0 <= j < i ==> (#[trigger] model[j]).href != href@,
        decreases links.len() - i,
    {
        assert(model[i as int] == links@[i as int].deep_view());
        if text::same(links[i].href.as_str(), href) {
            return true;
        }
        i = i + 1;
    }
    false
}

/// Adds a link, unless there is one to the same place.
pub fn push_link(links: &mut Vec<Link>, link: Link)
    ensures
        final(links).deep_view() == add_link(old(links).deep_view(), link.deep_view()),
{
    if !knows_href(links, link.href.as_str()) {
        let ghost before = links.deep_view();
        let ghost added = link.deep_view();
        links.push(link);
        assert(links.deep_view() == before.push(added));
    }
}

/// Adds links, one after the other.
pub fn push_links(links: &mut Vec<Link>, more: &Vec<Link>)
    ensures
        final(links).deep_view() == add_links(old(links).deep_view(), more.deep_view()),
{
    let ghost start = links.deep_view();
    let ghost model = more.deep_view();
    let mut i: usize = 0;
    while i < more.len()
        invariant
            i <= more@.len(),
            model == more.deep_view(),
            model.len() == more@.len(),
            links.deep_view() == add_links(start, model.take(i as int)),
        decreases more.len() - i,
    {
        assert(model.take(i + 1).drop_last() == model.take(i as int));
        assert(model[i as int] == more@[i as int].deep_view());
        push_link(links, more[i].clone());
        i = i + 1;
    }
    assert(model.take(i as int) == model);
}

/// Keeps the first link to every place.
pub fn unique_links(links: &Vec<Link>) -> (out: Vec<Link>)
    ensures
        out.deep_view() == unique(links.deep_view()),
{
    let mut out: Vec<Link> = Vec::new();
    assert(out.deep_view() == Seq::<LinkView>::empty());
    push_links(&mut out, links);
    out
}

/// Whether no two of the links go to the same place.
pub open spec fn are_unique(links: Seq<LinkView>) -> bool {
    forall|i: int, j: int|
        0 <= i < j < links.len() ==> (#[trigger] links[i]).href != (#[trigger] links[j]).href
}

/// Links added to links without repetition leave them so: the old ones stay in
/// front, and every place of the new ones is there.
pub proof fn law_added_links_are_unique(links: Seq<LinkView>, more: Seq<LinkView>)
    requires
        are_unique(links),
    ensures
        are_unique(add_links(links, more)),
        links.len() <= add_links(links, more).len(),
        add_links(links, more).take(links.len() as int) == links,
        forall|i: int|
            0 <= i < more.len() ==> has_href(add_links(links, more), (#[trigger] more[i]).href),
    decreases more.len(),
{
    if more.len() == 0 {
        assert(links.take(links.len() as int) == links);
    } else {
        let rest = more.drop_last();
        law_added_links_are_unique(links, rest);
        let before = add_links(links, rest);
        let after = add_links(links, more);
        assert(after.take(links.len() as int) == before.take(links.len() as int));
        assert forall|href: Seq<char>| has_href(before, href) implies has_href(after, href) by {
            let i = choose|i: int| 0 <= i < before.len() && (#[trigger] before[i]).href == href;
            assert(after[i].href == href);
        }
        assert forall|i: int| 0 <= i < more.len() implies has_href(
            after,
            (#[trigger] more[i]).href,
        ) by {
            if i < rest.len() {
                assert(rest[i] == more[i]);
            } else if !has_href(before, more[i].href) {
                assert(after[before.len() as int].href == more[i].href);
            }
        }
        assert forall|i: int, j: int| 0 <= i < j < after.len() implies (#[trigger] after[i]).href
            != (#[trigger] after[j]).href by {
            if j == before.len() {
                assert(before[i].href == after[i].href);
            }
        }
    }
}

/// An address of the service under its former name moves to the present one
/// and keeps what stands behind it; every other address stays.
pub proof fn law_addresses_move_to_the_present_name(rest: Seq<char>)
    ensures
        x_url("https://twitter.com"@ + rest) == "https://x.com"@ + rest,
        x_url("https://x.com"@ + rest) == "https://x.com"@ + rest,
        !text::starts_with(rest, "https://twitter.com"@) ==> x_url(rest) == rest,
{
    reveal_strlit("https://twitter.com");
    reveal_strlit("https://x.com");
    let former = "https://twitter.com"@ + rest;
    let present = "https://x.com"@ + rest;
    assert(former.subrange(0, 19) == "https://twitter.com"@);
    assert(former.skip(19) == rest);
    assert(!text::starts_with(present, "https://twitter.com"@)) by {
        if text::starts_with(present, "https://twitter.com"@) {
            assert(present.subrange(0, 19)[8] == 'x');
        }
    }
}

/// Of two links to one place the first stays, with its own name; a link to
/// another place is added at the end.
pub proof fn law_the_first_link_stays(links: Seq<LinkView>, link: LinkView, at: int)
    ensures
        0 <= at < links.len() && links[at].href == link.href ==> add_link(links, link) == links,
        (forall|i: int| 0 <= i < links.len() ==> (#[trigger] links[i]).href != link.href)
            ==> add_link(links, link) == links.push(link),
{
}

} // verus!
