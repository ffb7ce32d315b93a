//! The replies of a post out of the document of its conversation.

use vstd::prelude::*;

use crate::error::hinted_error;
use crate::error::result_model;
use crate::error::ErrorKind;
use crate::error::ErrorView;
use crate::error::XReadError;
use crate::json;
use crate::json::Json;
use crate::json::JsonView;
use crate::media;
use crate::model::Post;
use crate::model::PostView;
use crate::model::ReplyMode;
use crate::normalize;
use crate::text;

verus! {

// ----------------------------------------------------------------------
// The post itself

/// The answer where the source did not return the post.
pub open spec fn missing_post() -> ErrorView {
    hinted_error(
        ErrorKind::InvalidResponse,
        "FxTwitter 没有返回目标推文。"@,
        "推文可能不存在、已删除、受保护，或第三方服务暂时异常。"@,
    )
}

/// The answer where the source did not return the post.
pub fn missing_community_post() -> (out: XReadError)
    ensures
        out.deep_view() == missing_post(),
{
    XReadError::invalid_response("FxTwitter 没有返回目标推文。").with_hint(
        "推文可能不存在、已删除、受保护，或第三方服务暂时异常。",
    )
}

/// The post that an answer of the source is about.
pub open spec fn target_post(payload: JsonView) -> Result<PostView, ErrorView> {
    match json::member(payload, "status"@) {
        Some(status) => if normalize::is_status(status) {
            Ok(normalize::post_in(status, 0))
        } else {
            Err(missing_post())
        },
        None => Err(missing_post()),
    }
}

/// Reads the post that an answer of the source is about.
pub fn read_target(payload: &Json) -> (out: Result<Post, XReadError>)
    ensures
        result_model(out) == target_post(payload@),
{
    match payload.get("status") {
        Some(status) => {
            if normalize::is_community_status(status) {
                normalize::normalize_community_post(status, 0)
            } else {
                Err(missing_community_post())
            }
        },
        None => Err(missing_community_post()),
    }
}

// ----------------------------------------------------------------------
// Which replies are chosen

/// The replies chosen so far.
pub struct Selection {
    pub replies: Vec<Post>,
    /// The IDs of the posts that were considered.
    pub seen: Vec<String>,
    /// Whether no more are chosen.
    pub full: bool,
}

/// The model of `Selection`.
pub struct SelectionView {
    pub replies: Seq<PostView>,
    pub seen: Seq<Seq<char>>,
    pub full: bool,
}

impl DeepView for Selection {
    type V = SelectionView;

    open spec fn deep_view(&self) -> SelectionView {
        SelectionView {
            replies: self.replies.deep_view(),
            seen: self.seen.deep_view(),
            full: self.full,
        }
    }
}

/// The choice before any post is considered.
pub open spec fn nothing_chosen() -> SelectionView {
    SelectionView { replies: Seq::empty(), seen: Seq::empty(), full: false }
}

/// The choice after one post more: it is taken unless the choice is full, it is
/// the target itself or was considered before, or only direct replies are
/// wanted and it answers another post.
pub open spec fn consider(
    chosen: SelectionView,
    post: PostView,
    target: Seq<char>,
    mode: Option<ReplyMode>,
    limit: usize,
) -> SelectionView {
    match post.id {
        Some(id) => if chosen.full || id == target || chosen.seen.contains(id) {
            chosen
        } else {
            let seen = chosen.seen.push(id);
            if mode == Some(ReplyMode::Direct) && post.parent_id != Some(target) {
                SelectionView { seen, ..chosen }
            } else {
                let replies = chosen.replies.push(post);
                SelectionView { replies, seen, full: replies.len() >= limit }
            }
        },
        None => chosen,
    }
}

/// The choice among the documents: each that is a post is considered, in order.
pub open spec fn choose_replies(
    candidates: Seq<JsonView>,
    target: Seq<char>,
    mode: Option<ReplyMode>,
    limit: usize,
) -> SelectionView
    decreases candidates.len(),
{
    if candidates.len() == 0 {
        nothing_chosen()
    } else {
        let before = choose_replies(candidates.drop_last(), target, mode, limit);
        if normalize::is_status(candidates.last()) {
            consider(before, normalize::post_in(candidates.last(), 0), target, mode, limit)
        } else {
            before
        }
    }
}

fn is_parent(post: &Post, target: &str) -> (out: bool)
    ensures
        out == (post.deep_view().parent_id == Some(target@)),
{
    match &post.parent_id {
        Some(parent) => text::same(parent.as_str(), target),
        None => false,
    }
}

impl Selection {
    /// The choice before any post is considered.
    pub fn new() -> (out: Self)
        ensures
            out.deep_view() == nothing_chosen(),
    {
        let out = Selection { replies: Vec::new(), seen: Vec::new(), full: false };
        assert(out.replies.deep_view() == Seq::<PostView>::empty());
        assert(out.seen.deep_view() == Seq::<Seq<char>>::empty());
        out
    }

    /// Considers one post more.
    pub fn consider(&mut self, post: Post, target: &str, mode: Option<ReplyMode>, limit: usize)
        ensures
            final(self).deep_view() == consider(
                old(self).deep_view(),
                post.deep_view(),
                target@,
                mode,
                limit,
            ),
    {
        let id = match &post.id {
            Some(id) => id.clone(),
            None => {
                return;
            },
        };
        if self.full || text::same(id.as_str(), target) || text::list_contains(
            &self.seen,
            id.as_str(),
        ) {
            return;
        }
        text::push_line(&mut self.seen, id);
        let direct = match mode {
            Some(ReplyMode::Direct) => true,
            _ => false,
        };
        if direct && !is_parent(&post, target) {
            return;
        }
        let ghost before = self.replies.deep_view();
        let ghost added = post.deep_view();
        self.replies.push(post);
        assert(self.replies.deep_view() == before.push(added));
        assert(self.replies@.len() == self.replies.deep_view().len());
        self.full = self.replies.len() >= limit;
    }

    fn consider_all(
        &mut self,
        candidates: &[Json],
        target: &str,
        mode: Option<ReplyMode>,
        limit: usize,
        Ghost(before): Ghost<Seq<JsonView>>,
    )
        requires
            old(self).deep_view() == choose_replies(before, target@, mode, limit),
        ensures
            final(self).deep_view() == choose_replies(
                before + json::views(candidates@),
                target@,
                mode,
                limit,
            ),
    {
        let ghost model = json::views(candidates@);
        assert(before + model.take(0) == before);
        let mut i: usize = 0;
        while i < candidates.len()
            invariant
                i <= candidates@.len(),
                model == json::views(candidates@),
                self.deep_view() == choose_replies(
                    before + model.take(i as int),
                    target@,
                    mode,
                    limit,
                ),
            decreases candidates.len() - i,
        {
            let ghost next = before + model.take(i + 1);
            assert(next.drop_last() == before + model.take(i as int));
            assert(next.last() == model[i as int]);
            assert(model[i as int] == candidates@[i as int]@);
            if !self.full && normalize::is_community_status(&candidates[i]) {
                let post = normalize::normalize_community_post(&candidates[i], 0);
                assert(post is Ok);
                if let Ok(post) = post {
                    self.consider(post, target, mode, limit);
                }
            }
            i = i + 1;
        }
        assert(model.take(i as int) == model);
    }
}

// ----------------------------------------------------------------------
// A conversation

/// A post and its replies.
pub struct Conversation {
    pub post: Post,
    pub replies: Vec<Post>,
    pub available_count: Option<u64>,
    pub count: usize,
    pub truncated: bool,
}

/// The model of `Conversation`.
pub struct ConversationView {
    pub post: PostView,
    pub replies: Seq<PostView>,
    pub available_count: Option<u64>,
    pub count: usize,
    pub truncated: bool,
}

impl DeepView for Conversation {
    type V = ConversationView;

    open spec fn deep_view(&self) -> ConversationView {
        ConversationView {
            post: self.post.deep_view(),
            replies: self.replies.deep_view(),
            available_count: self.available_count,
            count: self.count,
            truncated: self.truncated,
        }
    }
}

/// The documents among which replies are chosen.
pub open spec fn candidates_in(payload: JsonView, mode: Option<ReplyMode>) -> Seq<JsonView> {
    (if mode == Some(ReplyMode::Thread) {
        json::items_in(json::member(payload, "thread"@))
    } else {
        Seq::empty()
    }) + json::items_in(json::member(payload, "replies"@))
}

/// Whether an answer of which `shown` replies are chosen leaves some out: the
/// source says that there are more, or counts more.
pub open spec fn leaves_out(payload: JsonView, available: Option<u64>, shown: nat) -> bool {
    ||| (media::inner(payload, "cursor"@, "bottom"@) matches Some(cursor) && json::is_truthy(cursor))
    ||| (available matches Some(available) && available > shown)
}

/// The conversation that an answer of the source describes.
pub open spec fn conversation_in(
    payload: JsonView,
    target: Seq<char>,
    mode: Option<ReplyMode>,
    limit: usize,
) -> Result<ConversationView, ErrorView> {
    match target_post(payload) {
        Ok(post) => {
            let replies = choose_replies(
                candidates_in(payload, mode),
                target,
                mode,
                limit,
            ).replies;
            let available = json::number_in(media::inner(payload, "status"@, "replies"@));
            Ok(
                ConversationView {
                    post,
                    replies,
                    available_count: available,
                    count: replies.len() as usize,
                    truncated: leaves_out(payload, available, replies.len()),
                },
            )
        },
        Err(error) => Err(error),
    }
}

fn find_left_out(payload: &Json, available: Option<u64>, shown: usize) -> (out: bool)
    ensures
        out == leaves_out(payload@, available, shown as nat),
{
    let more = match media::get_inner(payload, "cursor", "bottom") {
        Some(cursor) => json::truthy(cursor),
        None => false,
    };
    let counted = match available {
        Some(available) => available > shown as u64,
        None => false,
    };
    more || counted
}

/// Reads a conversation.
pub fn read_conversation(
    payload: &Json,
    target: &str,
    mode: Option<ReplyMode>,
    limit: usize,
) -> (out: Result<Conversation, XReadError>)
    ensures
        result_model(out) == conversation_in(payload@, target@, mode, limit),
{
    let post = match read_target(payload) {
        Ok(post) => post,
        Err(error) => {
            return Err(error);
        },
    };
    let mut chosen = Selection::new();
    let ghost thread = if mode == Some(ReplyMode::Thread) {
        json::items_in(json::member(payload@, "thread"@))
    } else {
        Seq::empty()
    };
    match mode {
        Some(ReplyMode::Thread) => {
            let items = json::items_of(payload.get("thread"));
            chosen.consider_all(items, target, mode, limit, Ghost(Seq::empty()));
            assert(Seq::<JsonView>::empty() + thread == thread);
        },
        _ => {},
    }
    let items = json::items_of(payload.get("replies"));
    chosen.consider_all(items, target, mode, limit, Ghost(thread));
    let available_count = json::number_of(media::get_inner(payload, "status", "replies"));
    assert(chosen.replies@.len() == chosen.replies.deep_view().len());
    let count: usize = chosen.replies.len();
    let truncated = find_left_out(payload, available_count, count);
    Ok(Conversation { post, replies: chosen.replies, available_count, count, truncated })
}

// ----------------------------------------------------------------------
// Laws

/// Whether a chosen reply is what the caller asked for: it has an ID that was
/// considered, is not the target, and answers it where only direct replies are wanted.
pub open spec fn is_wanted(
    chosen: SelectionView,
    i: int,
    target: Seq<char>,
    mode: Option<ReplyMode>,
) -> bool {
    let reply = chosen.replies[i];
    &&& reply.id matches Some(id) && id != target && chosen.seen.contains(id)
    &&& mode == Some(ReplyMode::Direct) ==> reply.parent_id == Some(target)
}

/// Whether no two of the posts have the same ID.
pub open spec fn ids_are_unique(posts: Seq<PostView>) -> bool {
    forall|i: int, j: int|
        0 <= i < j < posts.len() ==> (#[trigger] posts[i]).id != (#[trigger] posts[j]).id
}

proof fn lemma_consider(
    chosen: SelectionView,
    post: PostView,
    target: Seq<char>,
    mode: Option<ReplyMode>,
    limit: usize,
)
    requires
        forall|i: int| 0 <= i < chosen.replies.len() ==> #[trigger] is_wanted(chosen, i, target, mode),
        ids_are_unique(chosen.replies),
        !chosen.full && limit >= 1 ==> chosen.replies.len() < limit,
        limit >= 1 ==> chosen.replies.len() <= limit,
    ensures
        ({
            let after = consider(chosen, post, target, mode, limit);
            &&& forall|i: int|
                0 <= i < after.replies.len() ==> #[trigger] is_wanted(after, i, target, mode)
            &&& ids_are_unique(after.replies)
            &&& !after.full && limit >= 1 ==> after.replies.len() < limit
            &&& limit >= 1 ==> after.replies.len() <= limit
        }),
{
    let after = consider(chosen, post, target, mode, limit);
    if let Some(id) = post.id {
        if !chosen.full && id != target && !chosen.seen.contains(id) {
            assert(after.seen[chosen.seen.len() as int] == id);
            assert forall|other: Seq<char>| chosen.seen.contains(other) implies after.seen.contains(
                other,
            ) by {
                let at = choose|at: int| 0 <= at < chosen.seen.len() && chosen.seen[at] == other;
                assert(after.seen[at] == other);
            }
            assert forall|i: int| 0 <= i < after.replies.len() implies #[trigger] is_wanted(
                after,
                i,
                target,
                mode,
            ) by {
                if i < chosen.replies.len() {
                    assert(is_wanted(chosen, i, target, mode));
                    assert(after.replies[i] == chosen.replies[i]);
                }
            }
            assert forall|i: int, j: int| 0 <= i < j < after.replies.len() implies (
            #[trigger] after.replies[i]).id != (#[trigger] after.replies[j]).id by {
                assert(is_wanted(chosen, i, target, mode));
                assert(after.replies[i] == chosen.replies[i]);
                if j < chosen.replies.len() {
                    assert(after.replies[j] == chosen.replies[j]);
                }
            }
        }
    }
}

proof fn lemma_choice(
    candidates: Seq<JsonView>,
    target: Seq<char>,
    mode: Option<ReplyMode>,
    limit: usize,
)
    ensures
        ({
            let chosen = choose_replies(candidates, target, mode, limit);
            &&& forall|i: int|
                0 <= i < chosen.replies.len() ==> #[trigger] is_wanted(chosen, i, target, mode)
            &&& ids_are_unique(chosen.replies)
            &&& !chosen.full && limit >= 1 ==> chosen.replies.len() < limit
            &&& limit >= 1 ==> chosen.replies.len() <= limit
        }),
    decreases candidates.len(),
{
    if candidates.len() > 0 {
        lemma_choice(candidates.drop_last(), target, mode, limit);
        lemma_consider(
            choose_replies(candidates.drop_last(), target, mode, limit),
            normalize::post_in(candidates.last(), 0),
            target,
            mode,
            limit,
        );
    }
}

/// Of a conversation at most `limit` replies are returned, no two with the same
/// ID, none of them the post itself, and where only direct replies are wanted
/// each of them answers the post.
pub proof fn law_replies_are_wanted(
    payload: JsonView,
    target: Seq<char>,
    mode: Option<ReplyMode>,
    limit: usize,
)
    requires
        limit >= 1,
    ensures
        conversation_in(payload, target, mode, limit) matches Ok(conversation) ==> {
            &&& conversation.replies.len() <= limit
            &&& conversation.count == conversation.replies.len()
            &&& ids_are_unique(conversation.replies)
            &&& forall|i: int|
                0 <= i < conversation.replies.len() ==> {
                    &&& (#[trigger] conversation.replies[i]).id is Some
                    &&& conversation.replies[i].id != Some(target)
                    &&& mode == Some(ReplyMode::Direct) ==> conversation.replies[i].parent_id
                        == Some(target)
                }
        },
{
    let candidates = candidates_in(payload, mode);
    let chosen = choose_replies(candidates, target, mode, limit);
    lemma_choice(candidates, target, mode, limit);
    assert forall|i: int| 0 <= i < chosen.replies.len() implies {
        &&& (#[trigger] chosen.replies[i]).id is Some
        &&& chosen.replies[i].id != Some(target)
        &&& mode == Some(ReplyMode::Direct) ==> chosen.replies[i].parent_id == Some(target)
    } by {
        assert(is_wanted(chosen, i, target, mode));
    }
}

/// Whether `part` is made of some of `whole`, in their order: `at` says where
/// each stands.
pub open spec fn stand_in_order(part: Seq<PostView>, whole: Seq<PostView>, at: Seq<int>) -> bool {
    &&& at.len() == part.len()
    &&& forall|i: int|
        0 <= i < part.len() ==> 0 <= #[trigger] at[i] < whole.len() && whole[at[i]] == part[i]
    &&& forall|i: int, j: int| 0 <= i < j < at.len() ==> #[trigger] at[i] < #[trigger] at[j]
}

/// The posts that the documents describe.
pub open spec fn posts_in(candidates: Seq<JsonView>) -> Seq<PostView> {
    candidates.map_values(|candidate: JsonView| normalize::post_in(candidate, 0))
}

/// The replies come in the order in which the source returned them.
pub proof fn law_replies_keep_their_order(
    candidates: Seq<JsonView>,
    target: Seq<char>,
    mode: Option<ReplyMode>,
    limit: usize,
) -> (at: Seq<int>)
    ensures
        stand_in_order(
            choose_replies(candidates, target, mode, limit).replies,
            posts_in(candidates),
            at,
        ),
    decreases candidates.len(),
{
    if candidates.len() == 0 {
        Seq::empty()
    } else {
        let rest = candidates.drop_last();
        let before = law_replies_keep_their_order(rest, target, mode, limit);
        let chosen = choose_replies(rest, target, mode, limit).replies;
        let after = choose_replies(candidates, target, mode, limit).replies;
        let whole = posts_in(candidates);
        assert forall|i: int| 0 <= i < rest.len() implies posts_in(rest)[i] == #[trigger] whole[i] by {
            assert(rest[i] == candidates[i]);
        }
        if after.len() == chosen.len() {
            assert(after == chosen);
            assert forall|i: int| 0 <= i < chosen.len() implies 0 <= #[trigger] before[i]
                < whole.len() && whole[before[i]] == chosen[i] by {
                assert(posts_in(rest)[before[i]] == whole[before[i]]);
            }
            before
        } else {
            let last = candidates.len() - 1;
            let at = before.push(last);
            assert(whole[last] == normalize::post_in(candidates.last(), 0));
            assert(after == chosen.push(whole[last]));
            assert forall|i: int| 0 <= i < after.len() implies 0 <= #[trigger] at[i] < whole.len()
                && whole[at[i]] == after[i] by {
                if i < chosen.len() {
                    assert(at[i] == before[i]);
                    assert(posts_in(rest)[before[i]] == whole[before[i]]);
                }
            }
            assert forall|i: int, j: int| 0 <= i < j < at.len() implies #[trigger] at[i]
                < #[trigger] at[j] by {
                assert(at[i] == before[i]);
                assert(before[i] < posts_in(rest).len());
                if j < before.len() {
                    assert(at[j] == before[j]);
                }
            }
            at
        }
    }
}

/// Whether a document is a reply that the caller asked for, and the first of
/// the documents with its ID.
pub open spec fn qualifies(
    candidates: Seq<JsonView>,
    at: int,
    target: Seq<char>,
    mode: Option<ReplyMode>,
) -> bool {
    let post = normalize::post_in(candidates[at], 0);
    &&& normalize::is_status(candidates[at])
    &&& post.id matches Some(id) && id != target
    &&& mode == Some(ReplyMode::Direct) ==> post.parent_id == Some(target)
    &&& forall|i: int|
        0 <= i < at && normalize::is_status(#[trigger] candidates[i]) ==> normalize::post_in(
            candidates[i],
            0,
        ).id != post.id
}

/// Only IDs of the documents were considered, and a choice is full only where
/// as many replies are chosen as were asked for.
proof fn lemma_considered(
    candidates: Seq<JsonView>,
    target: Seq<char>,
    mode: Option<ReplyMode>,
    limit: usize,
)
    ensures
        ({
            let chosen = choose_replies(candidates, target, mode, limit);
            &&& chosen.full ==> chosen.replies.len() >= limit
            &&& forall|id: Seq<char>| #[trigger]
                chosen.seen.contains(id) ==> exists|i: int|
                    0 <= i < candidates.len() && normalize::is_status(#[trigger] candidates[i])
                        && normalize::post_in(candidates[i], 0).id == Some(id)
        }),
    decreases candidates.len(),
{
    if candidates.len() > 0 {
        let rest = candidates.drop_last();
        lemma_considered(rest, target, mode, limit);
        let before = choose_replies(rest, target, mode, limit);
        let chosen = choose_replies(candidates, target, mode, limit);
        assert forall|id: Seq<char>| #[trigger] chosen.seen.contains(id) implies exists|i: int|
            0 <= i < candidates.len() && normalize::is_status(#[trigger] candidates[i])
                && normalize::post_in(candidates[i], 0).id == Some(id) by {
            if before.seen.contains(id) {
                let i = choose|i: int|
                    0 <= i < rest.len() && normalize::is_status(#[trigger] rest[i])
                        && normalize::post_in(rest[i], 0).id == Some(id);
                assert(candidates[i] == rest[i]);
            } else {
                let at = choose|at: int| 0 <= at < chosen.seen.len() && chosen.seen[at] == id;
                if at < before.seen.len() {
                    assert(before.seen[at] == id);
                }
                assert(normalize::is_status(candidates[candidates.len() - 1]));
            }
        }
    }
}

proof fn lemma_nothing_left_out(
    candidates: Seq<JsonView>,
    at: int,
    target: Seq<char>,
    mode: Option<ReplyMode>,
    limit: usize,
)
    requires
        0 <= at < candidates.len(),
        qualifies(candidates, at, target, mode),
        !choose_replies(candidates, target, mode, limit).full,
    ensures
        choose_replies(candidates, target, mode, limit).replies.contains(
            normalize::post_in(candidates[at], 0),
        ),
    decreases candidates.len(),
{
    let rest = candidates.drop_last();
    let before = choose_replies(rest, target, mode, limit);
    let chosen = choose_replies(candidates, target, mode, limit);
    let post = normalize::post_in(candidates[at], 0);
    assert(!before.full);
    if at < rest.len() {
        assert forall|i: int| 0 <= i < at && normalize::is_status(#[trigger] rest[i]) implies
            normalize::post_in(rest[i], 0).id != post.id by {
            assert(rest[i] == candidates[i]);
        }
        assert(rest[at] == candidates[at]);
        lemma_nothing_left_out(rest, at, target, mode, limit);
        let place = choose|place: int|
            0 <= place < before.replies.len() && before.replies[place] == post;
        assert(chosen.replies[place] == post);
    } else {
        lemma_considered(rest, target, mode, limit);
        let id = post.id->0;
        if before.seen.contains(id) {
            let i = choose|i: int|
                0 <= i < rest.len() && normalize::is_status(#[trigger] rest[i])
                    && normalize::post_in(rest[i], 0).id == Some(id);
            assert(rest[i] == candidates[i]);
        }
        assert(chosen.replies[before.replies.len() as int] == post);
    }
}

/// No wanted reply is left out: where a conversation holds fewer replies than
/// were asked for, every reply that the caller asked for and that is the first
/// with its ID is among them.
pub proof fn law_no_wanted_reply_is_left_out(
    payload: JsonView,
    target: Seq<char>,
    mode: Option<ReplyMode>,
    limit: usize,
    at: int,
)
    requires
        0 <= at < candidates_in(payload, mode).len(),
        qualifies(candidates_in(payload, mode), at, target, mode),
    ensures
        conversation_in(payload, target, mode, limit) matches Ok(conversation) ==> (
        conversation.replies.len() < limit ==> conversation.replies.contains(
            normalize::post_in(candidates_in(payload, mode)[at], 0),
        )),
{
    let candidates = candidates_in(payload, mode);
    lemma_considered(candidates, target, mode, limit);
    if !choose_replies(candidates, target, mode, limit).full {
        lemma_nothing_left_out(candidates, at, target, mode, limit);
    }
}

/// A direct reading looks at the replies alone, and one of the whole
/// conversation at its earlier posts first: where fewer replies are returned
/// than were asked for, each of those that are first with their ID is returned.
pub proof fn law_replies_come_from_their_members(
    payload: JsonView,
    target: Seq<char>,
    mode: Option<ReplyMode>,
    limit: usize,
    thread: Seq<JsonView>,
    replies: Seq<JsonView>,
    at: int,
)
    requires
        json::member(payload, "thread"@) == Some(JsonView::Array(thread)),
        json::member(payload, "replies"@) == Some(JsonView::Array(replies)),
    ensures
        mode == Some(ReplyMode::Direct) && 0 <= at < replies.len() && qualifies(
            replies,
            at,
            target,
            mode,
        ) ==> (conversation_in(payload, target, mode, limit) matches Ok(conversation) ==> (
        conversation.replies.len() < limit ==> conversation.replies.contains(
            normalize::post_in(replies[at], 0),
        ))),
        mode == Some(ReplyMode::Thread) && 0 <= at < thread.len() + replies.len() && qualifies(
            thread + replies,
            at,
            target,
            mode,
        ) ==> (conversation_in(payload, target, mode, limit) matches Ok(conversation) ==> (
        conversation.replies.len() < limit ==> conversation.replies.contains(
            normalize::post_in((thread + replies)[at], 0),
        ))),
{
    if mode == Some(ReplyMode::Direct) && 0 <= at < replies.len() && qualifies(
        replies,
        at,
        target,
        mode,
    ) {
        assert(candidates_in(payload, mode) == replies);
        law_no_wanted_reply_is_left_out(payload, target, mode, limit, at);
    }
    if mode == Some(ReplyMode::Thread) && 0 <= at < thread.len() + replies.len() && qualifies(
        thread + replies,
        at,
        target,
        mode,
    ) {
        law_no_wanted_reply_is_left_out(payload, target, mode, limit, at);
    }
}

/// A direct reading returns nothing that is not among the replies, and one of
/// the whole conversation nothing that is in neither list.
pub proof fn law_nothing_else_is_a_reply(
    payload: JsonView,
    target: Seq<char>,
    mode: Option<ReplyMode>,
    limit: usize,
    thread: Seq<JsonView>,
    replies: Seq<JsonView>,
    at: int,
)
    requires
        json::member(payload, "thread"@) == Some(JsonView::Array(thread)),
        json::member(payload, "replies"@) == Some(JsonView::Array(replies)),
    ensures
        conversation_in(payload, target, mode, limit) matches Ok(conversation) ==> (0 <= at
            < conversation.replies.len() ==> {
            ||| exists|i: int|
                0 <= i < replies.len() && conversation.replies[at] == normalize::post_in(
                    #[trigger] replies[i],
                    0,
                )
            ||| mode == Some(ReplyMode::Thread) && exists|i: int|
                0 <= i < thread.len() && conversation.replies[at] == normalize::post_in(
                    #[trigger] thread[i],
                    0,
                )
        }),
{
    let candidates = candidates_in(payload, mode);
    if let Ok(conversation) = conversation_in(payload, target, mode, limit) {
        if 0 <= at < conversation.replies.len() {
            lemma_chosen_from(candidates, target, mode, limit, at);
            let i = choose|i: int|
                0 <= i < candidates.len() && conversation.replies[at] == normalize::post_in(
                    #[trigger] candidates[i],
                    0,
                );
            if mode == Some(ReplyMode::Thread) {
                if i < thread.len() {
                    assert(candidates[i] == thread[i]);
                } else {
                    assert(candidates[i] == replies[i - thread.len()]);
                }
            } else {
                assert(candidates[i] == replies[i]);
            }
        }
    }
}

proof fn lemma_chosen_from(
    candidates: Seq<JsonView>,
    target: Seq<char>,
    mode: Option<ReplyMode>,
    limit: usize,
    at: int,
)
    requires
        0 <= at < choose_replies(candidates, target, mode, limit).replies.len(),
    ensures
        exists|i: int|
            0 <= i < candidates.len() && choose_replies(candidates, target, mode, limit).replies[at]
                == normalize::post_in(#[trigger] candidates[i], 0),
    decreases candidates.len(),
{
    if candidates.len() > 0 {
        let rest = candidates.drop_last();
        let last = candidates.len() - 1;
        let before = choose_replies(rest, target, mode, limit);
        let after = choose_replies(candidates, target, mode, limit);
        if at < before.replies.len() {
            lemma_chosen_from(rest, target, mode, limit, at);
            let i = choose|i: int|
                0 <= i < rest.len() && before.replies[at] == normalize::post_in(
                    #[trigger] rest[i],
                    0,
                );
            assert(candidates[i] == rest[i]);
            assert(after.replies[at] == before.replies[at]);
        } else {
            assert(after.replies[at] == normalize::post_in(candidates[last], 0));
        }
    }
}

/// A conversation is said to be cut off where the source has a cursor to more or
/// counts more replies than are returned, and only there; it has the post and
/// the count that the source gives.
pub proof fn law_more_replies_are_told(
    payload: JsonView,
    status: JsonView,
    target: Seq<char>,
    mode: Option<ReplyMode>,
    limit: usize,
    available: u64,
)
    requires
        json::member(payload, "status"@) == Some(status),
        json::member(status, "replies"@) matches Some(JsonView::Number(number)) && number.unsigned
            == Some(available),
    ensures
        normalize::is_status(status) <==> conversation_in(payload, target, mode, limit) is Ok,
        conversation_in(payload, target, mode, limit) matches Err(error) ==> error.kind
            == ErrorKind::InvalidResponse,
        conversation_in(payload, target, mode, limit) matches Ok(conversation) ==> {
            &&& conversation.post == normalize::post_in(status, 0)
            &&& conversation.available_count == Some(available)
            &&& available > conversation.replies.len() ==> conversation.truncated
            &&& available <= conversation.replies.len() && json::member(payload, "cursor"@) is None
                ==> !conversation.truncated
            &&& json::member(payload, "cursor"@) matches Some(cursor) ==> (json::member(
                cursor,
                "bottom"@,
            ) matches Some(JsonView::Text(bottom)) ==> (bottom.len() > 0
                ==> conversation.truncated))
        },
{
}

} // verus!
