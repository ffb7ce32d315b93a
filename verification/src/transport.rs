//! What becomes of the answers of the upstream services: errors, retries and delays.

use vstd::prelude::*;

use crate::bridge;
use crate::double;
use crate::error::plain_error;
use crate::error::ErrorKind;
use crate::error::ErrorView;
use crate::error::XReadError;
use crate::json;
use crate::json::Json;
use crate::json::JsonView;
use crate::text;
use vstd::arithmetic::power2::pow2;
use vstd::string::StrSliceExecFns;

verus! {

// ----------------------------------------------------------------------
// Errors of the services

/// A member stands inside its document.
pub proof fn lemma_member_is_smaller(
    value: JsonView,
    members: Seq<(Seq<char>, JsonView)>,
    name: Seq<char>,
    from: int,
)
    requires
        value == JsonView::Object(members),
        0 <= from,
    ensures
        json::member_from(members, name, from) matches Some(inside) ==> decreases_to!(
            value => inside
        ),
    decreases members.len() - from,
{
    if from < members.len() {
        if members[from].0 == name {
            assert(decreases_to!(value => value->Object_0));
            assert(decreases_to!(members => members[from]));
            assert(decreases_to!(members[from] => members[from].1));
        } else {
            lemma_member_is_smaller(value, members, name, from + 1);
        }
    }
}

/// What a service says of its errors.
pub open spec fn error_details(value: JsonView) -> Seq<char>
    decreases value,
{
    proof {
        if let JsonView::Object(members) = value {
            lemma_member_is_smaller(value, members, "errors"@, 0);
        }
    }
    match json::member(value, "errors"@) {
        Some(errors) => error_details(errors),
        None => match value {
            JsonView::Array(items) => text::join(text::drop_empty(all_details(items)), "；"@),
            JsonView::Object(_) => {
                let details = json::or(
                    json::or(
                        json::text_in(json::member(value, "detail"@)),
                        json::text_in(json::member(value, "message"@)),
                    ),
                    json::text_in(json::member(value, "title"@)),
                );
                match details {
                    Some(details) => details,
                    None => ""@,
                }
            },
            JsonView::Text(value) => value,
            _ => ""@,
        },
    }
}

/// What a service says of each of its errors.
pub open spec fn all_details(items: Seq<JsonView>) -> Seq<Seq<char>>
    decreases items,
{
    if items.len() == 0 {
        Seq::empty()
    } else {
        all_details(items.drop_last()).push(error_details(items.last()))
    }
}

/// Reads what a service says of its errors.
pub fn format_error_details(value: &Json) -> (out: String)
    ensures
        out@ == error_details(value@),
    decreases value,
{
    if let Some(errors) = value.get("errors") {
        return format_error_details(errors);
    }
    match value {
        Json::Array(items) => {
            let ghost model = json::views(items@);
            assert(value@->Array_0 == model);
            let mut list: Vec<String> = Vec::new();
            assert(list.deep_view() == Seq::<Seq<char>>::empty());
            let mut i: usize = 0;
            while i < items.len()
                invariant
                    i <= items@.len(),
                    *value == Json::Array(*items),
                    model == json::views(items@),
                    list.deep_view() == all_details(model.take(i as int)),
                decreases items.len() - i,
            {
                assert(model.take(i + 1).drop_last() == model.take(i as int));
                assert(model[i as int] == items@[i as int]@);
                assert(decreases_to!(value => value->Array_0));
                assert(decreases_to!(items => items@));
                assert(decreases_to!(items@ => items@[i as int]));
                text::push_line(&mut list, format_error_details(&items[i]));
                i = i + 1;
            }
            assert(model.take(i as int) == model);
            let filled = text::without_empty(list.as_slice());
            text::join_strings(filled.as_slice(), "；")
        },
        Json::Object(_) => {
            let details = match json::text_of(value.get("detail")) {
                Some(details) => Some(details),
                None => match json::text_of(value.get("message")) {
                    Some(details) => Some(details),
                    None => json::text_of(value.get("title")),
                },
            };
            match details {
                Some(details) => details.to_owned(),
                None => "".to_owned(),
            }
        },
        Json::Text(value) => value.clone(),
        _ => "".to_owned(),
    }
}

/// The first `count` characters of a text.
pub open spec fn first_chars(value: Seq<char>, count: nat) -> Seq<char> {
    if value.len() <= count {
        value
    } else {
        value.take(count as int)
    }
}

/// The hint for a status.
pub open spec fn status_hint(status: u16) -> Option<Seq<char>> {
    if status == 404 {
        Some("推文可能不存在、已删除、受保护，或链接不可嵌入。"@)
    } else if status == 429 {
        Some("上游触发速率限制，请稍后重试。"@)
    } else {
        None
    }
}

/// The error for an answer with a status and a body, where `payload` is the
/// document that the body spells: what the document says of the error, else the
/// first 180 characters of the body.
pub open spec fn http_error(
    label: Seq<char>,
    status: u16,
    payload: Option<JsonView>,
    body: Seq<char>,
) -> ErrorView {
    let said = match payload {
        Some(payload) => error_details(payload),
        None => ""@,
    };
    let details = if said.len() > 0 {
        said
    } else {
        first_chars(text::trim(body), 180)
    };
    let suffix = if details.len() == 0 {
        ""@
    } else {
        "："@ + details
    };
    ErrorView {
        kind: ErrorKind::Upstream,
        message: label + "失败（HTTP "@ + text::decimal(status as nat) + "）"@ + suffix,
        hint: status_hint(status),
        upstream_status: Some(status),
    }
}

/// The document that a text spells, where it spells one.
pub open spec fn document_of(body: Seq<char>) -> Option<JsonView> {
    match bridge::json_document(body) {
        Ok(value) => Some(value),
        Err(_) => None,
    }
}

fn first_part(value: &str, count: usize) -> (out: String)
    ensures
        out@ == first_chars(value@, count as nat),
{
    let len: usize = value.unicode_len();
    if len <= count {
        value.to_owned()
    } else {
        let part = value.substring_char(0, count);
        assert(part@ == value@.take(count as int));
        part.to_owned()
    }
}

/// Describes a failure by the status and the body of an answer, and by the
/// document that the body spells.
pub fn describe_http_error(
    label: &str,
    status: u16,
    payload: Option<&Json>,
    body: &str,
) -> (out: XReadError)
    ensures
        out.deep_view() == http_error(label@, status, json::seen(payload), body@),
{
    let said = match payload {
        Some(payload) => format_error_details(payload),
        None => "".to_owned(),
    };
    proof {
        reveal_strlit("");
    }
    let details = if !said.as_str().is_empty() {
        said
    } else {
        first_part(text::trim_text(body), 180)
    };
    let suffix = if details.as_str().is_empty() {
        "".to_owned()
    } else {
        text::cat2("：", details.as_str())
    };
    let number = text::number_text(status as u64);
    let message = text::cat5(label, "失败（HTTP ", number.as_str(), "）", suffix.as_str());
    let error = XReadError::upstream(message.as_str()).with_upstream_status(status);
    if status == 404 {
        error.with_hint("推文可能不存在、已删除、受保护，或链接不可嵌入。")
    } else if status == 429 {
        error.with_hint("上游触发速率限制，请稍后重试。")
    } else {
        error
    }
}

/// Describes a failure by the status and the body of an answer.
pub fn upstream_http_error(label: &str, status: u16, body: &str) -> (out: XReadError)
    ensures
        out.deep_view() == http_error(label@, status, document_of(body@), body@),
{
    match bridge::parse_json(body) {
        Ok(payload) => describe_http_error(label, status, Some(&payload), body),
        Err(_) => describe_http_error(label, status, None, body),
    }
}

// ----------------------------------------------------------------------
// Retries

/// Whether a request with this status is worth another attempt.
pub open spec fn is_retryable(status: u16) -> bool {
    status == 408 || status == 425 || status == 429 || 500 <= status <= 599
}

/// Decides `is_retryable`.
pub fn retryable_status(status: u16) -> (out: bool)
    ensures
        out == is_retryable(status),
{
    status == 408 || status == 425 || status == 429 || (500 <= status && status <= 599)
}

/// How long to wait, in milliseconds: what the service asks for, up to five
/// seconds; else 400 doubled with every attempt, up to two seconds.
pub open spec fn delay_for(seconds: Option<u64>, attempt: u8) -> u64 {
    match seconds {
        Some(seconds) => if double::unsigned_millis_of(seconds) < 5_000 {
            double::unsigned_millis_of(seconds)
        } else {
            5_000
        },
        None => if 400 * pow2(attempt as nat) < 2_000 {
            (400 * pow2(attempt as nat)) as u64
        } else {
            2_000
        },
    }
}

/// What a `Retry-After` header asks for, in seconds, where it is a number.
pub open spec fn asked_seconds(retry_after: Option<Seq<char>>) -> Option<u64> {
    match retry_after {
        Some(value) => bridge::double_of_text(value),
        None => None,
    }
}

/// How long to wait after an attempt, by the double that the service asks for.
pub fn delay_after(seconds: Option<u64>, attempt: u8) -> (out: u64)
    requires
        attempt < 64,
    ensures
        out == delay_for(seconds, attempt),
{
    match seconds {
        Some(seconds) => {
            let millis: u64 = double::unsigned_millis(seconds);
            if millis < 5_000 {
                millis
            } else {
                5_000
            }
        },
        None => {
            proof {
                vstd::arithmetic::power2::lemma2_to64();
                if attempt >= 3 {
                    vstd::arithmetic::power2::lemma_pow2_adds(3, (attempt - 3) as nat);
                    vstd::arithmetic::power2::lemma_pow2_pos((attempt - 3) as nat);
                    assert(pow2(attempt as nat) >= 8) by (nonlinear_arith)
                        requires
                            pow2(attempt as nat) == 8 * pow2((attempt - 3) as nat),
                            pow2((attempt - 3) as nat) > 0,
                    ;
                }
            }
            if attempt == 0 {
                400
            } else if attempt == 1 {
                800
            } else if attempt == 2 {
                1_600
            } else {
                2_000
            }
        },
    }
}

/// How long to wait after an attempt, in milliseconds.
pub fn retry_delay(retry_after: Option<&str>, attempt: u8) -> (out: u64)
    requires
        attempt < 64,
    ensures
        out == delay_for(asked_seconds(retry_after.deep_view()), attempt),
{
    let seconds = match retry_after {
        Some(value) => bridge::parse_double(value),
        None => None,
    };
    delay_after(seconds, attempt)
}

/// No delay is longer than five seconds, and none that a service did not ask
/// for is shorter than 400 milliseconds or longer than two seconds.
pub proof fn law_delays_are_bounded(seconds: Option<u64>, attempt: u8)
    ensures
        delay_for(seconds, attempt) <= 5_000,
        seconds is None ==> 400 <= delay_for(seconds, attempt) <= 2_000,
{
    vstd::arithmetic::power2::lemma_pow2_pos(attempt as nat);
}

// ----------------------------------------------------------------------
// One attempt

/// What came of one HTTP request.
pub enum HttpOutcome {
    /// No answer came in time.
    TimedOut,
    /// The request failed, and how.
    Failed(String),
    /// An answer came whose body could not be read.
    Unreadable { retry_after: Option<String>, error: String },
    /// An answer came.
    Answered { status: u16, retry_after: Option<String>, body: String },
}

/// The model of `HttpOutcome`.
pub enum OutcomeView {
    TimedOut,
    Failed(Seq<char>),
    Unreadable { retry_after: Option<Seq<char>>, error: Seq<char> },
    Answered { status: u16, retry_after: Option<Seq<char>>, body: Seq<char> },
}

impl DeepView for HttpOutcome {
    type V = OutcomeView;

    open spec fn deep_view(&self) -> OutcomeView {
        match self {
            HttpOutcome::TimedOut => OutcomeView::TimedOut,
            HttpOutcome::Failed(error) => OutcomeView::Failed(error@),
            HttpOutcome::Unreadable { retry_after, error } => OutcomeView::Unreadable {
                retry_after: retry_after.deep_view(),
                error: error@,
            },
            HttpOutcome::Answered { status, retry_after, body } => OutcomeView::Answered {
                status: *status,
                retry_after: retry_after.deep_view(),
                body: body@,
            },
        }
    }
}

/// What to do after an attempt.
pub enum Next {
    /// Hand out the document or the error.
    Finish(Result<Json, XReadError>),
    /// Wait that many milliseconds, and try again.
    Retry(u64),
}

/// The model of `Next`.
pub enum NextView {
    Finish(Result<JsonView, ErrorView>),
    Retry(u64),
}

/// The model of a document or an error.
pub open spec fn answer_view(answer: Result<Json, XReadError>) -> Result<JsonView, ErrorView> {
    match answer {
        Ok(value) => Ok(value@),
        Err(error) => Err(error.deep_view()),
    }
}

impl DeepView for Next {
    type V = NextView;

    open spec fn deep_view(&self) -> NextView {
        match self {
            Next::Finish(answer) => NextView::Finish(answer_view(*answer)),
            Next::Retry(delay) => NextView::Retry(*delay),
        }
    }
}

/// Whether a status stands for success.
pub open spec fn is_success(status: u16) -> bool {
    200 <= status <= 299
}

/// The document that the body of a successful answer spells, or that it spells none.
pub open spec fn document_answer(
    label: Seq<char>,
    parsed: Result<JsonView, Seq<char>>,
) -> Result<JsonView, ErrorView> {
    match parsed {
        Ok(value) => Ok(value),
        Err(error) => Err(
            plain_error(
                ErrorKind::InvalidResponse,
                label + " 返回的不是有效 JSON："@ + error,
            ),
        ),
    }
}

/// The error that an attempt ended with; none where it succeeded.
pub open spec fn failure_of(label: Seq<char>, timeout_ms: u64, outcome: OutcomeView) -> Option<
    ErrorView,
> {
    match outcome {
        OutcomeView::TimedOut => Some(
            ErrorView {
                hint: Some("检查网络后重试，或增大超时时间。"@),
                ..plain_error(
                    ErrorKind::Upstream,
                    label + "超时（"@ + text::decimal(timeout_ms as nat) + "ms）。"@,
                )
            },
        ),
        OutcomeView::Failed(error) => Some(
            ErrorView {
                hint: Some("检查网络、代理或防火墙设置后重试。"@),
                ..plain_error(ErrorKind::Upstream, label + "网络错误："@ + error)
            },
        ),
        OutcomeView::Unreadable { retry_after, error } => Some(
            plain_error(ErrorKind::Upstream, "无法读取 "@ + label + " 响应："@ + error),
        ),
        OutcomeView::Answered { status, retry_after, body } => if is_success(status) {
            None
        } else {
            Some(http_error(label, status, document_of(body), body))
        },
    }
}

/// What a service asked to wait for, in the outcome of an attempt.
pub open spec fn asked_delay(outcome: OutcomeView) -> Option<Seq<char>> {
    match outcome {
        OutcomeView::Unreadable { retry_after, error } => retry_after,
        OutcomeView::Answered { status, retry_after, body } => retry_after,
        _ => None,
    }
}

/// Whether the outcome of an attempt is worth another one.
pub open spec fn may_retry(outcome: OutcomeView) -> bool {
    match outcome {
        OutcomeView::Answered { status, retry_after, body } => is_retryable(status),
        _ => true,
    }
}

/// What to do after the attempt with a number, counted from zero, where a
/// request may be repeated `retries` times.
pub open spec fn next_step(
    label: Seq<char>,
    timeout_ms: u64,
    retries: u8,
    attempt: u8,
    outcome: OutcomeView,
) -> NextView {
    match failure_of(label, timeout_ms, outcome) {
        None => NextView::Finish(
            document_answer(label, bridge::json_document(outcome->Answered_body)),
        ),
        Some(error) => if attempt >= retries || !may_retry(outcome) {
            NextView::Finish(Err(error))
        } else {
            NextView::Retry(delay_for(asked_seconds(asked_delay(outcome)), attempt))
        },
    }
}

/// Turns what the body of a successful answer spells into an answer.
pub fn answer_from(label: &str, parsed: Result<Json, String>) -> (out: Result<Json, XReadError>)
    ensures
        answer_view(out) == document_answer(
            label@,
            match parsed {
                Ok(value) => Ok(value@),
                Err(error) => Err(error@),
            },
        ),
{
    match parsed {
        Ok(value) => Ok(value),
        Err(error) => {
            let message = text::cat3(label, " 返回的不是有效 JSON：", error.as_str());
            Err(XReadError::invalid_response(message.as_str()))
        },
    }
}

fn finish_or_retry(
    error: XReadError,
    retry_after: Option<String>,
    retries: u8,
    attempt: u8,
    worth: bool,
) -> (out: Next)
    requires
        retries <= 64,
    ensures
        out.deep_view() == (if attempt >= retries || !worth {
            NextView::Finish(Err(error.deep_view()))
        } else {
            NextView::Retry(delay_for(asked_seconds(retry_after.deep_view()), attempt))
        }),
{
    if attempt >= retries || !worth {
        return Next::Finish(Err(error));
    }
    let delay: u64 = match &retry_after {
        Some(value) => retry_delay(Some(value.as_str()), attempt),
        None => retry_delay(None, attempt),
    };
    Next::Retry(delay)
}

/// Decides what to do after an attempt.
pub fn after_attempt(
    label: &str,
    timeout_ms: u64,
    retries: u8,
    attempt: u8,
    outcome: HttpOutcome,
) -> (out: Next)
    requires
        retries <= 64,
    ensures
        out.deep_view() == next_step(label@, timeout_ms, retries, attempt, outcome.deep_view()),
{
    match outcome {
        HttpOutcome::TimedOut => {
            let limit = text::number_text(timeout_ms);
            let message = text::cat4(label, "超时（", limit.as_str(), "ms）。");
            let error = XReadError::upstream(message.as_str()).with_hint(
                "检查网络后重试，或增大超时时间。",
            );
            finish_or_retry(error, None, retries, attempt, true)
        },
        HttpOutcome::Failed(reason) => {
            let message = text::cat3(label, "网络错误：", reason.as_str());
            let error = XReadError::upstream(message.as_str()).with_hint(
                "检查网络、代理或防火墙设置后重试。",
            );
            finish_or_retry(error, None, retries, attempt, true)
        },
        HttpOutcome::Unreadable { retry_after, error } => {
            let message = text::cat4("无法读取 ", label, " 响应：", error.as_str());
            finish_or_retry(
                XReadError::upstream(message.as_str()),
                retry_after,
                retries,
                attempt,
                true,
            )
        },
        HttpOutcome::Answered { status, retry_after, body } => {
            if 200 <= status && status <= 299 {
                return Next::Finish(answer_from(label, bridge::parse_json(body.as_str())));
            }
            let error = upstream_http_error(label, status, body.as_str());
            finish_or_retry(error, retry_after, retries, attempt, retryable_status(status))
        },
    }
}

/// A request is repeated at most `retries` times: what follows the last attempt
/// is an end. A success and a status that is not worth another attempt end it
/// at once.
pub proof fn law_attempts_are_bounded(
    label: Seq<char>,
    timeout_ms: u64,
    retries: u8,
    attempt: u8,
    outcome: OutcomeView,
)
    ensures
        next_step(label, timeout_ms, retries, attempt, outcome) is Retry ==> attempt < retries
            && may_retry(outcome),
        next_step(label, timeout_ms, retries, attempt, outcome) matches NextView::Retry(delay)
            ==> delay <= 5_000,
        outcome matches OutcomeView::Answered { status, .. } ==> (is_success(status)
            || !is_retryable(status)) ==> next_step(
            label,
            timeout_ms,
            retries,
            attempt,
            outcome,
        ) is Finish,
{
    law_delays_are_bounded(asked_seconds(asked_delay(outcome)), attempt);
}

/// Which answers are worth another attempt: a timeout, too early, too many
/// requests, and the errors of a server; and which are successes.
pub proof fn law_statuses(status: u16)
    ensures
        is_retryable(408) && is_retryable(425) && is_retryable(429),
        500 <= status < 600 ==> is_retryable(status),
        status < 500 && status != 408 && status != 425 && status != 429 ==> !is_retryable(status),
        status >= 600 ==> !is_retryable(status),
        is_success(status) <==> status / 100 == 2,
{
}

/// How long is waited where the service asks for nothing: 400 milliseconds,
/// then twice as long each time, up to two seconds.
pub proof fn law_delays_double(attempt: u8)
    ensures
        delay_for(None, 0) == 400,
        delay_for(None, 1) == 800,
        delay_for(None, 2) == 1_600,
        attempt >= 3 ==> delay_for(None, attempt) == 2_000,
{
    vstd::arithmetic::power2::lemma2_to64();
    if attempt > 3 {
        vstd::arithmetic::power2::lemma_pow2_strictly_increases(3, attempt as nat);
    }
}

/// An answer that is no success is told with the label, the status and what
/// the service says of it, and keeps its status; a missing post and too many
/// requests have a hint.
pub proof fn law_http_errors_tell_what_happened(
    label: Seq<char>,
    status: u16,
    payload: Option<JsonView>,
    body: Seq<char>,
)
    ensures
        ({
            let error = http_error(label, status, payload, body);
            &&& error.kind == ErrorKind::Upstream
            &&& error.upstream_status == Some(status)
            &&& text::contains(error.message, label)
            &&& text::contains(error.message, text::decimal(status as nat))
            &&& status == 404 || status == 429 ==> error.hint is Some
            &&& payload matches Some(JsonView::Text(said)) ==> (said.len() > 0 ==> text::contains(
                error.message,
                said,
            ))
            &&& payload is None && text::trim(body).len() <= 180 ==> text::contains(
                error.message,
                text::trim(body),
            )
        }),
{
    let error = http_error(label, status, payload, body);
    let number = text::decimal(status as nat);
    let none = Seq::<char>::empty();
    let said = match payload {
        Some(payload) => error_details(payload),
        None => ""@,
    };
    reveal_strlit("");
    let details = if said.len() > 0 {
        said
    } else {
        first_chars(text::trim(body), 180)
    };
    let suffix = if details.len() == 0 {
        ""@
    } else {
        "："@ + details
    };
    let rest = "失败（HTTP "@ + number + "）"@ + suffix;
    text::lemma_contains_middle(none, label, rest);
    assert(none + label + rest == error.message);
    let front = label + "失败（HTTP "@;
    let back = "）"@ + suffix;
    text::lemma_contains_middle(front, number, back);
    assert(front + number + back == error.message);
    let head = label + "失败（HTTP "@ + number + "）"@ + "："@;
    if details.len() > 0 {
        text::lemma_contains_middle(head, details, none);
        assert(head + details == error.message);
    } else {
        text::lemma_contains_middle(none, none, error.message);
        assert(none + none + error.message == error.message);
        assert(details == none);
    }
    if let Some(JsonView::Text(value)) = payload {
        assert(error_details(JsonView::Text(value)) == value);
    }
}

/// An attempt that failed without an answer is an upstream error that tells the
/// label and what went wrong.
pub proof fn law_failures_are_told(label: Seq<char>, timeout_ms: u64, what: Seq<char>)
    ensures
        failure_of(label, timeout_ms, OutcomeView::Failed(what)) matches Some(error) && error.kind
            == ErrorKind::Upstream && text::contains(error.message, what) && text::contains(
            error.message,
            label,
        ),
        failure_of(label, timeout_ms, OutcomeView::TimedOut) matches Some(error) && error.kind
            == ErrorKind::Upstream && text::contains(
            error.message,
            text::decimal(timeout_ms as nat),
        ) && text::contains(error.message, label),
{
    let none = Seq::<char>::empty();
    text::lemma_contains_middle(label + "网络错误："@, what, none);
    text::lemma_contains_middle(none, label, "网络错误："@ + what);
    assert(none + label + ("网络错误："@ + what) == label + "网络错误："@ + what);
    let number = text::decimal(timeout_ms as nat);
    text::lemma_contains_middle(label + "超时（"@, number, "ms）。"@);
    text::lemma_contains_middle(none, label, "超时（"@ + number + "ms）。"@);
    assert(none + label + ("超时（"@ + number + "ms）。"@) == label + "超时（"@ + number
        + "ms）。"@);
}

/// What a service says of an error is its detail, else its message, else its
/// title; what it says under `errors` comes before all of these, and of several
/// errors all are told.
pub proof fn law_details_come_from_their_members(
    value: JsonView,
    inner: JsonView,
    items: Seq<JsonView>,
    said: Seq<char>,
    at: int,
)
    ensures
        json::member(value, "errors"@) == Some(inner) ==> error_details(value) == error_details(
            inner,
        ),
        json::member(value, "errors"@) is None && json::member(value, "detail"@) == Some(
            JsonView::Text(said),
        ) ==> error_details(value) == said,
        json::member(value, "errors"@) is None && json::member(value, "detail"@) is None
            && json::member(value, "message"@) == Some(JsonView::Text(said)) ==> error_details(value)
            == said,
        json::member(value, "errors"@) is None && json::member(value, "detail"@) is None
            && json::member(value, "message"@) is None && json::member(value, "title"@) == Some(
            JsonView::Text(said),
        ) ==> error_details(value) == said,
        error_details(JsonView::Text(said)) == said,
        0 <= at < items.len() && said.len() > 0 && error_details(items[at]) == said
            ==> text::contains(error_details(JsonView::Array(items)), said),
{
    if 0 <= at < items.len() && said.len() > 0 && error_details(items[at]) == said {
        let all = all_details(items);
        lemma_all_details(items, at);
        let kept = text::drop_empty(all);
        lemma_kept(all, at);
        let i = choose|i: int| 0 <= i < kept.len() && kept[i] == said;
        text::lemma_join_contains(kept, "；"@, i);
        assert(json::member(JsonView::Array(items), "errors"@) is None);
    }
}

proof fn lemma_all_details(items: Seq<JsonView>, at: int)
    requires
        0 <= at < items.len(),
    ensures
        all_details(items).len() == items.len(),
        all_details(items)[at] == error_details(items[at]),
    decreases items.len(),
{
    let rest = items.drop_last();
    if at < rest.len() {
        assert(rest[at] == items[at]);
        lemma_all_details(rest, at);
    } else if rest.len() > 0 {
        lemma_all_details(rest, 0);
    } else {
        assert(all_details(rest).len() == 0);
    }
}

/// A text that is not empty is kept.
proof fn lemma_kept(pieces: Seq<Seq<char>>, at: int)
    requires
        0 <= at < pieces.len(),
        pieces[at].len() > 0,
    ensures
        text::drop_empty(pieces).contains(pieces[at]),
    decreases pieces.len(),
{
    let rest = pieces.drop_last();
    let kept = text::drop_empty(rest);
    let after = text::drop_empty(pieces);
    if at < rest.len() {
        assert(rest[at] == pieces[at]);
        lemma_kept(rest, at);
        let i = choose|i: int| 0 <= i < kept.len() && kept[i] == pieces[at];
        assert(after[i] == pieces[at]);
    } else {
        assert(after[kept.len() as int] == pieces[at]);
    }
}

/// A request is repeated where it got no answer or one that may be better next
/// time, as long as it may be repeated; else what went wrong is the answer. A
/// success is never repeated.
pub proof fn law_requests_are_repeated(
    label: Seq<char>,
    timeout_ms: u64,
    retries: u8,
    attempt: u8,
    what: Seq<char>,
    status: u16,
    body: Seq<char>,
)
    ensures
        ({
            let failed = next_step(
                label,
                timeout_ms,
                retries,
                attempt,
                OutcomeView::Failed(what),
            );
            let timed_out = next_step(label, timeout_ms, retries, attempt, OutcomeView::TimedOut);
            let answered = next_step(
                label,
                timeout_ms,
                retries,
                attempt,
                OutcomeView::Answered { status, retry_after: None, body },
            );
            &&& attempt < retries ==> failed is Retry && timed_out is Retry
            &&& attempt >= retries ==> (failed matches NextView::Finish(Err(error)) && error.kind
                == ErrorKind::Upstream) && (timed_out matches NextView::Finish(Err(error))
                && error.kind == ErrorKind::Upstream)
            &&& 200 <= status <= 299 ==> answered is Finish
            &&& 200 <= status <= 299 ==> (bridge::json_document(body) matches Ok(value)
                ==> answered == NextView::Finish(Ok(value)))
            &&& 200 <= status <= 299 && bridge::json_document(body) is Err ==> (
            answered matches NextView::Finish(Err(error)) && error.kind
                == ErrorKind::InvalidResponse)
            &&& attempt < retries && (status == 408 || status == 425 || status == 429 || 500
                <= status <= 599) ==> answered is Retry
            &&& status == 404 || status == 400 || status == 403 ==> (
            answered matches NextView::Finish(Err(error)) && error.upstream_status == Some(status))
        }),
{
}

/// What a service asks to wait for, in seconds, is waited for up to five seconds;
/// where it asks for nothing that is a number, the usual time is.
pub proof fn law_asked_delays_are_kept(
    label: Seq<char>,
    timeout_ms: u64,
    retries: u8,
    attempt: u8,
    asked: Seq<char>,
    body: Seq<char>,
    seconds: u64,
)
    requires
        attempt < retries,
    ensures
        ({
            let next = next_step(
                label,
                timeout_ms,
                retries,
                attempt,
                OutcomeView::Answered { status: 429, retry_after: Some(asked), body },
            );
            let usual = next_step(
                label,
                timeout_ms,
                retries,
                attempt,
                OutcomeView::Answered { status: 429, retry_after: None, body },
            );
            &&& bridge::double_of_text(asked) is None ==> next == usual
            &&& bridge::double_of_text(asked) == Some(seconds) && double::unsigned_millis_of(
                seconds,
            ) <= 5_000 ==> next == NextView::Retry(double::unsigned_millis_of(seconds))
            &&& bridge::double_of_text(asked) == Some(seconds) && double::unsigned_millis_of(
                seconds,
            ) > 5_000 ==> next == NextView::Retry(5_000)
        }),
{
}

/// Of a long answer that is no document the first hundred and eighty characters
/// are told, and no more.
pub proof fn law_long_answers_are_cut(label: Seq<char>, status: u16, body: Seq<char>)
    requires
        text::trim(body).len() > 180,
    ensures
        http_error(label, status, None, body).message == label + "失败（HTTP "@ + text::decimal(
            status as nat,
        ) + "）"@ + ("："@ + text::trim(body).take(180)),
{
    reveal_strlit("");
    assert(""@.len() == 0);
}

} // verus!
