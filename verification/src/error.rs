//! The errors of the library.

use vstd::prelude::*;

verus! {

/// A stable error category shared by the library and its adapters.
#[derive(Debug, Clone, Copy, PartialEq, Eq, Structural)]
pub enum ErrorKind {
    InvalidInput,
    NoVideo,
    Upstream,
    InvalidResponse,
    Internal,
}

/// A short message for programs, and an optional hint for people.
#[derive(Debug, Clone, PartialEq, Eq)]
pub struct XReadError {
    pub kind: ErrorKind,
    pub message: String,
    pub hint: Option<String>,
    /// HTTP status returned by the upstream service, when there was one.
    pub upstream_status: Option<u16>,
}

/// The model of `XReadError`.
pub struct ErrorView {
    pub kind: ErrorKind,
    pub message: Seq<char>,
    pub hint: Option<Seq<char>>,
    pub upstream_status: Option<u16>,
}

impl DeepView for XReadError {
    type V = ErrorView;

    open spec fn deep_view(&self) -> ErrorView {
        ErrorView {
            kind: self.kind,
            message: self.message@,
            hint: self.hint.deep_view(),
            upstream_status: self.upstream_status,
        }
    }
}

/// An error with a message and nothing else.
pub open spec fn plain_error(kind: ErrorKind, message: Seq<char>) -> ErrorView {
    ErrorView { kind, message, hint: None, upstream_status: None }
}

/// An error with a message and a hint.
pub open spec fn hinted_error(kind: ErrorKind, message: Seq<char>, hint: Seq<char>) -> ErrorView {
    ErrorView { kind, message, hint: Some(hint), upstream_status: None }
}

/// The HTTP status that a public service answers an error with.
pub open spec fn status_of(kind: ErrorKind) -> u16 {
    match kind {
        ErrorKind::InvalidInput => 400,
        ErrorKind::NoVideo => 404,
        ErrorKind::Upstream => 502,
        ErrorKind::InvalidResponse => 502,
        ErrorKind::Internal => 500,
    }
}

/// The two sides of a result, with an error by its model.
pub open spec fn error_view<T>(result: Result<T, XReadError>) -> Result<T, ErrorView> {
    match result {
        Ok(value) => Ok(value),
        Err(error) => Err(error.deep_view()),
    }
}

/// The two sides of a result, each by its model.
pub open spec fn result_model<T: DeepView>(result: Result<T, XReadError>) -> Result<
    T::V,
    ErrorView,
> {
    match result {
        Ok(value) => Ok(value.deep_view()),
        Err(error) => Err(error.deep_view()),
    }
}

impl XReadError {
    /// The caller's input cannot be used.
    pub fn invalid_input(message: &str) -> (out: Self)
        ensures
            out.deep_view() == plain_error(ErrorKind::InvalidInput, message@),
    {
        Self::new(ErrorKind::InvalidInput, message)
    }

    /// An upstream service failed.
    pub fn upstream(message: &str) -> (out: Self)
        ensures
            out.deep_view() == plain_error(ErrorKind::Upstream, message@),
    {
        Self::new(ErrorKind::Upstream, message)
    }

    /// There is no video to hand out.
    pub fn no_video(message: &str) -> (out: Self)
        ensures
            out.deep_view() == plain_error(ErrorKind::NoVideo, message@),
    {
        Self::new(ErrorKind::NoVideo, message)
    }

    /// An upstream service answered something that cannot be read.
    pub fn invalid_response(message: &str) -> (out: Self)
        ensures
            out.deep_view() == plain_error(ErrorKind::InvalidResponse, message@),
    {
        Self::new(ErrorKind::InvalidResponse, message)
    }

    /// Something failed on this side.
    pub fn internal(message: &str) -> (out: Self)
        ensures
            out.deep_view() == plain_error(ErrorKind::Internal, message@),
    {
        Self::new(ErrorKind::Internal, message)
    }

    /// The same error with a hint for people.
    pub fn with_hint(self, hint: &str) -> (out: Self)
        ensures
            out.deep_view() == (ErrorView { hint: Some(hint@), ..self.deep_view() }),
    {
        XReadError {
            kind: self.kind,
            message: self.message,
            hint: Some(hint.to_owned()),
            upstream_status: self.upstream_status,
        }
    }

    /// The same error with the status of the upstream service.
    pub fn with_upstream_status(self, status: u16) -> (out: Self)
        ensures
            out.deep_view() == (ErrorView { upstream_status: Some(status), ..self.deep_view() }),
    {
        XReadError {
            kind: self.kind,
            message: self.message,
            hint: self.hint,
            upstream_status: Some(status),
        }
    }

    /// Translate domain failures into a safe status for a public service.
    pub fn response_status(&self) -> (out: u16)
        ensures
            out == status_of(self.kind),
    {
        match self.kind {
            ErrorKind::InvalidInput => 400,
            ErrorKind::NoVideo => 404,
            ErrorKind::Upstream => 502,
            ErrorKind::InvalidResponse => 502,
            ErrorKind::Internal => 500,
        }
    }

    fn new(kind: ErrorKind, message: &str) -> (out: Self)
        ensures
            out.deep_view() == plain_error(kind, message@),
    {
        XReadError { kind, message: message.to_owned(), hint: None, upstream_status: None }
    }
}

/// What a public service tells of an error.
#[derive(Debug)]
pub struct ErrorResponse<'a> {
    pub error: &'a str,
    pub kind: ErrorKind,
    pub hint: Option<&'a str>,
}

impl<'a> From<&'a XReadError> for ErrorResponse<'a> {
    /// The public part of an error: its message, its kind and its hint.
    fn from(error: &'a XReadError) -> (out: Self)
        ensures
            out.error@ == error.message@,
            out.kind == error.kind,
            out.hint.deep_view() == error.hint.deep_view(),
    {
        ErrorResponse {
            error: error.message.as_str(),
            kind: error.kind,
            hint: match &error.hint {
                Some(hint) => Some(hint.as_str()),
                None => None,
            },
        }
    }
}

impl<'a> vstd::std_specs::convert::FromSpecImpl<&'a XReadError> for ErrorResponse<'a> {
    open spec fn obeys_from_spec() -> bool {
        false
    }

    open spec fn from_spec(error: &'a XReadError) -> Self {
        arbitrary()
    }
}

/// The status is that of an error on the caller's side exactly for bad input
/// and missing videos, and always one of an error.
pub proof fn law_status_is_an_error(kind: ErrorKind)
    ensures
        400 <= status_of(kind) < 600,
        status_of(kind) < 500 <==> (kind == ErrorKind::InvalidInput || kind == ErrorKind::NoVideo),
{
}

/// The status of every kind of error.
pub proof fn law_kinds_have_their_statuses()
    ensures
        status_of(ErrorKind::InvalidInput) == 400,
        status_of(ErrorKind::NoVideo) == 404,
        status_of(ErrorKind::Upstream) == 502,
        status_of(ErrorKind::InvalidResponse) == 502,
        status_of(ErrorKind::Internal) == 500,
{
}

} // verus!
