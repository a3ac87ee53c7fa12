//! What a refused request is answered.

use crate::text;
use vstd::prelude::*;

verus! {

/// Why a request was refused.
#[derive(Debug, Clone, PartialEq, Eq)]
pub enum ApiError {
    /// What the request names does not exist.
    NotFound,
    /// The request makes no sense; the reason.
    BadRequest(String),
    /// The caller did not prove who they are.
    Unauthorized,
    /// The store failed; its message. Callers do not see it.
    Store(String),
}

/// What an [`ApiError`] says.
pub enum ApiErrorView {
    NotFound,
    BadRequest(Seq<char>),
    Unauthorized,
    Store(Seq<char>),
}

impl View for ApiError {
    type V = ApiErrorView;

    open spec fn view(&self) -> ApiErrorView {
        match *self {
            ApiError::NotFound => ApiErrorView::NotFound,
            ApiError::BadRequest(m) => ApiErrorView::BadRequest(m@),
            ApiError::Unauthorized => ApiErrorView::Unauthorized,
            ApiError::Store(m) => ApiErrorView::Store(m@),
        }
    }
}

/// The message of an error.
pub open spec fn message_of(e: ApiErrorView) -> Seq<char> {
    match e {
        ApiErrorView::NotFound => "not found"@,
        ApiErrorView::BadRequest(m) => "bad request: "@ + m,
        ApiErrorView::Unauthorized => "unauthorized"@,
        ApiErrorView::Store(m) => m,
    }
}

/// The HTTP status and the message that a caller gets.
pub open spec fn answer_to(e: ApiErrorView) -> (u16, Seq<char>) {
    match e {
        ApiErrorView::NotFound => (404, message_of(e)),
        ApiErrorView::BadRequest(_) => (400, message_of(e)),
        ApiErrorView::Unauthorized => (401, message_of(e)),
        ApiErrorView::Store(_) => (500, "internal store error"@),
    }
}

impl ApiError {
    /// The message of the error.
    pub fn to_string(&self) -> (s: String)
        ensures
            s@ == message_of(self@),
    {
        match self {
            ApiError::NotFound => text::owned("not found"),
            ApiError::BadRequest(m) => text::concat("bad request: ", m.as_str()),
            ApiError::Unauthorized => text::owned("unauthorized"),
            ApiError::Store(m) => m.clone(),
        }
    }

    /// The HTTP status and the message that the caller gets. What went wrong in
    /// the store stays inside.
    pub fn into_response(&self) -> (r: (u16, String))
        ensures
            (r.0, r.1@) == answer_to(self@),
    {
        match self {
            ApiError::NotFound => (404, self.to_string()),
            ApiError::BadRequest(_) => (400, self.to_string()),
            ApiError::Unauthorized => (401, self.to_string()),
            ApiError::Store(_) => (500, text::owned("internal store error")),
        }
    }
}

/// A refusal for a reason.
pub fn bad_request(reason: &str) -> (e: ApiError)
    ensures
        e@ == ApiErrorView::BadRequest(reason@),
{
    ApiError::BadRequest(text::owned(reason))
}

/// Callers learn nothing of what went wrong in the store.
pub proof fn store_errors_stay_inside(m: Seq<char>, n: Seq<char>)
    ensures
        answer_to(ApiErrorView::Store(m)) == answer_to(ApiErrorView::Store(n)),
{
}

} // verus!
