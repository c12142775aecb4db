//! The API's error vocabulary and how each error is answered: an HTTP
//! status, a stable machine-readable code, and the message shown to the
//! client.
use vstd::prelude::*;

use crate::text::{push_all, push_str_chars, chars_of, string_of};

verus! {

/// An API error, mapped to the JSON error envelope.
#[derive(Debug, Clone)]
pub enum ApiError {
    RepoNotFound(String),
    RefNotFound(String),
    PathNotFound(String),
    ObjectNotFound(String),
    InvalidParam(String),
    ReadOnly,
    NotFound,
    /// An unexpected failure; the text is for the log, never the client.
    Internal(String),
}

/// The HTTP status each error is answered with.
pub open spec fn spec_status(e: ApiError) -> u16 {
    match e {
        ApiError::RepoNotFound(_) => 404,
        ApiError::RefNotFound(_) => 404,
        ApiError::PathNotFound(_) => 404,
        ApiError::ObjectNotFound(_) => 404,
        ApiError::NotFound => 404,
        ApiError::InvalidParam(_) => 400,
        ApiError::ReadOnly => 403,
        ApiError::Internal(_) => 500,
    }
}

/// The machine-readable code each error carries.
pub open spec fn spec_code(e: ApiError) -> Seq<char> {
    match e {
        ApiError::RepoNotFound(_) => "repo_not_found"@,
        ApiError::RefNotFound(_) => "ref_not_found"@,
        ApiError::PathNotFound(_) => "path_not_found"@,
        ApiError::ObjectNotFound(_) => "object_not_found"@,
        ApiError::NotFound => "not_found"@,
        ApiError::InvalidParam(_) => "invalid_param"@,
        ApiError::ReadOnly => "read_only"@,
        ApiError::Internal(_) => "internal"@,
    }
}

/// The message shown to the client. An internal error's own text is never
/// shown: it goes to the log instead.
pub open spec fn spec_message(e: ApiError) -> Seq<char> {
    match e {
        ApiError::RepoNotFound(name) => "repository '"@ + name@ + "' not found"@,
        ApiError::RefNotFound(name) => "ref '"@ + name@ + "' not found"@,
        ApiError::PathNotFound(name) => "path '"@ + name@ + "' not found"@,
        ApiError::ObjectNotFound(name) => "object '"@ + name@ + "' not found"@,
        ApiError::NotFound => "not found"@,
        ApiError::InvalidParam(detail) => "invalid parameter: "@ + detail@,
        ApiError::ReadOnly => "repository is read-only over HTTP; push via SSH"@,
        ApiError::Internal(_) => "internal server error"@,
    }
}

impl ApiError {
    /// The status and code this error is answered with.
    pub fn status_and_code(&self) -> (r: (u16, &'static str))
        ensures
            r.0 == spec_status(*self),
            r.1@ == spec_code(*self),
    {
        match self {
            ApiError::RepoNotFound(_) => (404, "repo_not_found"),
            ApiError::RefNotFound(_) => (404, "ref_not_found"),
            ApiError::PathNotFound(_) => (404, "path_not_found"),
            ApiError::ObjectNotFound(_) => (404, "object_not_found"),
            ApiError::NotFound => (404, "not_found"),
            ApiError::InvalidParam(_) => (400, "invalid_param"),
            ApiError::ReadOnly => (403, "read_only"),
            ApiError::Internal(_) => (500, "internal"),
        }
    }

    /// The message shown to the client.
    pub fn client_message(&self) -> (r: String)
        ensures
            r@ == spec_message(*self),
    {
        let mut out: Vec<char> = Vec::new();
        match self {
            ApiError::RepoNotFound(name) => {
                push_str_chars(&mut out, "repository '");
                push_str_chars(&mut out, name.as_str());
                push_str_chars(&mut out, "' not found");
            },
            ApiError::RefNotFound(name) => {
                push_str_chars(&mut out, "ref '");
                push_str_chars(&mut out, name.as_str());
                push_str_chars(&mut out, "' not found");
            },
            ApiError::PathNotFound(name) => {
                push_str_chars(&mut out, "path '");
                push_str_chars(&mut out, name.as_str());
                push_str_chars(&mut out, "' not found");
            },
            ApiError::ObjectNotFound(name) => {
                push_str_chars(&mut out, "object '");
                push_str_chars(&mut out, name.as_str());
                push_str_chars(&mut out, "' not found");
            },
            ApiError::NotFound => {
                push_str_chars(&mut out, "not found");
            },
            ApiError::InvalidParam(detail) => {
                push_str_chars(&mut out, "invalid parameter: ");
                push_str_chars(&mut out, detail.as_str());
            },
            ApiError::ReadOnly => {
                push_str_chars(&mut out, "repository is read-only over HTTP; push via SSH");
            },
            ApiError::Internal(_) => {
                push_str_chars(&mut out, "internal server error");
            },
        }
        string_of(out.as_slice())
    }
}

/// An `InvalidParam` whose detail is exactly `detail`.
pub fn invalid_param(detail: &[char]) -> (e: ApiError)
    ensures
        e matches ApiError::InvalidParam(d) && d@ == detail@,
{
    ApiError::InvalidParam(string_of(detail))
}

/// An `InvalidParam` whose detail is `head`, `value`, then `tail`.
pub fn invalid_param_quoting(head: &str, value: &str, tail: &str) -> (e: ApiError)
    ensures
        e matches ApiError::InvalidParam(d) && d@ == head@ + value@ + tail@,
{
    let mut out: Vec<char> = Vec::new();
    push_str_chars(&mut out, head);
    push_str_chars(&mut out, value);
    push_str_chars(&mut out, tail);
    ApiError::InvalidParam(string_of(out.as_slice()))
}

/// An `InvalidParam` carrying `detail` verbatim.
pub fn invalid_param_str(detail: &str) -> (e: ApiError)
    ensures
        e matches ApiError::InvalidParam(d) && d@ == detail@,
{
    let v = chars_of(detail);
    let mut out: Vec<char> = Vec::new();
    push_all(&mut out, v.as_slice());
    ApiError::InvalidParam(string_of(out.as_slice()))
}

} // verus!
