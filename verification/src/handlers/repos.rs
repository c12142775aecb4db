//! The repository endpoints' own rules: the `?sort=` parameter, the list
//! response, the clone URL, and when a by-ref response is immutable.
use vstd::prelude::*;

use crate::config::sort_error_text;
use crate::error::ApiError;
use crate::repo::search::SearchKind;
use crate::repo::sort::{parse_order, RepoOrder};
use crate::repo::RepoInfo;
use crate::text::{push_str_chars, str_eq, string_of, strip_end, strip_end_len};

verus! {

/// `?sort=`: absent or empty is the configured default; otherwise a sort
/// spelling, anything else `400 invalid_param` quoting the value.
pub fn parse_sort(raw: Option<&str>, default: RepoOrder) -> (r: Result<RepoOrder, ApiError>)
    ensures
        match raw {
            None => r == Ok::<RepoOrder, ApiError>(default),
            Some(s) => if s@.len() == 0 {
                r == Ok::<RepoOrder, ApiError>(default)
            } else {
                match parse_order(s@) {
                    Some(o) => r == Ok::<RepoOrder, ApiError>(o),
                    None => r matches Err(ApiError::InvalidParam(d)) && d@ == sort_error_text(s@),
                }
            },
        },
{
    match raw {
        None => Ok(default),
        Some(s) => if crate::text::chars_of(s).len() == 0 {
            Ok(default)
        } else {
            match crate::config::parse_repository_sort(s) {
                Ok(o) => Ok(o),
                Err(m) => Err(ApiError::InvalidParam(m)),
            }
        },
    }
}

/// The repository list response: the sorted list and the effective order's
/// spelling.
#[derive(Debug)]
pub struct ReposResponse {
    pub repos: Vec<RepoInfo>,
    pub sort: String,
}

/// The clone URL of repository `name`: `<base>/<name>.git`, the base's
/// trailing `/`s dropped.
pub fn clone_url(base: &str, name: &str) -> (r: String)
    ensures
        r@ == strip_end(base@, '/') + seq!['/'] + name@ + ".git"@,
{
    let b = crate::text::chars_of(base);
    let e = strip_end_len(b.as_slice(), '/');
    let mut out = crate::text::slice_chars(b.as_slice(), 0, e);
    out.push('/');
    push_str_chars(&mut out, name);
    push_str_chars(&mut out, ".git");
    string_of(out.as_slice())
}

/// Whether a search response may be cached as immutable: a text search
/// whose `ref` was the full sha it resolved to (a range search names its
/// own revisions).
pub fn search_is_immutable(kind: SearchKind, refname: Option<&str>, sha: &str) -> (r: bool)
    ensures
        r == (kind != SearchKind::Range && (refname matches Some(x) && x@ == sha@)),
{
    match kind {
        SearchKind::Range => false,
        _ => match refname {
            Some(x) => str_eq(x, sha),
            None => false,
        },
    }
}

/// Whether a statistics response may be cached as immutable: its `ref`
/// was the full sha it resolved to.
pub fn stats_is_immutable(refname: Option<&str>, sha: &str) -> (r: bool)
    ensures
        r == (refname matches Some(x) && x@ == sha@),
{
    match refname {
        Some(x) => str_eq(x, sha),
        None => false,
    }
}

} // verus!
