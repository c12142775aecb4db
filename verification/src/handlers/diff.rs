//! The diff endpoints' own rules: which refs a two-revision request
//! compares, when its response is immutable, and the patch download's name.
use vstd::prelude::*;

use crate::handlers::{safe_component_char, sanitize_component};
use crate::text::{chars_of, owned, push_str_chars, str_eq, string_of};

verus! {

/// The `from` side of a two-revision request: an empty value is none.
pub fn from_ref(raw: Option<String>) -> (r: Option<String>)
    ensures
        match raw {
            Some(s) => if s@.len() == 0 {
                r is None
            } else {
                r == Some(s)
            },
            None => r is None,
        },
{
    match raw {
        Some(s) => {
            let v = chars_of(s.as_str());
            if v.len() == 0 {
                None
            } else {
                Some(s)
            }
        },
        None => None,
    }
}

/// The `to` side of a two-revision request: `HEAD` when absent or empty.
pub fn to_ref(raw: Option<String>) -> (r: String)
    ensures
        match raw {
            Some(s) => if s@.len() == 0 {
                r@ == "HEAD"@
            } else {
                r == s
            },
            None => r@ == "HEAD"@,
        },
{
    match raw {
        Some(s) => {
            let v = chars_of(s.as_str());
            if v.len() == 0 {
                owned("HEAD")
            } else {
                s
            }
        },
        None => owned("HEAD"),
    }
}

/// Whether a two-revision response may be cached as immutable: `to` was
/// the full sha it resolved to, and `from`, when given, too.
pub fn range_is_immutable(to_ref: &str, to_sha: &str, from_ref: Option<&str>, from_sha: Option<&str>) -> (r:
    bool)
    ensures
        r == (to_ref@ == to_sha@ && match from_ref {
            None => true,
            Some(f) => from_sha matches Some(s) && f@ == s@,
        }),
{
    str_eq(to_ref, to_sha) && match from_ref {
        None => true,
        Some(f) => match from_sha {
            Some(s) => str_eq(f, s),
            None => false,
        },
    }
}

/// The patch download's file name: `<repo>-<to>.patch`, both sanitized to
/// `[A-Za-z0-9._-]`.
pub fn patch_filename(repo: &str, to: &str) -> (r: String)
    ensures
        r@ == Seq::new(repo@.len(), |i: int| safe_component_char(repo@[i])) + seq!['-'] + Seq::new(
            to@.len(),
            |i: int| safe_component_char(to@[i]),
        ) + ".patch"@,
{
    let a = sanitize_component(repo);
    let b = sanitize_component(to);
    let mut out: Vec<char> = Vec::new();
    push_str_chars(&mut out, a.as_str());
    out.push('-');
    push_str_chars(&mut out, b.as_str());
    push_str_chars(&mut out, ".patch");
    string_of(out.as_slice())
}

/// The `Content-Disposition` of the patch download.
pub fn patch_disposition(filename: &str) -> (r: String)
    ensures
        r@ == "inline; filename=\""@ + filename@ + "\""@,
{
    let mut out: Vec<char> = Vec::new();
    push_str_chars(&mut out, "inline; filename=\"");
    push_str_chars(&mut out, filename);
    push_str_chars(&mut out, "\"");
    string_of(out.as_slice())
}

} // verus!
