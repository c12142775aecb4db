//! The file endpoints' own rules: when a response is immutable (the ref
//! was the full sha it resolved to), and the content type of a raw file.
use vstd::prelude::*;

use crate::cache::{delivery, etag_text, header_matches, validator_etag, Delivery, Validator};
use crate::paths::{extension, extension_of};
use crate::text::{owned, str_eq};

verus! {

/// Whether a response addressed by `refname` may be cached as immutable:
/// the ref was exactly the full sha it resolved to.
pub fn is_immutable_ref(refname: &str, sha: &str) -> (r: bool)
    ensures
        r == (refname@ == sha@),
{
    str_eq(refname, sha)
}

/// The MIME type `mime_guess` lists first for an extension (its lookup
/// ignores case), if it knows the extension.
pub uninterp spec fn mime_of_extension(ext: Seq<char>) -> Option<Seq<char>>;

/// Calls `mime_guess::from_ext(ext).first_raw()`. The contract names the
/// result: [`mime_of_extension`] of the extension.
#[verifier::external_body]
fn guess_mime(ext: &str) -> (r: Option<&'static str>)
    ensures
        match r {
            Some(m) => mime_of_extension(ext@) == Some(m@),
            None => mime_of_extension(ext@) is None,
        },
{
    mime_guess::from_ext(ext).first_raw()
}

/// The content type of a raw file: guessed from its path's extension, else
/// `application/octet-stream` for binary content and UTF-8 plain text
/// otherwise.
pub open spec fn raw_type_of(path: Seq<char>, binary: bool) -> Seq<char> {
    let guessed = match extension_of(path) {
        Some(e) => mime_of_extension(e),
        None => None,
    };
    match guessed {
        Some(m) => m,
        None => if binary {
            "application/octet-stream"@
        } else {
            "text/plain; charset=utf-8"@
        },
    }
}

/// The content type of a raw file (see [`raw_type_of`]).
pub fn raw_content_type(path: &str, binary: bool) -> (r: String)
    ensures
        r@ == raw_type_of(path@, binary),
{
    let guessed = match extension(path) {
        Some(e) => guess_mime(e.as_str()),
        None => None,
    };
    match guessed {
        Some(m) => owned(m),
        None => if binary {
            owned("application/octet-stream")
        } else {
            owned("text/plain; charset=utf-8")
        },
    }
}

/// The content type of a raw object by id: binary or UTF-8 plain text.
pub fn raw_object_content_type(binary: bool) -> (r: &'static str)
    ensures
        binary ==> r@ == "application/octet-stream"@,
        !binary ==> r@ == "text/plain; charset=utf-8"@,
{
    if binary {
        "application/octet-stream"
    } else {
        "text/plain; charset=utf-8"
    }
}

/// How a raw file response goes out: an immutable one carries no `ETag`;
/// any other carries the validator's and may be answered 304.
pub fn raw_delivery(immutable: bool, validator: &Validator, if_none_match_values: &[String]) -> (r: (
    Option<String>,
    Delivery,
))
    ensures
        immutable ==> r.0 is None && r.1 == Delivery::Immutable,
        !immutable ==> (r.0 matches Some(t) && t@ == etag_text(*validator) && r.1 == if header_matches(
            if_none_match_values.deep_view(),
            t@,
        ) {
            Delivery::NotModified
        } else {
            Delivery::Tagged
        }),
{
    if immutable {
        (None, Delivery::Immutable)
    } else {
        let etag = validator_etag(validator);
        let d = delivery(Some(etag.as_str()), if_none_match_values);
        (Some(etag), d)
    }
}

} // verus!
