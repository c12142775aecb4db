//! Where the frontend build is served from: a configured directory, else
//! the copy built into the binary. Also the rules for its files: which
//! paths are content-hashed (and so immutable), and how a request path
//! names an embedded file.
use vstd::prelude::*;

use crate::text::{chars_of, is_prefix, owned, slice_chars, starts_with_chars, strip_bounds, strip_start, string_of};

verus! {

/// Where the frontend build is read from.
#[derive(Debug, Clone)]
pub enum Assets {
    /// A directory on disk.
    Dir(String),
    /// The copy built into the binary.
    Embedded,
}

impl Assets {
    /// A configured directory always wins, so an operator can override the
    /// built-in copy without rebuilding. Unconfigured, a binary that carries
    /// the frontend build serves that; one built without it (`bundled` is
    /// false) serves no frontend at all.
    pub fn resolve(static_dir: Option<&str>, bundled: bool) -> (r: Option<Assets>)
        ensures
            match static_dir {
                Some(d) => r matches Some(Assets::Dir(p)) && p@ == d@,
                None => if bundled {
                    r matches Some(Assets::Embedded)
                } else {
                    r is None
                },
            },
    {
        match static_dir {
            Some(d) => Some(Assets::Dir(owned(d))),
            None => if bundled {
                Some(Assets::Embedded)
            } else {
                None
            },
        }
    }

    /// A short label for log lines.
    pub fn label(&self) -> (r: &'static str)
        ensures
            match self {
                Assets::Dir(_) => r@ == "directory"@,
                Assets::Embedded => r@ == "embedded"@,
            },
    {
        match self {
            Assets::Dir(_) => "directory",
            Assets::Embedded => "embedded",
        }
    }
}

/// Prefix of every content-hashed static asset of the build.
pub const HASHED_ASSET_PREFIX: &'static str = "/_astro/";

/// Whether a request path names a content-hashed asset, whose responses
/// may be cached as immutable.
pub fn is_hashed_asset_path(uri_path: &str) -> (r: bool)
    ensures
        r == is_prefix(HASHED_ASSET_PREFIX@, uri_path@),
{
    let v = chars_of(uri_path);
    let p = chars_of(HASHED_ASSET_PREFIX);
    starts_with_chars(v.as_slice(), p.as_slice())
}

/// Whether a response to a request for `uri_path` with `status` gets the
/// immutable `Cache-Control`: a hashed asset answered 200 or 304 (a 404 for
/// a stale asset must never be cached as immutable).
pub fn marks_immutable(uri_path: &str, status: u16) -> (r: bool)
    ensures
        r == (is_prefix(HASHED_ASSET_PREFIX@, uri_path@) && (status == 200 || status == 304)),
{
    is_hashed_asset_path(uri_path) && (status == 200 || status == 304)
}

/// The value of an ASCII hex digit byte.
pub open spec fn hex_value(b: u8) -> Option<int> {
    if 48 <= b <= 57 {
        Some(b - 48)
    } else if 97 <= b <= 102 {
        Some(b - 87)
    } else if 65 <= b <= 70 {
        Some(b - 55)
    } else {
        None
    }
}

/// Percent-decoding of bytes: each `%` followed by two hex digits stands
/// for the byte they spell; every other byte, a `%` without two hex digits
/// after it included, stands for itself.
pub open spec fn percent_decoded(b: Seq<u8>) -> Seq<u8>
    decreases b.len(),
{
    if b.len() == 0 {
        Seq::empty()
    } else if b[0] == 37 && b.len() >= 3 && hex_value(b[1]) is Some && hex_value(b[2]) is Some {
        seq![(hex_value(b[1]).unwrap() * 16 + hex_value(b[2]).unwrap()) as u8] + percent_decoded(
            b.skip(3),
        )
    } else {
        seq![b[0]] + percent_decoded(b.skip(1))
    }
}

/// Calls `percent_encoding::percent_decode_str(..).decode_utf8()`: the text
/// the percent-decoded bytes spell, when they are UTF-8.
#[verifier::external_body]
fn percent_decode_text(s: &str) -> (r: Option<String>)
    ensures
        r is Some <==> vstd::utf8::valid_utf8(percent_decoded(vstd::utf8::encode_utf8(s@))),
        r matches Some(t) ==> t@ == vstd::utf8::decode_utf8(
            percent_decoded(vstd::utf8::encode_utf8(s@)),
        ),
{
    match percent_encoding::percent_decode_str(s).decode_utf8() {
        Ok(t) => Some(t.into_owned()),
        Err(_) => None,
    }
}

/// The key of the embedded file a request path names: the path without its
/// leading `/`s, percent-decoded; none when that is not UTF-8.
pub fn embedded_file_key(uri_path: &str) -> (r: Option<String>)
    ensures
        ({
            let bytes = percent_decoded(vstd::utf8::encode_utf8(strip_start(uri_path@, '/')));
            &&& r is Some <==> vstd::utf8::valid_utf8(bytes)
            &&& r matches Some(t) ==> t@ == vstd::utf8::decode_utf8(bytes)
        }),
{
    let v = chars_of(uri_path);
    let (a, _b) = strip_bounds(v.as_slice(), '/');
    let rest = string_of(slice_chars(v.as_slice(), a, v.len()).as_slice());
    percent_decode_text(rest.as_str())
}

} // verus!
