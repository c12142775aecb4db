//! Site logo and favicon settings: a URL used verbatim or a file served by
//! the site itself, the image-only content-type allowlist, and which logo
//! links are safe.
use vstd::prelude::*;

use crate::paths::{extension, extension_of};
use crate::repo::meta::{is_http_url, spec_is_http_url};
use crate::text::{ascii_lower_seq, chars_of, chars_eq, find_char_from, lower_chars, owned, slice_chars, string_of};

verus! {

/// Cap on a logo or favicon file read.
pub const BRANDING_ASSET_LIMIT: u64 = 1048576;

/// Where a configured logo or favicon points.
#[derive(Debug, Clone)]
pub enum BrandingAsset {
    /// Used verbatim in the emitted `href`/`src`.
    Url(String),
    /// Read from disk and served by the site at a fixed route.
    File(String),
}

/// The image content type of an extension, from the allowlist; anything
/// else is none. The list is a security boundary: these bytes are served
/// same-origin, so only image types may pass.
pub open spec fn image_type_of(ext: Seq<char>) -> Option<Seq<char>> {
    let e = ascii_lower_seq(ext);
    if e == "svg"@ {
        Some("image/svg+xml"@)
    } else if e == "png"@ {
        Some("image/png"@)
    } else if e == "ico"@ {
        Some("image/x-icon"@)
    } else if e == "jpg"@ || e == "jpeg"@ {
        Some("image/jpeg"@)
    } else if e == "gif"@ {
        Some("image/gif"@)
    } else if e == "webp"@ {
        Some("image/webp"@)
    } else if e == "avif"@ {
        Some("image/avif"@)
    } else {
        None
    }
}

/// The content type of a path's extension (see [`image_type_of`]).
pub open spec fn path_image_type(path: Seq<char>) -> Option<Seq<char>> {
    match extension_of(path) {
        Some(e) => image_type_of(e),
        None => None,
    }
}

/// Whether `a` spells `b`.
fn is(a: &[char], b: &str) -> (r: bool)
    ensures
        r == (a@ == b@),
{
    let bv = chars_of(b);
    chars_eq(a, bv.as_slice())
}

/// The allowlisted content type of a path's extension.
pub fn content_type_for_extension(path: &str) -> (r: Option<&'static str>)
    ensures
        match path_image_type(path@) {
            Some(t) => r matches Some(s) && s@ == t,
            None => r is None,
        },
{
    let ext = match extension(path) {
        Some(e) => e,
        None => return None,
    };
    let e = lower_chars(chars_of(ext.as_str()).as_slice());
    if is(e.as_slice(), "svg") {
        Some("image/svg+xml")
    } else if is(e.as_slice(), "png") {
        Some("image/png")
    } else if is(e.as_slice(), "ico") {
        Some("image/x-icon")
    } else if is(e.as_slice(), "jpg") || is(e.as_slice(), "jpeg") {
        Some("image/jpeg")
    } else if is(e.as_slice(), "gif") {
        Some("image/gif")
    } else if is(e.as_slice(), "webp") {
        Some("image/webp")
    } else if is(e.as_slice(), "avif") {
        Some("image/avif")
    } else {
        None
    }
}

/// A URL without its query and fragment: what precedes the first `?` or
/// `#`.
pub open spec fn url_path(url: Seq<char>) -> Seq<char> {
    let q = find_char_from(url, '?', 0);
    let h = find_char_from(url, '#', 0);
    url.subrange(0, if q < h { q } else { h })
}

impl BrandingAsset {
    /// An `http://` or `https://` value is a URL; anything else a file path.
    pub fn parse(raw: &str) -> (r: BrandingAsset)
        ensures
            spec_is_http_url(raw@) ==> (r matches BrandingAsset::Url(u) && u@ == raw@),
            !spec_is_http_url(raw@) ==> (r matches BrandingAsset::File(p) && p@ == raw@),
    {
        if is_http_url(raw) {
            BrandingAsset::Url(owned(raw))
        } else {
            BrandingAsset::File(owned(raw))
        }
    }

    /// The `href`/`src` the asset renders as: the URL itself, or
    /// `served_at`, the site's own route for a file.
    pub fn href(&self, served_at: &str) -> (r: String)
        ensures
            match self {
                BrandingAsset::Url(u) => r@ == u@,
                BrandingAsset::File(_) => r@ == served_at@,
            },
    {
        match self {
            BrandingAsset::Url(u) => owned(u.as_str()),
            BrandingAsset::File(_) => owned(served_at),
        }
    }

    /// The favicon's content type when knowable before serving it: from the
    /// URL's own extension (query and fragment removed first), or the file
    /// path's.
    pub fn content_type(&self) -> (r: Option<&'static str>)
        ensures
            match self {
                BrandingAsset::Url(u) => match path_image_type(url_path(u@)) {
                    Some(t) => r matches Some(s) && s@ == t,
                    None => r is None,
                },
                BrandingAsset::File(p) => match path_image_type(p@) {
                    Some(t) => r matches Some(s) && s@ == t,
                    None => r is None,
                },
            },
    {
        match self {
            BrandingAsset::Url(u) => {
                let v = chars_of(u.as_str());
                let q = crate::text::find_char(v.as_slice(), '?', 0);
                let h = crate::text::find_char(v.as_slice(), '#', 0);
                let end = if q < h {
                    q
                } else {
                    h
                };
                let p = string_of(slice_chars(v.as_slice(), 0, end).as_slice());
                content_type_for_extension(p.as_str())
            },
            BrandingAsset::File(p) => content_type_for_extension(p.as_str()),
        }
    }
}

/// Whether a logo link may land in an `<a href>`: an `http(s)://` URL, or a
/// root-relative path that is not protocol-relative (`//host`).
pub open spec fn safe_logo_link(raw: Seq<char>) -> bool {
    spec_is_http_url(raw) || (raw.len() >= 1 && raw[0] == '/' && !(raw.len() >= 2 && raw[1] == '/'))
}

/// The logo link, when safe (see [`safe_logo_link`]); anything else reads
/// as unset.
pub fn sanitize_logo_link(raw: &str) -> (r: Option<String>)
    ensures
        safe_logo_link(raw@) ==> (r matches Some(s) && s@ == raw@),
        !safe_logo_link(raw@) ==> r is None,
{
    let v = chars_of(raw);
    if is_http_url(raw) || (v.len() >= 1 && v[0] == '/' && !(v.len() >= 2 && v[1] == '/')) {
        Some(owned(raw))
    } else {
        None
    }
}

/// A loaded branding file.
#[derive(Debug)]
pub struct LoadedAsset {
    pub content_type: &'static str,
    pub body: Vec<u8>,
}

/// Whether a branding file of `size` bytes is too large to serve.
pub fn asset_too_large(size: u64) -> (r: bool)
    ensures
        r == (size > BRANDING_ASSET_LIMIT),
{
    size > BRANDING_ASSET_LIMIT
}

} // verus!
