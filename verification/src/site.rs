//! Site-wide metadata: the title with its default, and the index-page
//! readme with its size cap and format guess.
use vstd::prelude::*;

use crate::paths::{extension, extension_of};
use crate::repo::readme::ReadmeFormat;
use crate::text::{ascii_lower_seq, chars_of, chars_eq, lower_chars, owned, utf8_text};

verus! {

/// Cap on the site readme read.
pub const ROOT_README_LIMIT: u64 = 524288;

/// Title used when none is configured.
pub const DEFAULT_TITLE: &'static str = "Axgit";

/// The site readme.
#[derive(Debug)]
pub struct SiteReadme {
    pub format: ReadmeFormat,
    pub content: String,
}

/// Site-wide metadata.
#[derive(Debug)]
pub struct SiteInfo {
    /// The configured title, else [`DEFAULT_TITLE`].
    pub title: String,
    /// `None` when unset.
    pub description: Option<String>,
    /// `None` when unset, unreadable, over the cap, or not UTF-8.
    pub readme: Option<SiteReadme>,
}

/// The configured title, else the default.
pub fn effective_title(configured: Option<&str>) -> (r: String)
    ensures
        r@ == match configured {
            Some(t) => t@,
            None => DEFAULT_TITLE@,
        },
{
    match configured {
        Some(t) => owned(t),
        None => owned(DEFAULT_TITLE),
    }
}

/// The render format guessed from a readme path's extension: `md` or
/// `markdown` (any case) is Markdown, `rst` is reStructuredText, anything
/// else plain text.
pub open spec fn format_of(path: Seq<char>) -> ReadmeFormat {
    match extension_of(path) {
        Some(e) => if ascii_lower_seq(e) == "md"@ || ascii_lower_seq(e) == "markdown"@ {
            ReadmeFormat::Markdown
        } else if ascii_lower_seq(e) == "rst"@ {
            ReadmeFormat::Rst
        } else {
            ReadmeFormat::Plain
        },
        None => ReadmeFormat::Plain,
    }
}

/// Guesses a readme's render format from its path (see [`format_of`]).
pub fn guess_format(path: &str) -> (r: ReadmeFormat)
    ensures
        r == format_of(path@),
{
    match extension(path) {
        Some(e) => {
            let l = lower_chars(chars_of(e.as_str()).as_slice());
            if chars_eq(l.as_slice(), chars_of("md").as_slice()) || chars_eq(
                l.as_slice(),
                chars_of("markdown").as_slice(),
            ) {
                ReadmeFormat::Markdown
            } else if chars_eq(l.as_slice(), chars_of("rst").as_slice()) {
                ReadmeFormat::Rst
            } else {
                ReadmeFormat::Plain
            }
        },
        None => ReadmeFormat::Plain,
    }
}

/// Whether a site readme of `size` bytes is too large to read at all.
pub fn root_readme_too_large(size: u64) -> (r: bool)
    ensures
        r == (size > ROOT_README_LIMIT),
{
    size > ROOT_README_LIMIT
}

/// The site readme from the bytes read at `path`: `None` unless they are
/// UTF-8.
pub fn site_readme(path: &str, bytes: &[u8]) -> (r: Option<SiteReadme>)
    ensures
        vstd::utf8::valid_utf8(bytes@) ==> (r matches Some(s) && s.format == format_of(path@)
            && s.content@ == vstd::utf8::decode_utf8(bytes@)),
        !vstd::utf8::valid_utf8(bytes@) ==> r is None,
{
    match utf8_text(bytes) {
        Some(content) => Some(SiteReadme { format: guess_format(path), content }),
        None => None,
    }
}

} // verus!
