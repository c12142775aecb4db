//! Repository metadata rules: which configuration source wins, which values
//! count as unset, and which URLs may land in an `href`.
use vstd::prelude::*;

use crate::text::{chars_of, is_prefix, starts_with_chars, trim, trim_bounds, trim_str};
use crate::time::{agefile_time, agefile_time_of, git_time_text, git_time_text_of, rfc3339_text, zoned_text_of, RFC3339_FORMAT};

verus! {

/// `url` starts with `http://` or `https://`.
pub open spec fn spec_is_http_url(url: Seq<char>) -> bool {
    is_prefix("http://"@, url) || is_prefix("https://"@, url)
}

/// Whether `url` may be used as an `<a href>` for operator-configured links
/// (`homepage`, `.gitmodules` URLs): only `http://` and `https://` pass.
pub fn is_http_url(url: &str) -> (r: bool)
    ensures
        r == spec_is_http_url(url@),
{
    let v = chars_of(url);
    let a = chars_of("http://");
    let b = chars_of("https://");
    starts_with_chars(v.as_slice(), a.as_slice()) || starts_with_chars(v.as_slice(), b.as_slice())
}

/// `[axgit]` wins over `[cgit]`: the first of the two values that is set.
pub open spec fn first_set<T>(axgit: Option<T>, cgit: Option<T>) -> Option<T> {
    match axgit {
        Some(v) => Some(v),
        None => cgit,
    }
}

/// The view of an optional string.
pub open spec fn opt_view(o: Option<String>) -> Option<Seq<char>> {
    match o {
        Some(s) => Some(s@),
        None => None,
    }
}

/// A configuration string read from the `[axgit]` section, else `[cgit]`.
pub fn config_value(axgit: Option<String>, cgit: Option<String>) -> (r: Option<String>)
    ensures
        opt_view(r) == first_set(opt_view(axgit), opt_view(cgit)),
{
    match axgit {
        Some(v) => Some(v),
        None => cgit,
    }
}

/// A list-metadata value (`section`, `owner`, `desc`): the configured value,
/// with a blank (empty or whitespace-only) value read as unset.
pub open spec fn meta_text(v: Option<Seq<char>>) -> Option<Seq<char>> {
    match v {
        Some(s) => if trim(s).len() == 0 {
            None
        } else {
            Some(s)
        },
        None => None,
    }
}

/// Reads a list-metadata value from the two config sections: `[axgit]`
/// wins, and a blank value counts as unset.
pub fn meta_value(axgit: Option<String>, cgit: Option<String>) -> (r: Option<String>)
    ensures
        opt_view(r) == meta_text(first_set(opt_view(axgit), opt_view(cgit))),
{
    match config_value(axgit, cgit) {
        Some(v) => {
            let cs = chars_of(v.as_str());
            let (a, b) = trim_bounds(cs.as_slice());
            if a == b {
                None
            } else {
                Some(v)
            }
        },
        None => None,
    }
}

/// The `homepage` metadata value: as [`meta_value`], and only an
/// `http(s)://` URL, since it lands in an `href`.
pub fn homepage_value(axgit: Option<String>, cgit: Option<String>) -> (r: Option<String>)
    ensures
        opt_view(r) == match meta_text(first_set(opt_view(axgit), opt_view(cgit))) {
            Some(u) => if spec_is_http_url(u) {
                Some(u)
            } else {
                None
            },
            None => None,
        },
{
    match meta_value(axgit, cgit) {
        Some(u) => if is_http_url(u.as_str()) {
            Some(u)
        } else {
            None
        },
        None => None,
    }
}

/// The `module-link` template for one gitlink path, most specific first:
/// `axgit.<path>.module-link`, `cgit.<path>.module-link`,
/// `axgit.module-link`, `cgit.module-link`. The first one set decides, even
/// when it is empty (an empty per-path value suppresses the repo-wide one).
pub fn module_link_template(
    path_axgit: Option<String>,
    path_cgit: Option<String>,
    axgit: Option<String>,
    cgit: Option<String>,
) -> (r: Option<String>)
    ensures
        opt_view(r) == first_set(
            first_set(opt_view(path_axgit), opt_view(path_cgit)),
            first_set(opt_view(axgit), opt_view(cgit)),
        ),
{
    match config_value(path_axgit, path_cgit) {
        Some(t) => Some(t),
        None => config_value(axgit, cgit),
    }
}

/// A boolean flag: `[axgit]` wins over `[cgit]`; absent (or unparseable,
/// which the caller reads as absent) is `false`.
pub open spec fn flag_value(axgit: Option<bool>, cgit: Option<bool>) -> bool {
    match first_set(axgit, cgit) {
        Some(b) => b,
        None => false,
    }
}

/// Reads a boolean flag from the two config sections.
pub fn config_flag(axgit: Option<bool>, cgit: Option<bool>) -> (r: bool)
    ensures
        r == flag_value(axgit, cgit),
{
    match axgit {
        Some(b) => b,
        None => match cgit {
            Some(b) => b,
            None => false,
        },
    }
}

/// Whether a repository appears in the repository list: neither `hide` nor
/// `ignore` is set. The arguments are each flag's `[axgit]` and `[cgit]`
/// values.
pub fn should_list(
    hide_axgit: Option<bool>,
    hide_cgit: Option<bool>,
    ignore_axgit: Option<bool>,
    ignore_cgit: Option<bool>,
) -> (r: bool)
    ensures
        r == (!flag_value(hide_axgit, hide_cgit) && !flag_value(ignore_axgit, ignore_cgit)),
{
    !config_flag(hide_axgit, hide_cgit) && !config_flag(ignore_axgit, ignore_cgit)
}

/// Whether a repository is unreachable even by name: `ignore` is set
/// (`hide` only drops it from the list).
pub fn is_ignored(ignore_axgit: Option<bool>, ignore_cgit: Option<bool>) -> (r: bool)
    ensures
        r == flag_value(ignore_axgit, ignore_cgit),
{
    config_flag(ignore_axgit, ignore_cgit)
}

/// The `defbranch` value is used only when it names an existing local
/// branch; otherwise HEAD's shorthand.
pub fn default_branch(
    configured: Option<String>,
    configured_exists: bool,
    head_shorthand: Option<String>,
) -> (r: Option<String>)
    ensures
        opt_view(r) == match configured {
            Some(c) => if configured_exists {
                Some(c@)
            } else {
                opt_view(head_shorthand)
            },
            None => opt_view(head_shorthand),
        },
{
    match configured {
        Some(c) => if configured_exists {
            Some(c)
        } else {
            head_shorthand
        },
        None => head_shorthand,
    }
}


/// A repository's last-modified time: with an agefile, the time its
/// trimmed text names, or when that names none its mtime taken as UTC;
/// without one, HEAD's author date in its own offset. An agefile whose
/// text and mtime both fail gives none.
pub open spec fn last_modified_of(
    agefile_exists: bool,
    agefile_text: Option<Seq<char>>,
    agefile_mtime_ns: Option<i128>,
    head_time: Option<(i64, i32)>,
) -> Option<Seq<char>> {
    if agefile_exists {
        let from_text = match agefile_text {
            Some(t) => agefile_time_of(trim(t)),
            None => None,
        };
        match from_text {
            Some((n, off)) => zoned_text_of(RFC3339_FORMAT@, n, off),
            None => match agefile_mtime_ns {
                Some(n) => zoned_text_of(RFC3339_FORMAT@, n, 0),
                None => None,
            },
        }
    } else {
        match head_time {
            Some((s, m)) => git_time_text_of(s, m),
            None => None,
        }
    }
}

/// A repository's last-modified time as RFC 3339 (see
/// [`last_modified_of`]): `agefile_text` is the agefile's content when it
/// could be read, `agefile_mtime_ns` its mtime in nanoseconds since the
/// epoch, `head_time` HEAD's author date (seconds and offset in minutes).
pub fn last_modified_text(
    agefile_exists: bool,
    agefile_text: Option<&str>,
    agefile_mtime_ns: Option<i128>,
    head_time: Option<(i64, i32)>,
) -> (r: Option<String>)
    ensures
        opt_view(r) == last_modified_of(
            agefile_exists,
            match agefile_text {
                Some(t) => Some(t@),
                None => None,
            },
            agefile_mtime_ns,
            head_time,
        ),
{
    if agefile_exists {
        let from_text = match agefile_text {
            Some(t) => {
                let trimmed = trim_str(t);
                agefile_time(trimmed.as_str())
            },
            None => None,
        };
        match from_text {
            Some((n, off)) => rfc3339_text(n, off),
            None => match agefile_mtime_ns {
                Some(n) => rfc3339_text(n, 0),
                None => None,
            },
        }
    } else {
        match head_time {
            Some((s, m)) => git_time_text(s, m),
            None => None,
        }
    }
}

} // verus!
