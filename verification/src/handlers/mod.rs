//! Request-parameter parsing shared by the HTTP handlers. Every parser
//! answers an invalid value with the JSON `invalid_param` error rather than
//! a framework-level plain-text 400.
use vstd::prelude::*;

pub mod diff;
pub mod feed;
pub mod files;
pub mod query;
pub mod repos;
pub mod site;

use crate::error::{ApiError, invalid_param_quoting, invalid_param_str};
use crate::num::{parse_u32, parse_unsigned, parse_usize};
use crate::repo::diff::{DEFAULT_CONTEXT, MAX_CONTEXT};
use crate::repo::search::SearchKind;
use crate::repo::stats::StatsPeriod;
use crate::text::{
    chars_of, is_alnum_char, str_eq, string_of, strip_both, strip_bounds, trim, trim_bounds,
};

verus! {

/// Result count used when a request names none.
pub const DEFAULT_LIMIT: usize = 50;

/// Largest result count a request may ask for; larger values are rejected,
/// never clamped.
pub const MAX_LIMIT: usize = 100;

/// Longest search query, in characters.
pub const MAX_QUERY_CHARS: usize = 200;

/// `r` is an `invalid_param` error with exactly `detail`.
pub open spec fn is_invalid<T>(r: Result<T, ApiError>, detail: Seq<char>) -> bool {
    r matches Err(ApiError::InvalidParam(d)) && d@ == detail
}

/// `limit=`: absent is `default`; otherwise an integer in `1..=100`.
pub fn parse_limit(raw: Option<&str>, default: usize) -> (r: Result<usize, ApiError>)
    ensures
        raw is None ==> r == Ok::<usize, ApiError>(default),
        raw matches Some(s) ==> {
            match parse_unsigned(s@, usize::MAX as int) {
                Some(n) => if 1 <= n <= MAX_LIMIT {
                    r == Ok::<usize, ApiError>(n as usize)
                } else {
                    is_invalid(r, "limit must be an integer between 1 and 100"@)
                },
                None => is_invalid(r, "limit must be an integer between 1 and 100"@),
            }
        },
{
    match raw {
        None => Ok(default),
        Some(s) => {
            let v = chars_of(s);
            match parse_usize(v.as_slice()) {
                Some(n) => {
                    if 1 <= n && n <= MAX_LIMIT {
                        Ok(n)
                    } else {
                        Err(invalid_param_str("limit must be an integer between 1 and 100"))
                    }
                },
                None => Err(invalid_param_str("limit must be an integer between 1 and 100")),
            }
        },
    }
}

/// `context=`: absent is 3; otherwise an integer in `0..=100`.
pub fn parse_context(raw: Option<&str>) -> (r: Result<u32, ApiError>)
    ensures
        raw is None ==> r == Ok::<u32, ApiError>(DEFAULT_CONTEXT),
        raw matches Some(s) ==> {
            match parse_unsigned(s@, u32::MAX as int) {
                Some(n) => if n <= MAX_CONTEXT {
                    r == Ok::<u32, ApiError>(n as u32)
                } else {
                    is_invalid(r, "context must be an integer between 0 and 100"@)
                },
                None => is_invalid(r, "context must be an integer between 0 and 100"@),
            }
        },
{
    match raw {
        None => Ok(DEFAULT_CONTEXT),
        Some(s) => {
            let v = chars_of(s);
            match parse_u32(v.as_slice()) {
                Some(n) => {
                    if n <= MAX_CONTEXT {
                        Ok(n)
                    } else {
                        Err(invalid_param_str("context must be an integer between 0 and 100"))
                    }
                },
                None => Err(invalid_param_str("context must be an integer between 0 and 100")),
            }
        },
    }
}

/// A boolean flag: absent, `0` or `false` is off; `1` or `true` is on;
/// anything else is rejected, naming the parameter.
pub fn parse_flag(raw: Option<&str>, name: &str) -> (r: Result<bool, ApiError>)
    ensures
        raw is None ==> r == Ok::<bool, ApiError>(false),
        raw matches Some(s) ==> {
            if s@ == "0"@ || s@ == "false"@ {
                r == Ok::<bool, ApiError>(false)
            } else if s@ == "1"@ || s@ == "true"@ {
                r == Ok::<bool, ApiError>(true)
            } else {
                is_invalid(r, name@ + " must be one of: 0, 1, true, false"@)
            }
        },
{
    match raw {
        None => Ok(false),
        Some(s) => {
            if str_eq(s, "0") || str_eq(s, "false") {
                Ok(false)
            } else if str_eq(s, "1") || str_eq(s, "true") {
                Ok(true)
            } else {
                let e = invalid_param_quoting("", name, " must be one of: 0, 1, true, false");
                proof {
                    reveal_strlit("");
                    assert(""@ + name@ == name@);
                }
                Err(e)
            }
        },
    }
}

/// A relative path with the slashes at both ends removed; `None` when
/// nothing is left.
pub fn clean_path(raw: Option<&str>) -> (r: Option<String>)
    ensures
        raw is None ==> r is None,
        raw matches Some(s) ==> {
            let t = strip_both(s@, '/');
            if t.len() == 0 {
                r is None
            } else {
                r matches Some(p) && p@ == t
            }
        },
{
    match raw {
        None => None,
        Some(s) => {
            let v = chars_of(s);
            let (a, b) = strip_bounds(v.as_slice(), '/');
            if a == b {
                None
            } else {
                Some(string_of(&v.as_slice()[a..b]))
            }
        },
    }
}

/// What one character of a file-name component becomes.
pub open spec fn safe_component_char(c: char) -> char {
    if is_alnum_char(c) || c == '.' || c == '_' || c == '-' {
        c
    } else {
        '-'
    }
}

/// Replaces everything outside `[A-Za-z0-9._-]` with `-` (`feature/x` →
/// `feature-x`), leaving text safe for a `Content-Disposition` filename.
pub fn sanitize_component(component: &str) -> (r: String)
    ensures
        r@ == Seq::new(component@.len(), |i: int| safe_component_char(component@[i])),
{
    let v = chars_of(component);
    let mut out: Vec<char> = Vec::new();
    let mut i: usize = 0;
    while i < v.len()
        invariant
            i <= v@.len(),
            v@ == component@,
            out@.len() == i,
            forall|j: int| 0 <= j < i ==> out@[j] == safe_component_char(v@[j]),
        decreases v@.len() - i,
    {
        let c = v[i];
        let keep = ('0' <= c && c <= '9') || ('a' <= c && c <= 'z') || ('A' <= c && c <= 'Z') || c
            == '.' || c == '_' || c == '-';
        if keep {
            out.push(c);
        } else {
            out.push('-');
        }
        i = i + 1;
    }
    assert(out@ == Seq::new(component@.len(), |i: int| safe_component_char(component@[i])));
    string_of(out.as_slice())
}

/// `q=`: trimmed; empty or longer than 200 characters is rejected.
pub fn parse_query(raw: Option<&str>) -> (r: Result<String, ApiError>)
    ensures
        ({
            let t = match raw {
                Some(s) => trim(s@),
                None => Seq::<char>::empty(),
            };
            if t.len() == 0 || t.len() > MAX_QUERY_CHARS {
                is_invalid(r, "q must be 1-200 characters"@)
            } else {
                r matches Ok(q) && q@ == t
            }
        }),
{
    let v = match raw {
        Some(s) => chars_of(s),
        None => Vec::new(),
    };
    let (a, b) = trim_bounds(v.as_slice());
    if a == b || b - a > MAX_QUERY_CHARS {
        return Err(invalid_param_str("q must be 1-200 characters"));
    }
    Ok(string_of(&v.as_slice()[a..b]))
}

/// `type=`: absent is `content`; unknown names are rejected, quoting them.
pub fn parse_kind(raw: Option<&str>) -> (r: Result<SearchKind, ApiError>)
    ensures
        match raw {
            None => r == Ok::<SearchKind, ApiError>(SearchKind::Content),
            Some(s) => if s@ == "content"@ {
                r == Ok::<SearchKind, ApiError>(SearchKind::Content)
            } else if s@ == "path"@ {
                r == Ok::<SearchKind, ApiError>(SearchKind::Path)
            } else if s@ == "message"@ {
                r == Ok::<SearchKind, ApiError>(SearchKind::Message)
            } else if s@ == "author"@ {
                r == Ok::<SearchKind, ApiError>(SearchKind::Author)
            } else if s@ == "committer"@ {
                r == Ok::<SearchKind, ApiError>(SearchKind::Committer)
            } else if s@ == "range"@ {
                r == Ok::<SearchKind, ApiError>(SearchKind::Range)
            } else {
                is_invalid(
                    r,
                    "type must be one of content, path, message, author, committer, range (got '"@
                        + s@ + "')"@,
                )
            },
        },
{
    match raw {
        None => Ok(SearchKind::Content),
        Some(s) => {
            if str_eq(s, "content") {
                Ok(SearchKind::Content)
            } else if str_eq(s, "path") {
                Ok(SearchKind::Path)
            } else if str_eq(s, "message") {
                Ok(SearchKind::Message)
            } else if str_eq(s, "author") {
                Ok(SearchKind::Author)
            } else if str_eq(s, "committer") {
                Ok(SearchKind::Committer)
            } else if str_eq(s, "range") {
                Ok(SearchKind::Range)
            } else {
                Err(
                    invalid_param_quoting(
                        "type must be one of content, path, message, author, committer, range (got '",
                        s,
                        "')",
                    ),
                )
            }
        },
    }
}

/// `period=`: absent is `month`; unknown names are rejected, quoting them.
pub fn parse_period(raw: Option<&str>) -> (r: Result<StatsPeriod, ApiError>)
    ensures
        match raw {
            None => r == Ok::<StatsPeriod, ApiError>(StatsPeriod::Month),
            Some(s) => if s@ == "month"@ {
                r == Ok::<StatsPeriod, ApiError>(StatsPeriod::Month)
            } else if s@ == "week"@ {
                r == Ok::<StatsPeriod, ApiError>(StatsPeriod::Week)
            } else if s@ == "quarter"@ {
                r == Ok::<StatsPeriod, ApiError>(StatsPeriod::Quarter)
            } else if s@ == "year"@ {
                r == Ok::<StatsPeriod, ApiError>(StatsPeriod::Year)
            } else {
                is_invalid(r, "period must be one of week, month, quarter, year (got '"@ + s@ + "')"@)
            },
        },
{
    match raw {
        None => Ok(StatsPeriod::Month),
        Some(s) => {
            if str_eq(s, "month") {
                Ok(StatsPeriod::Month)
            } else if str_eq(s, "week") {
                Ok(StatsPeriod::Week)
            } else if str_eq(s, "quarter") {
                Ok(StatsPeriod::Quarter)
            } else if str_eq(s, "year") {
                Ok(StatsPeriod::Year)
            } else {
                Err(
                    invalid_param_quoting(
                        "period must be one of week, month, quarter, year (got '",
                        s,
                        "')",
                    ),
                )
            }
        },
    }
}


// ---------------------------------------------------------------------------
// What each parameter comes to
// ---------------------------------------------------------------------------

/// What `limit=` comes to (see [`parse_limit`]): the count, or the detail
/// of the `invalid_param` it is refused with.
pub open spec fn limit_outcome(raw: Option<Seq<char>>, default: usize) -> Result<usize, Seq<char>> {
    match raw {
        None => Ok(default),
        Some(s) => match parse_unsigned(s, usize::MAX as int) {
            Some(n) => if 1 <= n <= MAX_LIMIT {
                Ok(n as usize)
            } else {
                Err("limit must be an integer between 1 and 100"@)
            },
            None => Err("limit must be an integer between 1 and 100"@),
        },
    }
}

/// What `context=` comes to (see [`parse_context`]).
pub open spec fn context_outcome(raw: Option<Seq<char>>) -> Result<u32, Seq<char>> {
    match raw {
        None => Ok(DEFAULT_CONTEXT),
        Some(s) => match parse_unsigned(s, u32::MAX as int) {
            Some(n) => if n <= MAX_CONTEXT {
                Ok(n as u32)
            } else {
                Err("context must be an integer between 0 and 100"@)
            },
            None => Err("context must be an integer between 0 and 100"@),
        },
    }
}

/// What the flag `name=` comes to (see [`parse_flag`]).
pub open spec fn flag_outcome(raw: Option<Seq<char>>, name: Seq<char>) -> Result<bool, Seq<char>> {
    match raw {
        None => Ok(false),
        Some(s) => if s == "0"@ || s == "false"@ {
            Ok(false)
        } else if s == "1"@ || s == "true"@ {
            Ok(true)
        } else {
            Err(name + " must be one of: 0, 1, true, false"@)
        },
    }
}

/// What `path=` comes to (see [`clean_path`]).
pub open spec fn path_outcome(raw: Option<Seq<char>>) -> Option<Seq<char>> {
    match raw {
        None => None,
        Some(s) => if strip_both(s, '/').len() == 0 {
            None
        } else {
            Some(strip_both(s, '/'))
        },
    }
}

/// What `q=` comes to (see [`parse_query`]).
pub open spec fn query_outcome(raw: Option<Seq<char>>) -> Result<Seq<char>, Seq<char>> {
    let t = match raw {
        Some(s) => trim(s),
        None => Seq::<char>::empty(),
    };
    if t.len() == 0 || t.len() > MAX_QUERY_CHARS {
        Err("q must be 1-200 characters"@)
    } else {
        Ok(t)
    }
}

/// What `type=` comes to (see [`parse_kind`]).
pub open spec fn kind_outcome(raw: Option<Seq<char>>) -> Result<SearchKind, Seq<char>> {
    match raw {
        None => Ok(SearchKind::Content),
        Some(s) => if s == "content"@ {
            Ok(SearchKind::Content)
        } else if s == "path"@ {
            Ok(SearchKind::Path)
        } else if s == "message"@ {
            Ok(SearchKind::Message)
        } else if s == "author"@ {
            Ok(SearchKind::Author)
        } else if s == "committer"@ {
            Ok(SearchKind::Committer)
        } else if s == "range"@ {
            Ok(SearchKind::Range)
        } else {
            Err("type must be one of content, path, message, author, committer, range (got '"@ + s
                + "')"@)
        },
    }
}

/// What `period=` comes to (see [`parse_period`]).
pub open spec fn period_outcome(raw: Option<Seq<char>>) -> Result<StatsPeriod, Seq<char>> {
    match raw {
        None => Ok(StatsPeriod::Month),
        Some(s) => if s == "month"@ {
            Ok(StatsPeriod::Month)
        } else if s == "week"@ {
            Ok(StatsPeriod::Week)
        } else if s == "quarter"@ {
            Ok(StatsPeriod::Quarter)
        } else if s == "year"@ {
            Ok(StatsPeriod::Year)
        } else {
            Err("period must be one of week, month, quarter, year (got '"@ + s + "')"@)
        },
    }
}

} // verus!
