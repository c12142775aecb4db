//! The query strings of the HTTP endpoints and what each comes to: the
//! parameters checked in the order the endpoint checks them, so that the
//! first invalid one is the one a request is refused for.
use vstd::prelude::*;

use crate::error::{invalid_param_quoting, ApiError};
use crate::handlers::diff::{from_ref, to_ref};
use crate::handlers::repos::parse_sort;
use crate::handlers::{
    clean_path, context_outcome, flag_outcome, is_invalid, kind_outcome, limit_outcome, parse_context,
    parse_flag, parse_kind, parse_limit, parse_period, parse_query, path_outcome, period_outcome,
    query_outcome, DEFAULT_LIMIT,
};
use crate::config::sort_error_text;
use crate::repo::commits::{cursor_parts, Cursor};
use crate::repo::meta::opt_view;
use crate::repo::search::SearchKind;
use crate::repo::sort::{parse_order, RepoOrder};
use crate::repo::stats::StatsPeriod;
use crate::shell::opt_str_view;
use crate::text::owned;

verus! {

/// Borrows the text of an optional string.
fn borrow_text(o: &Option<String>) -> (r: Option<&str>)
    ensures
        opt_str_view(r) == opt_view(*o),
{
    match o {
        Some(s) => Some(s.as_str()),
        None => None,
    }
}

/// Which page a `cursor=` names: none when absent; the text of an
/// `invalid_param` when it does not parse.
pub open spec fn cursor_outcome(raw: Option<Seq<char>>) -> Result<Option<(Seq<char>, int)>, Seq<char>> {
    match raw {
        None => Ok(None),
        Some(s) => match cursor_parts(s) {
            Some(p) => Ok(Some(p)),
            None => Err("invalid cursor '"@ + s + "'"@),
        },
    }
}

/// The start and offset of an optional cursor.
pub open spec fn cursor_view(c: Option<Cursor>) -> Option<(Seq<char>, int)> {
    match c {
        Some(x) => Some((x.start@, x.offset as int)),
        None => None,
    }
}

/// Parses `cursor=`, refusing a value that does not parse with
/// `invalid_param` quoting it.
fn parse_cursor(raw: Option<&str>) -> (r: Result<Option<Cursor>, ApiError>)
    ensures
        match cursor_outcome(opt_str_view(raw)) {
            Ok(c) => r matches Ok(x) && cursor_view(x) == c,
            Err(d) => is_invalid(r, d),
        },
{
    match raw {
        None => Ok(None),
        Some(s) => match Cursor::parse(s) {
            Some(c) => Ok(Some(c)),
            None => Err(invalid_param_quoting("invalid cursor '", s, "'")),
        },
    }
}

// ---------------------------------------------------------------------------
// The repository list
// ---------------------------------------------------------------------------

/// `GET /repos`: `?sort=`.
#[derive(Debug, Clone, Default)]
pub struct ReposQuery {
    pub sort: Option<String>,
}

impl ReposQuery {
    /// The order the list is sorted in: `default` when `sort` is absent or
    /// empty, else the order it spells; any other text is `invalid_param`.
    pub fn order(&self, default: RepoOrder) -> (r: Result<RepoOrder, ApiError>)
        ensures
            match opt_view(self.sort) {
                None => r == Ok::<RepoOrder, ApiError>(default),
                Some(s) => if s.len() == 0 {
                    r == Ok::<RepoOrder, ApiError>(default)
                } else {
                    match parse_order(s) {
                    Some(o) => r == Ok::<RepoOrder, ApiError>(o),
                    None => is_invalid(r, sort_error_text(s)),
                    }
                },
            },
    {
        parse_sort(borrow_text(&self.sort), default)
    }
}

// ---------------------------------------------------------------------------
// The commit log
// ---------------------------------------------------------------------------

/// `GET /repos/{repo}/commits`: `?ref=&path=&cursor=&limit=&body=&follow=&stat=`.
#[derive(Debug, Clone, Default)]
pub struct CommitsQuery {
    pub reference: Option<String>,
    pub path: Option<String>,
    pub cursor: Option<String>,
    pub limit: Option<String>,
    pub body: Option<String>,
    pub follow: Option<String>,
    pub stat: Option<String>,
}

/// A commit-log request that passed its checks.
#[derive(Debug)]
pub struct CommitsRequest {
    /// The ref to walk from; `HEAD` when absent. A cursor overrides it.
    pub reference: Option<String>,
    pub path: Option<String>,
    pub cursor: Option<Cursor>,
    pub limit: usize,
    pub include_body: bool,
    pub follow: bool,
    pub include_stat: bool,
}

impl CommitsQuery {
    /// Checks `limit`, then the `body`, `follow` and `stat` flags, then the
    /// cursor; the first that is invalid is the `invalid_param` answered.
    pub fn validate(self) -> (r: Result<CommitsRequest, ApiError>)
        ensures
            match limit_outcome(opt_view(self.limit), DEFAULT_LIMIT) {
                Err(d) => is_invalid(r, d),
                Ok(limit) => match flag_outcome(opt_view(self.body), "body"@) {
                    Err(d) => is_invalid(r, d),
                    Ok(body) => match flag_outcome(opt_view(self.follow), "follow"@) {
                        Err(d) => is_invalid(r, d),
                        Ok(follow) => match flag_outcome(opt_view(self.stat), "stat"@) {
                            Err(d) => is_invalid(r, d),
                            Ok(stat) => match cursor_outcome(opt_view(self.cursor)) {
                                Err(d) => is_invalid(r, d),
                                Ok(c) => r matches Ok(q) && {
                                    &&& opt_view(q.reference) == opt_view(self.reference)
                                    &&& opt_view(q.path) == path_outcome(opt_view(self.path))
                                    &&& cursor_view(q.cursor) == c
                                    &&& q.limit == limit
                                    &&& q.include_body == body
                                    &&& q.follow == follow
                                    &&& q.include_stat == stat
                                },
                            },
                        },
                    },
                },
            },
    {
        let limit = match parse_limit(borrow_text(&self.limit), DEFAULT_LIMIT) {
            Ok(n) => n,
            Err(e) => return Err(e),
        };
        let include_body = match parse_flag(borrow_text(&self.body), "body") {
            Ok(b) => b,
            Err(e) => return Err(e),
        };
        let follow = match parse_flag(borrow_text(&self.follow), "follow") {
            Ok(b) => b,
            Err(e) => return Err(e),
        };
        let include_stat = match parse_flag(borrow_text(&self.stat), "stat") {
            Ok(b) => b,
            Err(e) => return Err(e),
        };
        let cursor = match parse_cursor(borrow_text(&self.cursor)) {
            Ok(c) => c,
            Err(e) => return Err(e),
        };
        let path = clean_path(borrow_text(&self.path));
        Ok(CommitsRequest {
            reference: self.reference,
            path,
            cursor,
            limit,
            include_body,
            follow,
            include_stat,
        })
    }
}

// ---------------------------------------------------------------------------
// Diffs
// ---------------------------------------------------------------------------

/// `GET /repos/{repo}/commits/{sha}/diff`: `?path=&context=&ignorews=`.
#[derive(Debug, Clone, Default)]
pub struct DiffQuery {
    pub path: Option<String>,
    pub context: Option<String>,
    pub ignorews: Option<String>,
}

/// A commit-diff request that passed its checks.
#[derive(Debug)]
pub struct DiffRequest {
    pub path: Option<String>,
    pub context: u32,
    pub ignore_whitespace: bool,
}

impl DiffQuery {
    /// Checks `context`, then `ignorews`.
    pub fn validate(self) -> (r: Result<DiffRequest, ApiError>)
        ensures
            match context_outcome(opt_view(self.context)) {
                Err(d) => is_invalid(r, d),
                Ok(context) => match flag_outcome(opt_view(self.ignorews), "ignorews"@) {
                    Err(d) => is_invalid(r, d),
                    Ok(ws) => r matches Ok(q) && {
                        &&& opt_view(q.path) == path_outcome(opt_view(self.path))
                        &&& q.context == context
                        &&& q.ignore_whitespace == ws
                    },
                },
            },
    {
        let path = clean_path(borrow_text(&self.path));
        let context = match parse_context(borrow_text(&self.context)) {
            Ok(n) => n,
            Err(e) => return Err(e),
        };
        let ignore_whitespace = match parse_flag(borrow_text(&self.ignorews), "ignorews") {
            Ok(b) => b,
            Err(e) => return Err(e),
        };
        Ok(DiffRequest { path, context, ignore_whitespace })
    }
}

/// The revision a two-revision request compares to: `HEAD` when absent or
/// empty.
pub open spec fn to_outcome(raw: Option<Seq<char>>) -> Seq<char> {
    match raw {
        Some(s) => if s.len() == 0 {
            "HEAD"@
        } else {
            s
        },
        None => "HEAD"@,
    }
}

/// The revision a two-revision request compares from: none when absent or
/// empty.
pub open spec fn from_outcome(raw: Option<Seq<char>>) -> Option<Seq<char>> {
    match raw {
        Some(s) => if s.len() == 0 {
            None
        } else {
            Some(s)
        },
        None => None,
    }
}

/// Both sides of a two-revision request.
fn sides(from: Option<String>, to: Option<String>) -> (r: (Option<String>, String))
    ensures
        opt_view(r.0) == from_outcome(opt_view(from)),
        r.1@ == to_outcome(opt_view(to)),
{
    (from_ref(from), to_ref(to))
}

/// `GET /repos/{repo}/diff`: `?from=&to=&path=&context=&ignorews=&stat=`.
#[derive(Debug, Clone, Default)]
pub struct RevDiffQuery {
    pub from: Option<String>,
    pub to: Option<String>,
    pub path: Option<String>,
    pub context: Option<String>,
    pub ignorews: Option<String>,
    pub stat: Option<String>,
}

/// `GET /repos/{repo}/rawdiff`: `?from=&to=&path=&context=&ignorews=`.
#[derive(Debug, Clone, Default)]
pub struct RawDiffQuery {
    pub from: Option<String>,
    pub to: Option<String>,
    pub path: Option<String>,
    pub context: Option<String>,
    pub ignorews: Option<String>,
}

/// A two-revision diff request that passed its checks.
#[derive(Debug)]
pub struct RangeRequest {
    pub from: Option<String>,
    pub to: String,
    pub path: Option<String>,
    pub context: u32,
    pub ignore_whitespace: bool,
    /// Only the diffstat, no hunks.
    pub stat_only: bool,
}

impl RevDiffQuery {
    /// Checks `context`, then the `ignorews` and `stat` flags.
    pub fn validate(self) -> (r: Result<RangeRequest, ApiError>)
        ensures
            match context_outcome(opt_view(self.context)) {
                Err(d) => is_invalid(r, d),
                Ok(context) => match flag_outcome(opt_view(self.ignorews), "ignorews"@) {
                    Err(d) => is_invalid(r, d),
                    Ok(ws) => match flag_outcome(opt_view(self.stat), "stat"@) {
                        Err(d) => is_invalid(r, d),
                        Ok(stat) => r matches Ok(q) && {
                            &&& opt_view(q.from) == from_outcome(opt_view(self.from))
                            &&& q.to@ == to_outcome(opt_view(self.to))
                            &&& opt_view(q.path) == path_outcome(opt_view(self.path))
                            &&& q.context == context
                            &&& q.ignore_whitespace == ws
                            &&& q.stat_only == stat
                        },
                    },
                },
            },
    {
        let path = clean_path(borrow_text(&self.path));
        let context = match parse_context(borrow_text(&self.context)) {
            Ok(n) => n,
            Err(e) => return Err(e),
        };
        let ignore_whitespace = match parse_flag(borrow_text(&self.ignorews), "ignorews") {
            Ok(b) => b,
            Err(e) => return Err(e),
        };
        let stat_only = match parse_flag(borrow_text(&self.stat), "stat") {
            Ok(b) => b,
            Err(e) => return Err(e),
        };
        let (from, to) = sides(self.from, self.to);
        Ok(RangeRequest { from, to, path, context, ignore_whitespace, stat_only })
    }
}

impl RawDiffQuery {
    /// Checks `context`, then `ignorews`; a raw diff always has hunks.
    pub fn validate(self) -> (r: Result<RangeRequest, ApiError>)
        ensures
            match context_outcome(opt_view(self.context)) {
                Err(d) => is_invalid(r, d),
                Ok(context) => match flag_outcome(opt_view(self.ignorews), "ignorews"@) {
                    Err(d) => is_invalid(r, d),
                    Ok(ws) => r matches Ok(q) && {
                        &&& opt_view(q.from) == from_outcome(opt_view(self.from))
                        &&& q.to@ == to_outcome(opt_view(self.to))
                        &&& opt_view(q.path) == path_outcome(opt_view(self.path))
                        &&& q.context == context
                        &&& q.ignore_whitespace == ws
                        &&& !q.stat_only
                    },
                },
            },
    {
        let path = clean_path(borrow_text(&self.path));
        let context = match parse_context(borrow_text(&self.context)) {
            Ok(n) => n,
            Err(e) => return Err(e),
        };
        let ignore_whitespace = match parse_flag(borrow_text(&self.ignorews), "ignorews") {
            Ok(b) => b,
            Err(e) => return Err(e),
        };
        let (from, to) = sides(self.from, self.to);
        Ok(RangeRequest { from, to, path, context, ignore_whitespace, stat_only: false })
    }
}

/// `GET /repos/{repo}/patch`: `?from=&to=&path=`.
#[derive(Debug, Clone, Default)]
pub struct PatchQuery {
    pub from: Option<String>,
    pub to: Option<String>,
    pub path: Option<String>,
}

/// A patch request; it has nothing to refuse.
#[derive(Debug)]
pub struct PatchRequest {
    pub from: Option<String>,
    pub to: String,
    pub path: Option<String>,
}

impl PatchQuery {
    /// The patch's revisions and path.
    pub fn request(self) -> (r: PatchRequest)
        ensures
            opt_view(r.from) == from_outcome(opt_view(self.from)),
            r.to@ == to_outcome(opt_view(self.to)),
            opt_view(r.path) == path_outcome(opt_view(self.path)),
    {
        let path = clean_path(borrow_text(&self.path));
        let (from, to) = sides(self.from, self.to);
        PatchRequest { from, to, path }
    }
}

// ---------------------------------------------------------------------------
// README, feed, search, statistics
// ---------------------------------------------------------------------------

/// `GET /repos/{repo}/readme`: `?ref=`.
#[derive(Debug, Clone, Default)]
pub struct ReadmeQuery {
    pub reference: Option<String>,
}

impl ReadmeQuery {
    /// The ref the README is looked up at: `HEAD` when absent.
    pub fn refname(self) -> (r: String)
        ensures
            r@ == match opt_view(self.reference) {
                Some(s) => s,
                None => "HEAD"@,
            },
    {
        match self.reference {
            Some(s) => s,
            None => owned("HEAD"),
        }
    }
}

/// `GET /repos/{repo}/feed`: `?ref=&path=&all=`.
#[derive(Debug, Clone, Default)]
pub struct FeedQuery {
    pub reference: Option<String>,
    pub path: Option<String>,
    pub all: Option<String>,
}

/// A feed request that passed its checks.
#[derive(Debug)]
pub struct FeedRequest {
    pub reference: Option<String>,
    pub path: Option<String>,
    /// Every branch and tag instead of one ref.
    pub all: bool,
}

impl FeedQuery {
    /// Checks the `all` flag.
    pub fn validate(self) -> (r: Result<FeedRequest, ApiError>)
        ensures
            match flag_outcome(opt_view(self.all), "all"@) {
                Err(d) => is_invalid(r, d),
                Ok(all) => r matches Ok(q) && {
                    &&& opt_view(q.reference) == opt_view(self.reference)
                    &&& opt_view(q.path) == path_outcome(opt_view(self.path))
                    &&& q.all == all
                },
            },
    {
        let path = clean_path(borrow_text(&self.path));
        let all = match parse_flag(borrow_text(&self.all), "all") {
            Ok(b) => b,
            Err(e) => return Err(e),
        };
        Ok(FeedRequest { reference: self.reference, path, all })
    }
}

/// `GET /repos/{repo}/search`: `?q=&type=&ref=&limit=`.
#[derive(Debug, Clone, Default)]
pub struct SearchQuery {
    pub q: Option<String>,
    pub kind: Option<String>,
    pub reference: Option<String>,
    pub limit: Option<String>,
}

/// A search request that passed its checks.
#[derive(Debug)]
pub struct SearchRequest {
    /// The trimmed query text.
    pub query: String,
    pub kind: SearchKind,
    pub reference: Option<String>,
    pub limit: usize,
}

impl SearchQuery {
    /// Checks `q`, then `type`, then `limit`.
    pub fn validate(self) -> (r: Result<SearchRequest, ApiError>)
        ensures
            match query_outcome(opt_view(self.q)) {
                Err(d) => is_invalid(r, d),
                Ok(text) => match kind_outcome(opt_view(self.kind)) {
                    Err(d) => is_invalid(r, d),
                    Ok(kind) => match limit_outcome(opt_view(self.limit), DEFAULT_LIMIT) {
                        Err(d) => is_invalid(r, d),
                        Ok(limit) => r matches Ok(q) && {
                            &&& q.query@ == text
                            &&& q.kind == kind
                            &&& opt_view(q.reference) == opt_view(self.reference)
                            &&& q.limit == limit
                        },
                    },
                },
            },
    {
        let query = match parse_query(borrow_text(&self.q)) {
            Ok(t) => t,
            Err(e) => return Err(e),
        };
        let kind = match parse_kind(borrow_text(&self.kind)) {
            Ok(k) => k,
            Err(e) => return Err(e),
        };
        let limit = match parse_limit(borrow_text(&self.limit), DEFAULT_LIMIT) {
            Ok(n) => n,
            Err(e) => return Err(e),
        };
        Ok(SearchRequest { query, kind, reference: self.reference, limit })
    }
}

/// `GET /repos/{repo}/stats`: `?period=&ref=&limit=`.
#[derive(Debug, Clone, Default)]
pub struct StatsQuery {
    pub period: Option<String>,
    pub reference: Option<String>,
    pub limit: Option<String>,
}

/// A statistics request that passed its checks.
#[derive(Debug)]
pub struct StatsRequest {
    pub period: StatsPeriod,
    pub reference: Option<String>,
    pub limit: usize,
}

impl StatsQuery {
    /// Checks `period`, then `limit`.
    pub fn validate(self) -> (r: Result<StatsRequest, ApiError>)
        ensures
            match period_outcome(opt_view(self.period)) {
                Err(d) => is_invalid(r, d),
                Ok(period) => match limit_outcome(opt_view(self.limit), DEFAULT_LIMIT) {
                    Err(d) => is_invalid(r, d),
                    Ok(limit) => r matches Ok(q) && {
                        &&& q.period == period
                        &&& opt_view(q.reference) == opt_view(self.reference)
                        &&& q.limit == limit
                    },
                },
            },
    {
        let period = match parse_period(borrow_text(&self.period)) {
            Ok(p) => p,
            Err(e) => return Err(e),
        };
        let limit = match parse_limit(borrow_text(&self.limit), DEFAULT_LIMIT) {
            Ok(n) => n,
            Err(e) => return Err(e),
        };
        Ok(StatsRequest { period, reference: self.reference, limit })
    }
}

} // verus!
