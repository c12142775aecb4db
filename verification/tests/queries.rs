use axgit::error::ApiError;
use axgit::handlers::query::{
    CommitsQuery, DiffQuery, FeedQuery, PatchQuery, RawDiffQuery, ReadmeQuery, ReposQuery, RevDiffQuery, SearchQuery,
    StatsQuery,
};
use axgit::repo::search::SearchKind;
use axgit::repo::sort::{RepoOrder, RepoSort};
use axgit::repo::stats::StatsPeriod;
use axgit::smart_http::InfoRefsQuery;

fn some(s: &str) -> Option<String> {
    Some(s.to_owned())
}

fn invalid<T: std::fmt::Debug>(r: Result<T, ApiError>) -> String {
    match r {
        Err(ApiError::InvalidParam(d)) => d,
        other => panic!("expected invalid_param, got {other:?}"),
    }
}

#[test]
fn repos_query_falls_back_to_the_default_order() {
    let default = RepoOrder { key: RepoSort::Name, reverse: false };
    assert_eq!(ReposQuery { sort: None }.order(default).unwrap(), default);
    assert_eq!(ReposQuery { sort: some("") }.order(default).unwrap(), default);
    let idle = ReposQuery { sort: some("idle") }.order(default).unwrap();
    assert_eq!(idle, RepoOrder { key: RepoSort::Idle, reverse: true });
    assert!(matches!(ReposQuery { sort: some("bogus") }.order(default), Err(ApiError::InvalidParam(_))));
}

#[test]
fn commits_query_defaults() {
    let q = CommitsQuery::default().validate().unwrap();
    assert_eq!(q.limit, 50);
    assert!(q.reference.is_none() && q.path.is_none() && q.cursor.is_none());
    assert!(!q.include_body && !q.follow && !q.include_stat);
}

#[test]
fn commits_query_reads_every_parameter() {
    let sha = "a".repeat(40);
    let q = CommitsQuery {
        reference: some("main"),
        path: some("/src/lib.rs/"),
        cursor: Some(format!("{sha}.7")),
        limit: some("10"),
        body: some("1"),
        follow: some("true"),
        stat: some("0"),
    }
    .validate()
    .unwrap();
    assert_eq!(q.reference.as_deref(), Some("main"));
    assert_eq!(q.path.as_deref(), Some("src/lib.rs"));
    let cursor = q.cursor.unwrap();
    assert_eq!(cursor.start, sha);
    assert_eq!(cursor.offset, 7);
    assert_eq!(q.limit, 10);
    assert!(q.include_body && q.follow && !q.include_stat);
}

#[test]
fn commits_query_refuses_the_first_invalid_parameter() {
    let both = CommitsQuery { limit: some("0"), body: some("maybe"), ..Default::default() };
    assert_eq!(invalid(both.validate()), "limit must be an integer between 1 and 100");
    let flags = CommitsQuery { follow: some("yes"), stat: some("no"), ..Default::default() };
    assert_eq!(invalid(flags.validate()), "follow must be one of: 0, 1, true, false");
    let cursor = CommitsQuery { cursor: some("abc"), ..Default::default() };
    assert_eq!(invalid(cursor.validate()), "invalid cursor 'abc'");
}

#[test]
fn diff_query_checks_context_before_ignorews() {
    let q = DiffQuery { path: some("//"), context: some("5"), ignorews: some("1") }.validate().unwrap();
    assert!(q.path.is_none());
    assert_eq!(q.context, 5);
    assert!(q.ignore_whitespace);
    let both = DiffQuery { path: None, context: some("101"), ignorews: some("x") };
    assert_eq!(invalid(both.validate()), "context must be an integer between 0 and 100");
    let ws = DiffQuery { path: None, context: None, ignorews: some("x") };
    assert_eq!(invalid(ws.validate()), "ignorews must be one of: 0, 1, true, false");
}

#[test]
fn rev_diff_query_resolves_both_sides() {
    let q = RevDiffQuery { from: some(""), to: None, stat: some("1"), ..Default::default() }.validate().unwrap();
    assert!(q.from.is_none());
    assert_eq!(q.to, "HEAD");
    assert_eq!(q.context, 3);
    assert!(q.stat_only);
    let q = RevDiffQuery { from: some("v1"), to: some("v2"), ..Default::default() }.validate().unwrap();
    assert_eq!(q.from.as_deref(), Some("v1"));
    assert_eq!(q.to, "v2");
    let bad = RevDiffQuery { stat: some("2"), ..Default::default() };
    assert_eq!(invalid(bad.validate()), "stat must be one of: 0, 1, true, false");
}

#[test]
fn raw_diff_query_never_asks_for_stat_only() {
    let q = RawDiffQuery { to: some(""), context: some("0"), ..Default::default() }.validate().unwrap();
    assert_eq!(q.to, "HEAD");
    assert_eq!(q.context, 0);
    assert!(!q.stat_only);
}

#[test]
fn patch_query_has_nothing_to_refuse() {
    let q = PatchQuery { from: some("v1"), to: some("main"), path: some("docs/") }.request();
    assert_eq!(q.from.as_deref(), Some("v1"));
    assert_eq!(q.to, "main");
    assert_eq!(q.path.as_deref(), Some("docs"));
}

#[test]
fn readme_query_defaults_to_head() {
    assert_eq!(ReadmeQuery { reference: None }.refname(), "HEAD");
    assert_eq!(ReadmeQuery { reference: some("dev") }.refname(), "dev");
}

#[test]
fn feed_query_checks_all() {
    let q = FeedQuery { reference: some("main"), path: some("a/"), all: some("true") }.validate().unwrap();
    assert_eq!(q.reference.as_deref(), Some("main"));
    assert_eq!(q.path.as_deref(), Some("a"));
    assert!(q.all);
    let bad = FeedQuery { all: some("everything"), ..Default::default() };
    assert_eq!(invalid(bad.validate()), "all must be one of: 0, 1, true, false");
}

#[test]
fn search_query_checks_q_then_type_then_limit() {
    let q = SearchQuery { q: some("  needle "), kind: some("path"), reference: None, limit: some("5") }
        .validate()
        .unwrap();
    assert_eq!(q.query, "needle");
    assert_eq!(q.kind, SearchKind::Path);
    assert_eq!(q.limit, 5);
    let all_bad = SearchQuery { q: some("   "), kind: some("x"), reference: None, limit: some("0") };
    assert_eq!(invalid(all_bad.validate()), "q must be 1-200 characters");
    let kind_bad = SearchQuery { q: some("x"), kind: some("x"), reference: None, limit: some("0") };
    assert_eq!(
        invalid(kind_bad.validate()),
        "type must be one of content, path, message, author, committer, range (got 'x')"
    );
    let limit_bad = SearchQuery { q: some("x"), kind: None, reference: None, limit: some("0") };
    assert_eq!(invalid(limit_bad.validate()), "limit must be an integer between 1 and 100");
}

#[test]
fn stats_query_checks_period_then_limit() {
    let q = StatsQuery { period: some("week"), reference: some("v1"), limit: None }.validate().unwrap();
    assert_eq!(q.period, StatsPeriod::Week);
    assert_eq!(q.reference.as_deref(), Some("v1"));
    assert_eq!(q.limit, 50);
    let both = StatsQuery { period: some("day"), reference: None, limit: some("x") };
    assert_eq!(invalid(both.validate()), "period must be one of week, month, quarter, year (got 'day')");
}

#[test]
fn info_refs_query_only_serves_upload_pack() {
    assert!(InfoRefsQuery { service: some("git-upload-pack") }.check().is_ok());
    assert!(matches!(InfoRefsQuery { service: some("git-receive-pack") }.check(), Err(ApiError::ReadOnly)));
    assert_eq!(invalid(InfoRefsQuery { service: None }.check()), "smart HTTP requires service=git-upload-pack");
}
