use axgit::cache::{
    body_etag, delivery, entry_meta, entry_still_valid, entry_weight, fresh_etag, if_none_match, same_validator,
    serve_without_repository, should_store, snapshot_is_fresh, validator_etag, CacheEntryMeta, Delivery,
    Validator, MAX_CACHEABLE_BODY,
};
use axgit::error::ApiError;
use axgit::handlers::{
    clean_path, parse_context, parse_flag, parse_kind, parse_limit, parse_period, parse_query, sanitize_component,
};
use axgit::repo::search::SearchKind;
use axgit::repo::stats::StatsPeriod;

fn values(v: &str) -> Vec<String> {
    vec![v.to_owned()]
}

fn invalid(r: Result<impl std::fmt::Debug, ApiError>) -> String {
    match r {
        Err(ApiError::InvalidParam(detail)) => detail,
        other => panic!("expected an invalid_param error, got {other:?}"),
    }
}

#[test]
fn if_none_match_should_use_weak_comparison() {
    assert!(if_none_match(&values("\"abc\""), "\"abc\""));
    assert!(if_none_match(&values("W/\"abc\""), "\"abc\""));
    assert!(if_none_match(&values("\"abc\""), "W/\"abc\""));
    assert!(!if_none_match(&values("\"abc\""), "\"def\""));
}

#[test]
fn if_none_match_should_handle_lists_and_star() {
    assert!(if_none_match(&values("\"x\", \"abc\""), "\"abc\""));
    assert!(if_none_match(&values("*"), "\"abc\""));
    assert!(!if_none_match(&[], "\"abc\""));
}

#[test]
fn if_none_match_should_look_at_every_header_value() {
    let vs = vec!["\"x\"".to_owned(), " \"abc\" ".to_owned()];
    assert!(if_none_match(&vs, "\"abc\""));
}

#[test]
fn validator_etag_should_distinguish_states() {
    let unborn = Validator { head: None, agefile_mtime: None };
    assert_eq!(validator_etag(&unborn), "\"unborn-0\"");

    let with_head = Validator {
        head: Some("94739392266bcbd2a4dcc7e02f57b7cf4ba7ec02".to_owned()),
        agefile_mtime: Some((1_753_000_000, 42)),
    };
    assert_eq!(validator_etag(&with_head), "\"94739392266bcbd2a4dcc7e02f57b7cf4ba7ec02-1753000000.42\"");
    assert_ne!(validator_etag(&unborn), validator_etag(&with_head));
}

#[test]
fn sanitize_component_should_keep_safe_chars_only() {
    assert_eq!(sanitize_component("feature/x"), "feature-x");
    assert_eq!(sanitize_component("v1.0_rc-2"), "v1.0_rc-2");
    assert_eq!(sanitize_component("한글 \"quote\""), "----quote-");
}

#[test]
fn parse_query_should_reject_empty_and_oversized() {
    assert!(parse_query(None).is_err());
    assert!(parse_query(Some("   ")).is_err());
    assert!(parse_query(Some(&"a".repeat(201))).is_err());
    assert_eq!(parse_query(Some("  hi  ")).unwrap(), "hi");
}

#[test]
fn parse_query_should_accept_exactly_two_hundred_chars() {
    assert_eq!(parse_query(Some(&"a".repeat(200))).unwrap(), "a".repeat(200));
    assert_eq!(invalid(parse_query(Some(""))), "q must be 1-200 characters");
}

#[test]
fn parse_kind_should_default_to_content_and_reject_unknown() {
    assert_eq!(parse_kind(None).unwrap(), SearchKind::Content);
    assert_eq!(parse_kind(Some("content")).unwrap(), SearchKind::Content);
    assert_eq!(parse_kind(Some("path")).unwrap(), SearchKind::Path);
    assert_eq!(parse_kind(Some("message")).unwrap(), SearchKind::Message);
    assert_eq!(parse_kind(Some("author")).unwrap(), SearchKind::Author);
    assert_eq!(parse_kind(Some("committer")).unwrap(), SearchKind::Committer);
    assert_eq!(parse_kind(Some("range")).unwrap(), SearchKind::Range);
    assert!(parse_kind(Some("bogus")).is_err());
}

#[test]
fn parse_period_should_default_to_month_and_reject_unknown() {
    assert_eq!(parse_period(None).unwrap(), StatsPeriod::Month);
    assert_eq!(parse_period(Some("week")).unwrap(), StatsPeriod::Week);
    assert_eq!(parse_period(Some("month")).unwrap(), StatsPeriod::Month);
    assert_eq!(parse_period(Some("quarter")).unwrap(), StatsPeriod::Quarter);
    assert_eq!(parse_period(Some("year")).unwrap(), StatsPeriod::Year);
    assert!(parse_period(Some("bogus")).is_err());
    assert_eq!(
        invalid(parse_period(Some("day"))),
        "period must be one of week, month, quarter, year (got 'day')"
    );
}

#[test]
fn parse_limit_should_bound_the_value() {
    assert_eq!(parse_limit(None, 50).unwrap(), 50);
    assert_eq!(parse_limit(Some("1"), 50).unwrap(), 1);
    assert_eq!(parse_limit(Some("100"), 50).unwrap(), 100);
    assert_eq!(invalid(parse_limit(Some("0"), 50)), "limit must be an integer between 1 and 100");
    assert!(parse_limit(Some("101"), 50).is_err());
    assert!(parse_limit(Some("-1"), 50).is_err());
    assert!(parse_limit(Some("ten"), 50).is_err());
}

#[test]
fn parse_context_should_bound_the_value() {
    assert_eq!(parse_context(None).unwrap(), 3);
    assert_eq!(parse_context(Some("0")).unwrap(), 0);
    assert_eq!(parse_context(Some("100")).unwrap(), 100);
    assert_eq!(invalid(parse_context(Some("101"))), "context must be an integer between 0 and 100");
}

#[test]
fn parse_flag_should_accept_four_spellings() {
    assert_eq!(parse_flag(None, "stat").unwrap(), false);
    assert_eq!(parse_flag(Some("0"), "stat").unwrap(), false);
    assert_eq!(parse_flag(Some("false"), "stat").unwrap(), false);
    assert_eq!(parse_flag(Some("1"), "stat").unwrap(), true);
    assert_eq!(parse_flag(Some("true"), "stat").unwrap(), true);
    assert_eq!(invalid(parse_flag(Some("yes"), "stat")), "stat must be one of: 0, 1, true, false");
}

#[test]
fn clean_path_should_trim_slashes() {
    assert_eq!(clean_path(None), None);
    assert_eq!(clean_path(Some("//")), None);
    assert_eq!(clean_path(Some("/src/lib.rs/")), Some("src/lib.rs".to_owned()));
}

#[test]
fn cached_entries_follow_the_validator() {
    let v1 = Validator { head: Some("aa".to_owned()), agefile_mtime: None };
    let v2 = Validator { head: Some("bb".to_owned()), agefile_mtime: None };
    assert!(same_validator(&v1, &v1.clone()));
    assert!(!same_validator(&v1, &v2));

    let tagged = CacheEntryMeta { validator: Some(v1.clone()), etag: Some(validator_etag(&v1)) };
    let immutable = CacheEntryMeta { validator: None, etag: None };
    assert!(serve_without_repository(Some(&immutable)));
    assert!(!serve_without_repository(Some(&tagged)));
    assert!(!serve_without_repository(None));
    assert!(entry_still_valid(Some(&tagged), &v1));
    assert!(!entry_still_valid(Some(&tagged), &v2));
    assert!(!entry_still_valid(Some(&immutable), &v1));
}

#[test]
fn delivery_should_answer_not_modified_only_on_a_match() {
    assert_eq!(delivery(None, &values("*")), Delivery::Immutable);
    assert_eq!(delivery(Some("\"a\""), &values("\"a\"")), Delivery::NotModified);
    assert_eq!(delivery(Some("\"a\""), &values("\"b\"")), Delivery::Tagged);
    assert_eq!(delivery(Some("\"a\""), &[]), Delivery::Tagged);
}

#[test]
fn fresh_etag_and_storage_limits() {
    let v = Validator { head: None, agefile_mtime: Some((1, 2)) };
    assert_eq!(fresh_etag(&v, true), None);
    assert_eq!(fresh_etag(&v, false), Some("\"unborn-1.2\"".to_owned()));
    assert!(should_store(MAX_CACHEABLE_BODY));
    assert!(!should_store(MAX_CACHEABLE_BODY + 1));
    assert_eq!(entry_weight(3, 4, 5), 212);
    assert_eq!(entry_weight(usize::MAX / 2, usize::MAX / 2, 10), u32::MAX);
    assert!(snapshot_is_fresh(1, 2));
    assert!(!snapshot_is_fresh(2, 2));
}

#[test]
fn body_etag_should_quote_the_sha256_of_the_body() {
    assert_eq!(body_etag(b""), "\"e3b0c44298fc1c149afbf4c8996fb92427ae41e4649b934ca495991b7852b855\"");
    assert_eq!(body_etag(b"abc"), "\"ba7816bf8f01cfea414140de5dae2223b00361a396177a9cb410ff61f20015ad\"");
}

#[test]
fn entry_meta_keeps_the_validator_only_for_mutable_responses() {
    let v = Validator { head: Some("ab".into()), agefile_mtime: Some((3, 4)) };
    let immutable = entry_meta(&v, true);
    assert!(immutable.validator.is_none() && immutable.etag.is_none());
    let tagged = entry_meta(&v, false);
    assert_eq!(tagged.etag.as_deref(), Some("\"ab-3.4\""));
    assert!(entry_still_valid(Some(&tagged), &v));
    assert!(!entry_still_valid(Some(&tagged), &Validator { head: Some("ab".into()), agefile_mtime: None }));
}
