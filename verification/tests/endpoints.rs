use axgit::cache::{Delivery, Validator};
use axgit::error::ApiError;
use axgit::handlers::diff::{from_ref, patch_disposition, patch_filename, range_is_immutable, to_ref};
use axgit::handlers::files::{is_immutable_ref, raw_content_type, raw_delivery, raw_object_content_type};
use axgit::handlers::repos::{clone_url, parse_sort, search_is_immutable, stats_is_immutable};
use axgit::handlers::site::{check_asset_size, local_asset};
use axgit::repo::search::SearchKind;
use axgit::repo::sort::{RepoOrder, RepoSort};

#[test]
fn diff_refs_default_and_immutability() {
    assert_eq!(from_ref(Some(String::new())), None);
    assert_eq!(from_ref(Some("v1".into())), Some("v1".to_owned()));
    assert_eq!(to_ref(None), "HEAD");
    assert_eq!(to_ref(Some(String::new())), "HEAD");
    assert_eq!(to_ref(Some("main".into())), "main");
    assert!(range_is_immutable("abc", "abc", None, None));
    assert!(range_is_immutable("abc", "abc", Some("def"), Some("def")));
    assert!(!range_is_immutable("abc", "abc", Some("main"), Some("def")));
    assert!(!range_is_immutable("main", "abc", None, None));
}

#[test]
fn patch_download_names_are_sanitized() {
    let name = patch_filename("my repo", "feature/x");
    assert_eq!(name, "my-repo-feature-x.patch");
    assert_eq!(patch_disposition(&name), "inline; filename=\"my-repo-feature-x.patch\"");
}

#[test]
fn raw_content_types_come_from_the_extension() {
    assert_eq!(raw_content_type("src/style.css", false), "text/css");
    assert_eq!(raw_content_type("logo.PNG", true), "image/png");
    assert_eq!(raw_content_type("Makefile", false), "text/plain; charset=utf-8");
    assert_eq!(raw_content_type("data.unknownext", true), "application/octet-stream");
    assert_eq!(raw_object_content_type(true), "application/octet-stream");
    assert_eq!(raw_object_content_type(false), "text/plain; charset=utf-8");
    assert!(is_immutable_ref("abc", "abc"));
    assert!(!is_immutable_ref("main", "abc"));
}

#[test]
fn raw_delivery_tags_mutable_responses() {
    let v = Validator { head: Some("h".into()), agefile_mtime: None };
    assert_eq!(raw_delivery(true, &v, &[]), (None, Delivery::Immutable));
    assert_eq!(raw_delivery(false, &v, &[]), (Some("\"h-0\"".to_owned()), Delivery::Tagged));
    assert_eq!(
        raw_delivery(false, &v, &["W/\"h-0\"".to_owned()]),
        (Some("\"h-0\"".to_owned()), Delivery::NotModified)
    );
}

#[test]
fn repos_sort_param_and_clone_urls() {
    let d = RepoOrder::default();
    assert_eq!(parse_sort(None, d).unwrap(), d);
    assert_eq!(parse_sort(Some(""), d).unwrap(), d);
    assert_eq!(parse_sort(Some("-idle"), d).unwrap(), RepoOrder { key: RepoSort::Idle, reverse: false });
    assert!(matches!(
        parse_sort(Some("size"), d),
        Err(ApiError::InvalidParam(m)) if m.ends_with("(got 'size')")
    ));
    assert_eq!(clone_url("https://git.example.net//", "axgit"), "https://git.example.net/axgit.git");
    assert!(search_is_immutable(SearchKind::Path, Some("abc"), "abc"));
    assert!(!search_is_immutable(SearchKind::Range, Some("abc"), "abc"));
    assert!(!search_is_immutable(SearchKind::Path, None, "abc"));
    assert!(stats_is_immutable(Some("abc"), "abc"));
    assert!(!stats_is_immutable(Some("main"), "abc"));
}

#[test]
fn site_assets_are_local_image_files_only() {
    assert_eq!(local_asset(Some("/srv/logo.svg")).unwrap(), ("/srv/logo.svg".to_owned(), "image/svg+xml"));
    assert!(matches!(local_asset(Some("https://x/logo.svg")), Err(ApiError::NotFound)));
    assert!(matches!(local_asset(Some("/srv/logo.html")), Err(ApiError::NotFound)));
    assert!(matches!(local_asset(None), Err(ApiError::NotFound)));
    assert!(check_asset_size(1048576).is_ok());
    assert!(matches!(check_asset_size(1048577), Err(ApiError::NotFound)));
}
