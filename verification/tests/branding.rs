use axgit::branding::{asset_too_large, content_type_for_extension, sanitize_logo_link, BrandingAsset, BRANDING_ASSET_LIMIT};

#[test]
fn parse_should_treat_http_schemes_as_urls() {
    assert!(matches!(
        BrandingAsset::parse("https://example.net/logo.svg"),
        BrandingAsset::Url(u) if u == "https://example.net/logo.svg"
    ));
    assert!(matches!(
        BrandingAsset::parse("http://example.net/logo.svg"),
        BrandingAsset::Url(u) if u == "http://example.net/logo.svg"
    ));
}

#[test]
fn parse_should_treat_anything_else_as_a_file_path() {
    assert!(matches!(
        BrandingAsset::parse("/srv/git/logo.svg"),
        BrandingAsset::File(p) if p == "/srv/git/logo.svg"
    ));
    assert!(matches!(
        BrandingAsset::parse("relative/logo.svg"),
        BrandingAsset::File(p) if p == "relative/logo.svg"
    ));
}

#[test]
fn href_should_use_the_url_verbatim_or_the_served_at_path() {
    let url = BrandingAsset::Url("https://example.net/logo.svg".to_owned());
    assert_eq!(url.href("/api/v1/site/logo"), "https://example.net/logo.svg");

    let file = BrandingAsset::File("/srv/git/logo.svg".to_owned());
    assert_eq!(file.href("/api/v1/site/logo"), "/api/v1/site/logo");
}

#[test]
fn content_type_should_resolve_from_the_file_extension() {
    let file = BrandingAsset::File("/srv/git/favicon.png".to_owned());
    assert_eq!(file.content_type(), Some("image/png"));

    let unrecognized = BrandingAsset::File("/srv/git/favicon.html".to_owned());
    assert_eq!(unrecognized.content_type(), None);
}

#[test]
fn content_type_should_resolve_from_the_url_extension_ignoring_query_and_fragment() {
    let url = BrandingAsset::Url("https://example.net/favicon.svg?v=2".to_owned());
    assert_eq!(url.content_type(), Some("image/svg+xml"));

    let no_extension = BrandingAsset::Url("https://example.net/favicon".to_owned());
    assert_eq!(no_extension.content_type(), None);
}

#[test]
fn content_type_should_ignore_a_fragment_too() {
    let url = BrandingAsset::Url("https://example.net/logo.webp#top".to_owned());
    assert_eq!(url.content_type(), Some("image/webp"));
}

#[test]
fn sanitize_logo_link_should_accept_http_urls_and_root_relative_paths() {
    assert_eq!(sanitize_logo_link("https://example.net"), Some("https://example.net".to_owned()));
    assert_eq!(sanitize_logo_link("/about"), Some("/about".to_owned()));
}

#[test]
fn sanitize_logo_link_should_reject_everything_else() {
    assert_eq!(sanitize_logo_link("javascript:alert(1)"), None);
    assert_eq!(sanitize_logo_link("//evil.example"), None);
    assert_eq!(sanitize_logo_link("relative/path"), None);
}

#[test]
fn content_type_for_extension_should_match_the_image_allowlist() {
    assert_eq!(content_type_for_extension("logo.svg"), Some("image/svg+xml"));
    assert_eq!(content_type_for_extension("logo.PNG"), Some("image/png"));
    assert_eq!(content_type_for_extension("favicon.ico"), Some("image/x-icon"));
    assert_eq!(content_type_for_extension("logo.jpeg"), Some("image/jpeg"));
    assert_eq!(content_type_for_extension("logo.html"), None);
    assert_eq!(content_type_for_extension("logo"), None);
}

#[test]
fn asset_size_limit_is_inclusive() {
    assert!(!asset_too_large(BRANDING_ASSET_LIMIT));
    assert!(asset_too_large(BRANDING_ASSET_LIMIT + 1));
}
