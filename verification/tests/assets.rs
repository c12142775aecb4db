use axgit::assets::{embedded_file_key, is_hashed_asset_path, marks_immutable, Assets};
use axgit::hex::encode;

#[test]
fn resolve_should_prefer_a_configured_directory() {
    let dir = "/some/dir";
    assert!(matches!(Assets::resolve(Some(dir), true), Some(Assets::Dir(d)) if d == dir));
    assert!(matches!(Assets::resolve(Some(dir), false), Some(Assets::Dir(d)) if d == dir));
}

#[test]
fn resolve_should_be_none_when_unconfigured_and_not_embedded() {
    assert!(Assets::resolve(None, false).is_none());
}

#[test]
fn resolve_should_fall_back_to_embedded_when_unconfigured() {
    assert!(matches!(Assets::resolve(None, true), Some(Assets::Embedded)));
}

#[test]
fn hex_encode_should_match_a_known_digest() {
    assert_eq!(encode(&[0u8; 32]), "0".repeat(64));
    assert_eq!(encode(&[0xab; 32]), "ab".repeat(32));
}

#[test]
fn encode_should_match_a_known_digest() {
    assert_eq!(encode(&[0u8; 32]), "0".repeat(64));
    assert_eq!(encode(&[0xab; 32]), "ab".repeat(32));
}

#[test]
fn encode_should_write_two_lowercase_digits_per_byte() {
    assert_eq!(encode(&[]), "");
    assert_eq!(encode(&[0x00, 0x0f, 0xf0, 0xff, 0x9a]), "000ff0ff9a");
}

#[test]
fn label_should_name_the_source() {
    assert_eq!(Assets::Dir("/x".to_owned()).label(), "directory");
    assert_eq!(Assets::Embedded.label(), "embedded");
}

#[test]
fn hashed_asset_paths_are_the_astro_directory() {
    assert!(is_hashed_asset_path("/_astro/index.abc123.js"));
    assert!(!is_hashed_asset_path("/index.html"));
    assert!(!is_hashed_asset_path("/_astro"));
}

#[test]
fn only_successful_hashed_assets_are_immutable() {
    assert!(marks_immutable("/_astro/a.js", 200));
    assert!(!marks_immutable("/_astro/a.js", 404));
    assert!(!marks_immutable("/favicon.svg", 200));
}

#[test]
fn embedded_file_key_should_strip_the_leading_slash() {
    assert_eq!(embedded_file_key("/_astro/a.js"), Some("_astro/a.js".to_owned()));
}

#[test]
fn embedded_file_key_should_percent_decode() {
    assert_eq!(embedded_file_key("//a%20b.js"), Some("a b.js".to_owned()));
    assert_eq!(embedded_file_key("/%ff"), None);
    assert_eq!(embedded_file_key("/100%"), Some("100%".to_owned()));
}
