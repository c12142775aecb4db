use axgit::error::ApiError;
use axgit::repo::object::{object_blob, parse_full_oid, ObjectDetail};
use axgit::repo::open::{check_repo_name, open_outcome, repo_dir_name};
use axgit::repo::resolve::{ref_shorthand, split_ref_path};
use axgit::repo::tag::{object_kind, tag_message, tag_name, tag_ref_name, ObjectKind, ObjectType};

#[test]
fn parse_full_oid_should_accept_a_full_lowercase_hex_oid() {
    let sha = "94739392266bcbd2a4dcc7e02f57b7cf4ba7ec02";
    assert_eq!(sha.len(), 40);
    assert_eq!(parse_full_oid(sha).unwrap(), sha);
}

#[test]
fn parse_full_oid_should_accept_uppercase_hex() {
    let sha = "94739392266BCBD2A4DCC7E02F57B7CF4BA7EC02";
    assert_eq!(sha.len(), 40);
    assert!(parse_full_oid(sha).is_ok());
    assert_eq!(parse_full_oid(sha).unwrap(), "94739392266bcbd2a4dcc7e02f57b7cf4ba7ec02");
}

#[test]
fn parse_full_oid_should_reject_an_abbreviation() {
    assert!(matches!(parse_full_oid("9473939226"), Err(ApiError::InvalidParam(_))));
}

#[test]
fn parse_full_oid_should_reject_non_hex_characters() {
    let not_hex = "zzzzzzzzzzzzzzzzzzzzzzzzzzzzzzzzzzzzzzzz";
    assert_eq!(not_hex.len(), 40);
    assert!(matches!(parse_full_oid(not_hex), Err(ApiError::InvalidParam(_))));
}

#[test]
fn parse_full_oid_should_reject_a_too_long_string() {
    let too_long = "94739392266bcbd2a4dcc7e02f57b7cf4ba7ec021";
    assert_eq!(too_long.len(), 41);
    assert!(matches!(parse_full_oid(too_long), Err(ApiError::InvalidParam(_))));
}

#[test]
fn parse_full_oid_should_quote_the_input_in_its_error() {
    assert!(matches!(
        parse_full_oid("abc"),
        Err(ApiError::InvalidParam(d)) if d == "'abc' is not a full 40-character object id"
    ));
}

#[test]
fn object_blob_should_carry_text_only_for_small_text() {
    let b = object_blob(b"hi\n", false);
    assert_eq!(b.size, 3);
    assert!(!b.binary && !b.too_large);
    assert_eq!(b.content.as_deref(), Some("hi\n"));
    let nul = object_blob(b"a\xffb", false);
    assert!(nul.binary);
    assert_eq!(nul.content, None);
}

#[test]
fn open_named_should_reject_traversal_names() {
    for name in ["", ".", "..", "../etc", "a/b", "a\\b", ".hidden"] {
        assert!(
            matches!(check_repo_name(name), Err(ApiError::InvalidParam(_))),
            "name {name:?} was not rejected as invalid"
        );
    }
    assert!(check_repo_name("axgit").is_ok());
}

#[test]
fn open_named_should_return_not_found_for_missing_repo() {
    assert!(matches!(
        open_outcome("missing", false, false),
        Err(ApiError::RepoNotFound(name)) if name == "missing"
    ));
    assert!(matches!(open_outcome("hidden", true, true), Err(ApiError::RepoNotFound(_))));
    assert!(open_outcome("ok", true, false).is_ok());
    assert_eq!(repo_dir_name("axgit"), "axgit.git");
}

fn refs(names: &[&str]) -> Vec<String> {
    names.iter().map(|n| n.to_string()).collect()
}

#[test]
fn resolve_ref_path_should_prefer_longest_ref_match() {
    let names = refs(&["main", "feature/x"]);
    let (refname, path) = split_ref_path("feature/x/src/main.rs", &names).unwrap();
    assert_eq!(refname, "feature/x");
    assert_eq!(path, "src/main.rs");
}

#[test]
fn resolve_ref_path_should_fall_back_to_first_segment_for_shas() {
    let names = refs(&["main"]);
    let head = "94739392266bcbd2a4dcc7e02f57b7cf4ba7ec02";
    let (refname, path) = split_ref_path(&format!("{head}/a.txt"), &names).unwrap();
    assert_eq!(refname, head);
    assert_eq!(path, "a.txt");
    let (_, root) = split_ref_path(head, &names).unwrap();
    assert_eq!(root, "");
}

#[test]
fn resolve_ref_path_should_reject_dot_segments() {
    let names = refs(&["main"]);
    for rest in ["main/../etc", "main/./a", "main//a"] {
        assert!(
            matches!(split_ref_path(rest, &names), Err(ApiError::InvalidParam(_))),
            "rest {rest:?} was not rejected"
        );
    }
}

#[test]
fn split_ref_path_should_trim_surrounding_slashes() {
    let names = refs(&["main"]);
    let (refname, path) = split_ref_path("/main/docs/", &names).unwrap();
    assert_eq!((refname.as_str(), path.as_str()), ("main", "docs"));
    assert!(matches!(
        split_ref_path("/a/../b/", &names),
        Err(ApiError::InvalidParam(d)) if d == "invalid path 'a/../b'"
    ));
}

#[test]
fn ref_shorthand_should_strip_heads_and_tags_only() {
    assert_eq!(ref_shorthand("refs/heads/main"), Some("main".to_owned()));
    assert_eq!(ref_shorthand("refs/tags/v1"), Some("v1".to_owned()));
    assert_eq!(ref_shorthand("refs/remotes/o/x"), None);
}

#[test]
fn object_kind_should_map_every_git2_object_type() {
    assert_eq!(object_kind(ObjectType::Commit), ObjectKind::Commit);
    assert_eq!(object_kind(ObjectType::Tree), ObjectKind::Tree);
    assert_eq!(object_kind(ObjectType::Blob), ObjectKind::Blob);
    assert_eq!(object_kind(ObjectType::Tag), ObjectKind::Tag);
}

#[test]
fn tag_names_and_messages() {
    assert_eq!(tag_ref_name("v1"), "refs/tags/v1");
    assert_eq!(tag_name("/v1/"), "v1");
    assert_eq!(tag_message(Some("  \n")), None);
    assert_eq!(tag_message(Some("release\n\n")), Some("release".to_owned()));
    assert_eq!(tag_message(None), None);
}

#[test]
fn object_envelopes_carry_only_their_kinds_payload() {
    let commit = ObjectDetail::commit_object("c".repeat(40));
    assert_eq!(commit.kind, ObjectKind::Commit);
    assert!(commit.tree.is_none() && commit.blob.is_none() && commit.tag.is_none());
    let blob = ObjectDetail::blob_object("b".repeat(40), b"hi", false);
    assert_eq!(blob.kind, ObjectKind::Blob);
    assert_eq!(blob.blob.as_ref().unwrap().content.as_deref(), Some("hi"));
    assert!(blob.tree.is_none() && blob.tag.is_none());
    let tree = ObjectDetail::tree_object("a".repeat(40), Vec::new());
    assert_eq!(tree.kind, ObjectKind::Tree);
    assert!(tree.tree.unwrap().entries.is_empty());
}
