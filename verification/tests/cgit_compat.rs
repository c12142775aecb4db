use axgit::cgit_compat::{looks_like_sha, query_value, redirect_for};

fn redirect(uri: &str) -> Option<String> {
    match uri.split_once('?') {
        Some((path, query)) => redirect_for(path, Some(query)),
        None => redirect_for(uri, None),
    }
}

#[test]
fn bare_dot_git_redirects_to_the_repo_page() {
    assert_eq!(redirect("/axgit.git"), Some("/axgit".to_owned()));
    assert_eq!(redirect("/axgit.git/"), Some("/axgit".to_owned()));
}

#[test]
fn commit_query_shape_redirects_to_the_commit_page() {
    let sha = "abc123def456";
    assert_eq!(redirect(&format!("/axgit.git/commit/?id={sha}")), Some(format!("/axgit/commit/{sha}")));
    assert_eq!(redirect(&format!("/axgit/commit?id={sha}")), Some(format!("/axgit/commit/{sha}")));
}

#[test]
fn diff_query_shape_redirects_to_the_commit_page() {
    let sha = "abc123def456";
    assert_eq!(redirect(&format!("/axgit.git/diff/?id={sha}")), Some(format!("/axgit/commit/{sha}")));
}

#[test]
fn log_with_h_redirects_to_the_log_page_with_ref_query() {
    assert_eq!(redirect("/axgit.git/log/?h=main"), Some("/axgit/log?ref=main".to_owned()));
    assert_eq!(redirect("/axgit/log?h=main"), Some("/axgit/log?ref=main".to_owned()));
}

#[test]
fn refs_dot_git_redirects_dropping_the_query() {
    assert_eq!(redirect("/axgit.git/refs/?h=main"), Some("/axgit/refs".to_owned()));
}

#[test]
fn other_dot_git_paths_are_stripped_and_the_query_is_preserved() {
    assert_eq!(
        redirect("/axgit.git/tree/src/main.rs?id=abc123"),
        Some("/axgit/tree/src/main.rs?id=abc123".to_owned())
    );
}

#[test]
fn native_routes_are_left_alone() {
    for uri in [
        "/",
        "/axgit",
        "/axgit/",
        "/axgit/log",
        "/axgit/log/",
        "/axgit/refs",
        "/axgit/commit/abc123",
        "/axgit/tree/src",
    ] {
        assert_eq!(redirect(uri), None, "uri {uri}");
    }
}

#[test]
fn commit_without_a_valid_id_is_not_redirected() {
    assert_eq!(redirect("/axgit/commit"), None);
    assert_eq!(redirect("/axgit/commit?id=not-a-sha"), None);
    assert_eq!(redirect("/axgit/commit?id="), None);
}

#[test]
fn log_without_h_is_not_redirected_when_dot_git_is_absent() {
    assert_eq!(redirect("/axgit/log?other=1"), None);
}

#[test]
fn log_without_h_but_with_dot_git_still_strips_the_suffix() {
    assert_eq!(redirect("/axgit.git/log"), Some("/axgit/log".to_owned()));
}

#[test]
fn bare_dot_only_is_not_treated_as_a_dot_git_suffix() {
    assert_eq!(redirect("/.git"), None);
    assert_eq!(redirect("/.git/tree/src"), None);
}

#[test]
fn query_value_should_take_the_first_match() {
    assert_eq!(query_value("a=1&id=x&id=y", "id"), Some("x".to_owned()));
    assert_eq!(query_value("a=1", "id"), None);
}

#[test]
fn looks_like_sha_should_want_four_to_sixty_four_hex_digits() {
    assert!(looks_like_sha("abcd"));
    assert!(!looks_like_sha("abc"));
    assert!(looks_like_sha(&"a".repeat(64)));
    assert!(!looks_like_sha(&"a".repeat(65)));
    assert!(looks_like_sha("ABCD"));
    assert!(!looks_like_sha("abcg"));
}

#[test]
fn redirect_targets_are_not_redirected_again() {
    let cases: [(&str, Option<&str>); 6] = [
        ("/r.git/commit/", Some("id=abcd1234")),
        ("/r.git/log/", Some("h=main")),
        ("/r.git", None),
        ("/r.git/refs/", None),
        ("/r.git/tree/src", None),
        ("/r.git/tree/src", Some("id=zz&x=1")),
    ];
    for (path, query) in cases {
        let target = redirect_for(path, query).unwrap();
        let (tp, tq) = match target.find('?') {
            Some(at) => (&target[..at], Some(&target[at + 1..])),
            None => (target.as_str(), None),
        };
        assert_eq!(redirect_for(tp, tq), None, "{target}");
    }
}
