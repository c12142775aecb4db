use axgit::shell::{
    inject_before_head_close, render_shell, repo_head_links, repo_segment_for, shell_for, shell_head_extra,
    site_head_meta, REPO_SHELL_PARAM,
};

fn repo_shell(page: Option<&str>) -> (String, u16) {
    match page {
        Some(p) => (format!("{REPO_SHELL_PARAM}/{p}/index.html"), 200),
        None => (format!("{REPO_SHELL_PARAM}/index.html"), 200),
    }
}


#[test]
fn root_maps_to_the_index_shell() {
    assert_eq!(
        shell_for("/"),
        ("index.html".to_owned(), 200)
    );
}

#[test]
fn repo_paths_map_to_the_repo_shell() {
    for path in ["/git-compose", "/git-compose/", "/my%20repo"] {
        assert_eq!(
            shell_for(path),
            repo_shell(None),
            "path {path}"
        );
    }
}

#[test]
fn repo_refs_paths_map_to_the_refs_shell() {
    for path in ["/git-compose/refs", "/git-compose/refs/"] {
        assert_eq!(
            shell_for(path),
            repo_shell(Some("refs")),
            "path {path}"
        );
    }
}

#[test]
fn repo_log_paths_map_to_the_log_shell() {
    for path in ["/git-compose/log", "/git-compose/log/"] {
        assert_eq!(
            shell_for(path),
            repo_shell(Some("log")),
            "path {path}"
        );
    }
}

#[test]
fn repo_search_paths_map_to_the_search_shell() {
    for path in ["/git-compose/search", "/git-compose/search/"] {
        assert_eq!(
            shell_for(path),
            repo_shell(Some("search")),
            "path {path}"
        );
    }
}

#[test]
fn repo_commit_paths_map_to_the_commit_shell() {
    for path in ["/git-compose/commit/abc123", "/git-compose/commit/abc123/"] {
        assert_eq!(
            shell_for(path),
            repo_shell(Some("commit")),
            "path {path}"
        );
    }
}

#[test]
fn repo_tree_paths_map_to_the_tree_shell() {
    for path in [
        "/git-compose/tree",
        "/git-compose/tree/",
        "/git-compose/tree/src",
        "/git-compose/tree/src/lib",
    ] {
        assert_eq!(
            shell_for(path),
            repo_shell(Some("tree")),
            "path {path}"
        );
    }
}

#[test]
fn repo_blob_paths_map_to_the_blob_shell() {
    for path in [
        "/git-compose/blob/src/main.rs",
        "/git-compose/blob/src/main.rs/",
        "/git-compose/blob/README.md",
    ] {
        assert_eq!(
            shell_for(path),
            repo_shell(Some("blob")),
            "path {path}"
        );
    }
}

#[test]
fn repo_blame_paths_map_to_the_blame_shell() {
    for path in [
        "/git-compose/blame/src/main.rs",
        "/git-compose/blame/src/main.rs/",
        "/git-compose/blame/README.md",
    ] {
        assert_eq!(
            shell_for(path),
            repo_shell(Some("blame")),
            "path {path}"
        );
    }
}

#[test]
fn repo_tag_paths_map_to_the_tag_shell() {
    for path in [
        "/git-compose/tag/v1.0.0",
        "/git-compose/tag/v1.0.0/",
        "/git-compose/tag/release/1.0",
    ] {
        assert_eq!(
            shell_for(path),
            repo_shell(Some("tag")),
            "path {path}"
        );
    }
}

#[test]
fn repo_object_paths_map_to_the_object_shell() {
    for path in ["/git-compose/object/abc123", "/git-compose/object/abc123/"] {
        assert_eq!(
            shell_for(path),
            repo_shell(Some("object")),
            "path {path}"
        );
    }
}

#[test]
fn repo_stats_paths_map_to_the_stats_shell() {
    for path in ["/git-compose/stats", "/git-compose/stats/"] {
        assert_eq!(
            shell_for(path),
            repo_shell(Some("stats")),
            "path {path}"
        );
    }
}

#[test]
fn repo_diff_paths_map_to_the_diff_shell() {
    for path in ["/git-compose/diff", "/git-compose/diff/"] {
        assert_eq!(
            shell_for(path),
            repo_shell(Some("diff")),
            "path {path}"
        );
    }
}

#[test]
fn unmatched_shapes_map_to_the_404_shell() {
    for path in [
        "/git-compose/blob",
        "/git-compose/blob/",
        "/git-compose/blame",
        "/git-compose/blame/",
        "/git-compose/commit",
        "/git-compose/commit/abc123/extra",
        "/git-compose/object",
        "/git-compose/object/",
        "/git-compose/object/abc123/extra",
        "/git-compose/stats/extra",
        "/git-compose/diff/extra",
        "/git-compose/tag",
        "/git-compose/tag/",
        "/a/b/c",
    ] {
        assert_eq!(
            shell_for(path),
            ("404.html".to_owned(), 404),
            "path {path}"
        );
    }
}

#[test]
fn repo_segment_for_should_extract_the_raw_first_segment_of_a_repo_shell() {
    assert_eq!(
        repo_segment_for(
            "/git-compose/blob/src/main.rs",
            "__repo__/blob/index.html",
        ),
        Some("git-compose".to_owned())
    );
    // Still percent-encoded — never decoded here.
    assert_eq!(
        repo_segment_for(
            "/my%20repo",
            "__repo__/index.html",
        ),
        Some("my%20repo".to_owned())
    );
}

#[test]
fn repo_segment_for_should_be_none_off_the_repo_shell() {
    assert_eq!(repo_segment_for("/", "index.html"), None);
    assert_eq!(
        repo_segment_for("/git-compose/bogus", "404.html"),
        None
    );
}

#[test]
fn repo_head_links_should_always_include_the_two_feed_links() {
    let links = repo_head_links("git-compose", None);
    assert!(links.contains(
        "<link rel=\"alternate\" type=\"application/atom+xml\" title=\"Recent commits\" href=\"/api/v1/repos/git-compose/feed.atom\">"
    ));
    assert!(links.contains(
        "<link rel=\"alternate\" type=\"application/atom+xml\" title=\"Recent commits (all refs)\" href=\"/api/v1/repos/git-compose/feed.atom?all=1\">"
    ));
    assert!(!links.contains("vcs-git"));
}

#[test]
fn repo_head_links_should_include_vcs_git_only_when_a_clone_base_is_configured() {
    let links = repo_head_links("git-compose", Some("https://git.example.net"));
    assert!(links.contains(
        "<link rel=\"vcs-git\" title=\"Git repository\" href=\"https://git.example.net/git-compose.git\">"
    ));
}

#[test]
fn repo_head_links_should_trim_a_trailing_slash_off_the_clone_base() {
    let links = repo_head_links("git-compose", Some("https://git.example.net/"));
    assert!(links.contains("href=\"https://git.example.net/git-compose.git\""));
}

#[test]
fn repo_head_links_should_escape_the_segment() {
    // A raw `"` should never reach here in practice (the URI is
    // percent-encoded before axum hands it over), but the escaping is
    // defense-in-depth against the attribute it's interpolated into.
    let links = repo_head_links(r#"weird"repo"#, Some("https://git.example.net"));
    assert!(!links.contains(r#""weird"repo""#));
    assert!(links.contains("weird&quot;repo"));
}

#[test]
fn inject_before_head_close_should_insert_before_head_close() {
    let body =
        b"<!doctype html><html><head><title>x</title></head><body></body></html>".to_vec();
    let links = repo_head_links("git-compose", None);
    let injected = inject_before_head_close(body, &links);
    let injected = String::from_utf8(injected).unwrap();
    assert!(injected.contains("<title>x</title><link rel=\"alternate\""));
    assert!(injected.contains("feed.atom?all=1\"></head>"));
}

#[test]
fn inject_before_head_close_should_leave_a_headless_document_unchanged() {
    let body = b"<!doctype html><html><body>no head</body></html>".to_vec();
    let links = repo_head_links("git-compose", None);
    let injected = inject_before_head_close(body.clone(), &links);
    assert_eq!(injected, body);
}

#[test]
fn inject_before_head_close_should_be_a_no_op_for_empty_extra() {
    let body = b"<!doctype html><html><head></head><body></body></html>".to_vec();
    let injected = inject_before_head_close(body.clone(), "");
    assert_eq!(injected, body);
}

#[test]
fn site_head_meta_should_omit_both_when_unset() {
    assert_eq!(site_head_meta(None, None), "");
}

#[test]
fn site_head_meta_should_include_only_the_configured_fields() {
    let title_only = site_head_meta(Some("PtCookie Git"), None);
    assert!(title_only.contains("<meta name=\"axgit:site-title\" content=\"PtCookie Git\">"));
    assert!(!title_only.contains("site-desc"));

    let desc_only = site_head_meta(None, Some("Self-hosted repositories"));
    assert!(!desc_only.contains("site-title"));
    assert!(
        desc_only
            .contains("<meta name=\"axgit:site-desc\" content=\"Self-hosted repositories\">")
    );
}

#[test]
fn site_head_meta_should_escape_both_fields() {
    let meta = site_head_meta(Some(r#"a"b"#), Some(r#"c"d"#));
    assert!(!meta.contains(r#""a"b""#));
    assert!(meta.contains("a&quot;b"));
    assert!(meta.contains("c&quot;d"));
}

#[test]
fn repo_head_links_should_write_the_exact_markup() {
    assert_eq!(
        repo_head_links("r", Some("https://h/")),
        "<link rel=\"alternate\" type=\"application/atom+xml\" title=\"Recent commits\" href=\"/api/v1/repos/r/feed.atom\">\
<link rel=\"alternate\" type=\"application/atom+xml\" title=\"Recent commits (all refs)\" href=\"/api/v1/repos/r/feed.atom?all=1\">\
<link rel=\"vcs-git\" title=\"Git repository\" href=\"https://h/r.git\">"
    );
}

#[test]
fn inject_before_head_close_should_use_the_first_head_close() {
    let body = b"<head></head><head></head>".to_vec();
    assert_eq!(inject_before_head_close(body, "X"), b"<head>X</head><head></head>".to_vec());
}

#[test]
fn render_shell_should_inject_meta_and_repo_links() {
    let body = b"<html><head></head></html>".to_vec();
    let extra = shell_head_extra("/r/log", "__repo__/log/index.html", Some("T"), None, None);
    assert!(extra.starts_with("<meta name=\"axgit:site-title\" content=\"T\">"));
    assert!(extra.contains("/api/v1/repos/r/feed.atom"));
    let out = render_shell(body, "/r/log", "__repo__/log/index.html", Some("T"), None, None);
    let out = String::from_utf8(out).unwrap();
    assert_eq!(out, format!("<html><head>{extra}</head></html>"));
    assert_eq!(shell_head_extra("/", "index.html", None, None, None), "");
}
