use axgit::repo::submodule::{entry_path, expand_template, has_gitlink, is_link_href, parse_gitmodules, resolve_module_link};
use axgit::repo::tree::EntryKind;


#[test]
fn expand_template_substitutes_path_then_sha() {
    assert_eq!(
        expand_template("/git/%s/commit/?id=%s", "vendor/dep", "abc123"),
        Some("/git/vendor/dep/commit/?id=abc123".to_owned())
    );
}

#[test]
fn expand_template_path_only() {
    assert_eq!(
        expand_template("https://example.com/%s", "vendor/dep", "abc123"),
        Some("https://example.com/vendor/dep".to_owned())
    );
}

#[test]
fn expand_template_constant_url_needs_no_placeholder() {
    assert_eq!(
        expand_template("https://example.com/fixed", "vendor/dep", "abc123"),
        Some("https://example.com/fixed".to_owned())
    );
}

#[test]
fn expand_template_percent_percent_is_literal_percent() {
    assert_eq!(
        expand_template("100%% at %s", "done", "sha"),
        Some("100% at done".to_owned())
    );
}

#[test]
fn expand_template_a_third_percent_s_is_unusable() {
    assert_eq!(expand_template("%s/%s/%s", "p", "s"), None);
}

#[test]
fn expand_template_unknown_specifier_is_unusable() {
    assert_eq!(expand_template("%d", "p", "s"), None);
}

#[test]
fn expand_template_trailing_percent_is_unusable() {
    assert_eq!(expand_template("broken%", "p", "s"), None);
}

#[test]
fn expand_template_never_swaps_path_and_sha() {
    let result = expand_template("%s-%s", "PATH", "SHA").unwrap();
    assert_eq!(result, "PATH-SHA");
}

#[test]
fn is_link_href_accepts_http_and_https() {
    assert!(is_link_href("http://example.com"));
    assert!(is_link_href("https://example.com/x"));
}

#[test]
fn is_link_href_accepts_root_relative() {
    assert!(is_link_href("/git/dep.git/commit/?id=abc"));
    assert!(is_link_href("/"));
}

#[test]
fn is_link_href_rejects_protocol_relative() {
    assert!(!is_link_href("//evil.com/x"));
    assert!(!is_link_href("/\\evil.com/x"));
}

#[test]
fn is_link_href_rejects_relative_and_other_schemes() {
    assert!(!is_link_href("./?repo=%s&page=commit&id=%s"));
    assert!(!is_link_href("../x"));
    assert!(!is_link_href("javascript:alert(1)"));
    assert!(!is_link_href("data:text/html,x"));
    assert!(!is_link_href("git@host:a/b.git"));
    assert!(!is_link_href("ssh://host/a"));
    assert!(!is_link_href("HTTPS://X"));
    assert!(!is_link_href(""));
}

#[test]
fn parse_gitmodules_canonical_two_stanzas() {
    let content = r#"
[submodule "dep"]
	path = vendor/dep
	url = https://example.com/dep.git
[submodule "lib"]
	path = third_party/lib
	url = https://example.com/lib.git
"#;
    assert_eq!(
        parse_gitmodules(content),
        vec![
            (
                "vendor/dep".to_owned(),
                "https://example.com/dep.git".to_owned()
            ),
            (
                "third_party/lib".to_owned(),
                "https://example.com/lib.git".to_owned()
            ),
        ]
    );
}

#[test]
fn parse_gitmodules_url_before_path() {
    let content = r#"
[submodule "dep"]
	url = https://example.com/dep.git
	path = vendor/dep
"#;
    assert_eq!(
        parse_gitmodules(content),
        vec![(
            "vendor/dep".to_owned(),
            "https://example.com/dep.git".to_owned()
        )]
    );
}

#[test]
fn parse_gitmodules_quoted_value() {
    let content = r#"
[submodule "dep"]
	path = "vendor/dep"
	url = "https://example.com/a\"b.git"
"#;
    assert_eq!(
        parse_gitmodules(content),
        vec![(
            "vendor/dep".to_owned(),
            "https://example.com/a\"b.git".to_owned()
        )]
    );
}

#[test]
fn parse_gitmodules_full_line_and_inline_comments() {
    let content = r#"
# a leading comment
[submodule "dep"]
	; another comment style
	path = vendor/dep # inline comment
	url = https://example.com/dep.git ; also inline
"#;
    assert_eq!(
        parse_gitmodules(content),
        vec![(
            "vendor/dep".to_owned(),
            "https://example.com/dep.git".to_owned()
        )]
    );
}

#[test]
fn parse_gitmodules_tabs_and_crlf() {
    let content =
        "[submodule \"dep\"]\r\n\tpath = vendor/dep\r\n\turl = https://example.com/dep.git\r\n";
    assert_eq!(
        parse_gitmodules(content),
        vec![(
            "vendor/dep".to_owned(),
            "https://example.com/dep.git".to_owned()
        )]
    );
}

#[test]
fn parse_gitmodules_unrelated_section_in_between() {
    let content = r#"
[submodule "dep"]
	path = vendor/dep
[core]
	filemode = true
[submodule "lib"]
	path = third_party/lib
	url = https://example.com/lib.git
"#;
    assert_eq!(
        parse_gitmodules(content),
        vec![(
            "third_party/lib".to_owned(),
            "https://example.com/lib.git".to_owned()
        )]
    );
}

#[test]
fn parse_gitmodules_stanza_with_only_path_or_only_url_is_dropped() {
    let content = r#"
[submodule "path-only"]
	path = vendor/a
[submodule "url-only"]
	url = https://example.com/b.git
"#;
    assert_eq!(parse_gitmodules(content), Vec::<(String, String)>::new());
}

#[test]
fn parse_gitmodules_name_may_differ_from_path() {
    let content = r#"
[submodule "totally-different-name"]
	path = vendor/dep
	url = https://example.com/dep.git
"#;
    assert_eq!(
        parse_gitmodules(content),
        vec![(
            "vendor/dep".to_owned(),
            "https://example.com/dep.git".to_owned()
        )]
    );
}

#[test]
fn parse_gitmodules_duplicate_path_first_wins() {
    let content = r#"
[submodule "a"]
	path = vendor/dep
	url = https://example.com/first.git
[submodule "b"]
	path = vendor/dep
	url = https://example.com/second.git
"#;
    assert_eq!(
        parse_gitmodules(content),
        vec![(
            "vendor/dep".to_owned(),
            "https://example.com/first.git".to_owned()
        )]
    );
}

#[test]
fn parse_gitmodules_duplicate_key_within_a_stanza_last_wins() {
    let content = r#"
[submodule "dep"]
	path = vendor/dep
	url = https://example.com/first.git
	url = https://example.com/second.git
"#;
    assert_eq!(
        parse_gitmodules(content),
        vec![(
            "vendor/dep".to_owned(),
            "https://example.com/second.git".to_owned()
        )]
    );
}

#[test]
fn parse_gitmodules_trailing_slash_on_path_is_trimmed() {
    let content = r#"
[submodule "dep"]
	path = vendor/dep/
	url = https://example.com/dep.git
"#;
    assert_eq!(
        parse_gitmodules(content),
        vec![(
            "vendor/dep".to_owned(),
            "https://example.com/dep.git".to_owned()
        )]
    );
}

fn modules(pairs: &[(&str, &str)]) -> Vec<(String, String)> {
    pairs.iter().map(|(p, u)| (p.to_string(), u.to_string())).collect()
}

#[test]
fn resolve_module_link_prefers_a_template_that_expands_to_a_link() {
    let gm = modules(&[("vendor/dep", "https://example.com/dep.git")]);
    assert_eq!(
        resolve_module_link(Some("/git/%s/commit/?id=%s"), "vendor/dep", "abc", &gm),
        Some("/git/vendor/dep/commit/?id=abc".to_owned())
    );
    // A template decides alone, even when its expansion is unusable.
    assert_eq!(resolve_module_link(Some("./?id=%s"), "vendor/dep", "abc", &gm), None);
    assert_eq!(resolve_module_link(Some("%d"), "vendor/dep", "abc", &gm), None);
}

#[test]
fn resolve_module_link_falls_back_to_the_gitmodules_url() {
    let gm = modules(&[("a", "git@host:a.git"), ("vendor/dep", "https://example.com/dep.git")]);
    assert_eq!(
        resolve_module_link(None, "vendor/dep", "abc", &gm),
        Some("https://example.com/dep.git".to_owned())
    );
    assert_eq!(resolve_module_link(None, "a", "abc", &gm), None);
    assert_eq!(resolve_module_link(None, "missing", "abc", &gm), None);
}

#[test]
fn entry_paths_and_gitlinks() {
    assert_eq!(entry_path("", "a"), "a");
    assert_eq!(entry_path("src", "a"), "src/a");
    assert!(has_gitlink(&[EntryKind::Blob, EntryKind::Commit]));
    assert!(!has_gitlink(&[EntryKind::Blob, EntryKind::Tree]));
}
