use axgit::repo::meta::{
    config_flag, config_value, default_branch, homepage_value, is_http_url, is_ignored, meta_value,
    module_link_template, should_list,
};

fn s(v: &str) -> Option<String> {
    Some(v.to_owned())
}

#[test]
fn is_http_url_should_accept_only_http_and_https() {
    assert!(is_http_url("https://example.com"));
    assert!(is_http_url("http://example.com"));
    assert!(!is_http_url("javascript:alert(1)"));
    assert!(!is_http_url("ftp://example.com"));
    assert!(!is_http_url(""));
}

#[test]
fn should_list_is_true_by_default() {
    assert!(should_list(None, None, None, None));
    assert!(!is_ignored(None, None));
}

#[test]
fn should_list_is_false_when_hide_is_set() {
    assert!(!should_list(None, Some(true), None, None));
    assert!(!is_ignored(None, None));
}

#[test]
fn should_list_and_is_ignored_agree_when_ignore_is_set() {
    assert!(!should_list(None, None, None, Some(true)));
    assert!(is_ignored(None, Some(true)));
}

#[test]
fn axgit_ignore_wins_over_cgit_hide() {
    assert!(should_list(Some(false), Some(true), None, None));
}

#[test]
fn config_flag_prefers_the_axgit_section() {
    assert!(!config_flag(Some(false), Some(true)));
    assert!(config_flag(Some(true), Some(false)));
    assert!(config_flag(None, Some(true)));
    assert!(!config_flag(None, None));
    assert_eq!(config_value(s("a"), s("c")), s("a"));
    assert_eq!(config_value(None, s("c")), s("c"));
}

#[test]
fn read_repo_info_treats_blank_metadata_as_unset() {
    assert_eq!(meta_value(None, s("")), None);
    assert_eq!(meta_value(None, s("   ")), None);
    assert_eq!(meta_value(None, s("")), None);
    assert_eq!(meta_value(s(" "), s("kept?")), None);
    assert_eq!(meta_value(None, s(" tools ")), s(" tools "));
}

#[test]
fn homepage_value_should_require_an_http_url() {
    assert_eq!(homepage_value(None, s("https://x.org")), s("https://x.org"));
    assert_eq!(homepage_value(s("javascript:alert(1)"), s("https://x.org")), None);
    assert_eq!(homepage_value(s("  "), None), None);
}

#[test]
fn module_link_template_falls_back_through_all_four_keys() {
    assert_eq!(module_link_template(None, None, None, None), None);
    assert_eq!(module_link_template(None, None, None, s("cgit-wide")), s("cgit-wide"));
    assert_eq!(module_link_template(None, None, s("axgit-wide"), s("cgit-wide")), s("axgit-wide"));
    assert_eq!(
        module_link_template(None, s("cgit-path"), s("axgit-wide"), s("cgit-wide")),
        s("cgit-path")
    );
    assert_eq!(
        module_link_template(s("axgit-path"), s("cgit-path"), s("axgit-wide"), s("cgit-wide")),
        s("axgit-path")
    );
    // Another path has none of the per-path keys.
    assert_eq!(module_link_template(None, None, s("axgit-wide"), s("cgit-wide")), s("axgit-wide"));
}

#[test]
fn module_link_template_handles_a_dotted_path() {
    assert_eq!(module_link_template(s("dotted"), None, None, None), s("dotted"));
}

#[test]
fn module_link_template_empty_per_path_value_suppresses_repo_wide() {
    assert_eq!(module_link_template(s(""), None, s("axgit-wide"), None), s(""));
}

#[test]
fn default_branch_should_use_defbranch_only_when_it_exists() {
    assert_eq!(default_branch(s("dev"), true, s("main")), s("dev"));
    assert_eq!(default_branch(s("dev"), false, s("main")), s("main"));
    assert_eq!(default_branch(None, false, None), None);
}
